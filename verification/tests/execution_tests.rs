use helios::execution::compiler_output;
use helios::execution::job_assign_failure;
use helios::execution::job_create_failure;
use helios::execution::job_limit_failure;
use helios::execution::spawn_failure;
use helios::execution::wait_failure;

#[test]
fn output_of_finished_run() {
    let (code, out, err) = compiler_output(Some(1), b"compiling", b"error: x");
    assert_eq!(code, 1);
    assert_eq!(out, "compiling");
    assert_eq!(err, "error: x");
}

#[test]
fn run_without_exit_code_reports_minus_one() {
    let (code, out, err) = compiler_output(None, b"", b"\xffbad");
    assert_eq!(code, -1);
    assert_eq!(out, "");
    assert_eq!(err, "\u{fffd}bad");
}

#[test]
fn failure_messages() {
    assert_eq!(spawn_failure("cl.exe", "not found"), "Failed to start compiler executable (cl.exe): not found");
    assert_eq!(wait_failure("broken pipe"), "Failed to await compiler execution: broken pipe");
    assert_eq!(job_create_failure("denied"), "Failed to create Windows Job Object: denied");
    assert_eq!(job_limit_failure("denied"), "Failed to enforce Job Object limits: denied");
    assert_eq!(job_assign_failure("denied"), "Failed to bind process to Sandbox: denied");
}
