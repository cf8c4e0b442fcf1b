use helios::messages::CompileTask;
use helios::service::HeliosCompilerService;
use helios::service::DEFAULT_CONCURRENCY;
use std::collections::HashMap;

fn task(version: &str, flags: &[&str]) -> CompileTask {
    CompileTask {
        task_id: "t-1".to_string(),
        source_filename: "main.cpp".to_string(),
        source_content: b"int main(){}".to_vec(),
        compiler_flags: flags.iter().map(|f| f.to_string()).collect(),
        compiler_version: version.to_string(),
        target_triple: String::new(),
        env_vars: HashMap::new(),
    }
}

#[test]
fn names_of_scratch_files() {
    let s = HeliosCompilerService::default();
    assert_eq!(s.task_dir_name("t-1"), "helios_task_t-1");
    assert_eq!(s.object_filename("main.cpp"), "main.cpp.o");
}

#[test]
fn plan_defaults_to_clang() {
    let s = HeliosCompilerService;
    let p = s.plan(&task("", &[]), "/tmp/d/main.cpp".to_string(), "/tmp/d/main.cpp.o".to_string());
    assert_eq!(p.compiler, "clang++");
    assert_eq!(p.args, vec!["/tmp/d/main.cpp", "-o", "/tmp/d/main.cpp.o"]);
}

#[test]
fn plan_keeps_compiler_and_flags() {
    let s = HeliosCompilerService;
    let p = s.plan(&task("g++-13", &["-c", "-O2"]), "src.cpp".to_string(), "src.cpp.o".to_string());
    assert_eq!(p.compiler, "g++-13");
    assert_eq!(p.args, vec!["-c", "-O2", "src.cpp", "-o", "src.cpp.o"]);
}

#[test]
fn response_of_a_run() {
    let s = HeliosCompilerService;
    let r = s.respond(
        "t-1".to_string(),
        Ok((0, "out".to_string(), "warn".to_string())),
        Some(vec![0x7f, 0x45]),
        1500,
    );
    assert_eq!(r.task_id, "t-1");
    assert_eq!(r.exit_code, 0);
    assert_eq!(r.stdout_logs, "out");
    assert_eq!(r.stderr_logs, "warn");
    assert_eq!(r.object_file, vec![0x7f, 0x45]);
    assert_eq!(r.duration_ms, 1500);
}

#[test]
fn response_when_sandbox_fails() {
    let s = HeliosCompilerService;
    let r = s.respond("t-2".to_string(), Err("no job object".to_string()), None, (1u128 << 64) + 5);
    assert_eq!(r.exit_code, -1);
    assert_eq!(r.stdout_logs, "");
    assert_eq!(r.stderr_logs, "Failed to execute compiler sandbox");
    assert!(r.object_file.is_empty());
    assert_eq!(r.duration_ms, 5);
}

#[test]
fn ping_reports_parallelism() {
    let s = HeliosCompilerService;
    let st = s.ping(Some(8));
    assert!(st.accepts_tasks);
    assert_eq!(st.active_jobs, 0);
    assert_eq!(st.max_concurrency, 8);
    assert_eq!(s.ping(None).max_concurrency, DEFAULT_CONCURRENCY);
    assert_eq!(DEFAULT_CONCURRENCY, 4);
}

#[test]
fn ping_cuts_parallelism_to_32_bits() {
    let s = HeliosCompilerService;
    assert_eq!(s.ping(Some(usize::MAX)).max_concurrency, u32::MAX);
}
