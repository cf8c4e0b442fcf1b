use crate::decode::lossy_text;
use crate::decode::lossy_utf8;
use crate::text::str_concat;
use vstd::prelude::*;
use vstd::string::*;
use vstd::utf8::*;

verus! {

/// The exit code reported for a compiler run: its own, or -1 when it ended
/// without one (killed by a signal).
pub open spec fn exit_code_of(code: Option<i32>) -> i32 {
    match code {
        Some(c) => c,
        None => -1i32,
    }
}

/// A run that ended with an exit code is reported with that very code;
/// only a run that ended without one is reported as -1.
pub proof fn law_exit_code_kept(c: i32)
    ensures
        exit_code_of(Some(c)) == c,
        exit_code_of(None) == -1,
{
}

/// What a finished compiler run reports: its exit code and its two output
/// streams read as text, ill-formed bytes replaced.
pub fn compiler_output(code: Option<i32>, stdout: &[u8], stderr: &[u8]) -> (out: (
    i32,
    String,
    String,
))
    ensures
        out.0 == exit_code_of(code),
        code matches Some(c) ==> out.0 == c,
        code is None ==> out.0 == -1,
        out.1@ == lossy_utf8(stdout@),
        out.2@ == lossy_utf8(stderr@),
        valid_utf8(stdout@) ==> out.1@ == decode_utf8(stdout@),
        valid_utf8(stderr@) ==> out.2@ == decode_utf8(stderr@),
{
    let exit_code = match code {
        Some(c) => c,
        None => -1,
    };
    (exit_code, lossy_text(stdout), lossy_text(stderr))
}

/// The error when the compiler at `compiler_path` cannot be started.
pub fn spawn_failure(compiler_path: &str, detail: &str) -> (msg: String)
    ensures
        msg@ == "Failed to start compiler executable ("@ + compiler_path@ + "): "@ + detail@,
{
    let mut msg = str_concat("Failed to start compiler executable (", compiler_path);
    msg.append("): ");
    msg.append(detail);
    msg
}

/// The error when waiting for the compiler fails.
pub fn wait_failure(detail: &str) -> (msg: String)
    ensures
        msg@ == "Failed to await compiler execution: "@ + detail@,
{
    str_concat("Failed to await compiler execution: ", detail)
}

/// The error when the sandbox job cannot be created.
pub fn job_create_failure(detail: &str) -> (msg: String)
    ensures
        msg@ == "Failed to create Windows Job Object: "@ + detail@,
{
    str_concat("Failed to create Windows Job Object: ", detail)
}

/// The error when the sandbox job's limits cannot be set.
pub fn job_limit_failure(detail: &str) -> (msg: String)
    ensures
        msg@ == "Failed to enforce Job Object limits: "@ + detail@,
{
    str_concat("Failed to enforce Job Object limits: ", detail)
}

/// The error when the compiler process cannot be put in the sandbox job.
pub fn job_assign_failure(detail: &str) -> (msg: String)
    ensures
        msg@ == "Failed to bind process to Sandbox: "@ + detail@,
{
    str_concat("Failed to bind process to Sandbox: ", detail)
}

} // verus!
