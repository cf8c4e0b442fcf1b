use crate::messages::CompileResponse;
use crate::messages::CompileTask;
use crate::messages::NodeStatus;
use crate::text::str_concat;
use crate::text::owned;
use crate::text::views_of;
use vstd::prelude::*;

verus! {

/// The compiler used when a task names none.
pub open spec fn default_compiler_text() -> Seq<char> {
    "clang++"@
}

/// The compiler a task runs with: the one it names, else the default.
pub open spec fn compiler_text(version: Seq<char>) -> Seq<char> {
    if version.len() == 0 {
        default_compiler_text()
    } else {
        version
    }
}

/// The name of the scratch directory of a task.
pub open spec fn task_dir_text(task_id: Seq<char>) -> Seq<char> {
    "helios_task_"@ + task_id
}

/// The name of the object file compiled from a source file.
pub open spec fn object_name_text(source_filename: Seq<char>) -> Seq<char> {
    source_filename + ".o"@
}

/// The compiler's arguments: the task's flags, then the source path, "-o"
/// and the object path.
pub open spec fn compile_args(
    flags: Seq<Seq<char>>,
    source_path: Seq<char>,
    object_path: Seq<char>,
) -> Seq<Seq<char>> {
    flags + seq![source_path, "-o"@, object_path]
}

/// The compiler a task runs with is the one it names; only a task that
/// names none runs with clang++.
pub proof fn law_compiler_choice(version: Seq<char>)
    ensures
        version.len() > 0 ==> compiler_text(version) == version,
        version.len() == 0 ==> compiler_text(version) == "clang++"@,
{
}

/// The compiler's arguments are all of the task's flags, in order, and then
/// exactly three more: the source path, "-o" and the object path.
pub proof fn law_compile_args_keep_flags(
    flags: Seq<Seq<char>>,
    source_path: Seq<char>,
    object_path: Seq<char>,
)
    ensures
        compile_args(flags, source_path, object_path).len() == flags.len() + 3,
        compile_args(flags, source_path, object_path).take(flags.len() as int) == flags,
        forall|i: int|
            0 <= i < flags.len() ==> #[trigger] compile_args(flags, source_path, object_path)[i]
                == flags[i],
        compile_args(flags, source_path, object_path)[flags.len() as int] == source_path,
        compile_args(flags, source_path, object_path)[flags.len() + 1int] == "-o"@,
        compile_args(flags, source_path, object_path)[flags.len() + 2int] == object_path,
{
    assert(compile_args(flags, source_path, object_path).take(flags.len() as int) =~= flags);
}

/// The scratch directory of a task is named by its whole identifier after a
/// fixed prefix, and the object file by the whole source file name with
/// ".o" after it.
pub proof fn law_scratch_names(task_id: Seq<char>, source_filename: Seq<char>)
    ensures
        task_dir_text(task_id).len() == "helios_task_"@.len() + task_id.len(),
        task_dir_text(task_id).take("helios_task_"@.len() as int) == "helios_task_"@,
        task_dir_text(task_id).skip("helios_task_"@.len() as int) == task_id,
        object_name_text(source_filename).take(source_filename.len() as int) == source_filename,
        object_name_text(source_filename).skip(source_filename.len() as int) == ".o"@,
{
    assert(task_dir_text(task_id).take("helios_task_"@.len() as int) =~= "helios_task_"@);
    assert(task_dir_text(task_id).skip("helios_task_"@.len() as int) =~= task_id);
    assert(object_name_text(source_filename).take(source_filename.len() as int)
        =~= source_filename);
    assert(object_name_text(source_filename).skip(source_filename.len() as int) =~= ".o"@);
}

/// The standard error text reported when the compiler could not be run.
pub open spec fn sandbox_failure_text() -> Seq<char> {
    "Failed to execute compiler sandbox"@
}

/// The number of parallel jobs reported when the machine does not tell.
pub const DEFAULT_CONCURRENCY: u32 = 4;

/// How a task is to be run: the compiler and its arguments.
pub struct CompilePlan {
    pub compiler: String,
    pub args: Vec<String>,
}

/// The gRPC service of a worker: it compiles the tasks that peers send it
/// and answers pings.
pub struct HeliosCompilerService;

impl Default for HeliosCompilerService {
    fn default() -> (s: Self)
        ensures
            s == HeliosCompilerService,
    {
        HeliosCompilerService
    }
}

impl HeliosCompilerService {
    /// The scratch directory name of a task.
    pub fn task_dir_name(&self, task_id: &str) -> (name: String)
        ensures
            name@ == task_dir_text(task_id@),
            name@ == "helios_task_"@ + task_id@,
    {
        str_concat("helios_task_", task_id)
    }

    /// The object file name for a source file name.
    pub fn object_filename(&self, source_filename: &str) -> (name: String)
        ensures
            name@ == object_name_text(source_filename@),
            name@ == source_filename@ + ".o"@,
    {
        str_concat(source_filename, ".o")
    }

    /// How to compile `task`, once its source is written at `source_path` and
    /// its object is wanted at `object_path`.
    pub fn plan(&self, task: &CompileTask, source_path: String, object_path: String) -> (plan:
        CompilePlan)
        ensures
            plan.compiler@ == compiler_text(task.compiler_version@),
            views_of(plan.args@) == compile_args(
                views_of(task.compiler_flags@),
                source_path@,
                object_path@,
            ),
            task.compiler_version@.len() == 0 ==> plan.compiler@ == "clang++"@,
            task.compiler_version@.len() > 0 ==> plan.compiler@ == task.compiler_version@,
            plan.args@.len() == task.compiler_flags@.len() + 3,
            forall|i: int|
                0 <= i < task.compiler_flags@.len() ==> #[trigger] plan.args@[i]@
                    == task.compiler_flags@[i]@,
            plan.args@[task.compiler_flags@.len() as int]@ == source_path@,
            plan.args@[task.compiler_flags@.len() + 1int]@ == "-o"@,
            plan.args@[task.compiler_flags@.len() + 2int]@ == object_path@,
    {
        let compiler = if task.compiler_version.as_str().is_empty() {
            owned("clang++")
        } else {
            task.compiler_version.clone()
        };
        let flags = &task.compiler_flags;
        let n = flags.len();
        let mut args: Vec<String> = Vec::new();
        let mut i: usize = 0;
        while i < n
            invariant
                n == flags@.len(),
                0 <= i <= n,
                views_of(args@) == views_of(flags@).take(i as int),
            decreases n - i,
        {
            args.push(flags[i].clone());
            assert(views_of(flags@).take(i + 1) =~= views_of(flags@).take(i as int).push(
                flags@[i as int]@,
            ));
            assert(views_of(args@) =~= views_of(flags@).take(i + 1));
            i = i + 1;
        }
        let ghost prefix = views_of(args@);
        args.push(source_path);
        args.push(owned("-o"));
        args.push(object_path);
        assert(views_of(flags@).take(n as int) =~= views_of(flags@));
        assert(views_of(args@) =~= prefix + seq![source_path@, "-o"@, object_path@]);
        proof {
            law_compile_args_keep_flags(views_of(flags@), source_path@, object_path@);
            assert forall|i: int| 0 <= i < args@.len() implies #[trigger] args@[i]@ == views_of(
                args@,
            )[i] by {}
            assert forall|i: int| 0 <= i < flags@.len() implies #[trigger] args@[i]@
                == flags@[i]@ by {
                assert(views_of(args@)[i] == views_of(flags@)[i]);
            }
            assert(args@[n as int]@ == views_of(args@)[n as int]);
            assert(args@[n + 1]@ == views_of(args@)[n + 1]);
            assert(args@[n + 2]@ == views_of(args@)[n + 2]);
        }
        CompilePlan { compiler, args }
    }

    /// The response to `task_id`: what the compiler reported (or the
    /// failure to run it), the object file that was read (or none), and the
    /// time it took in milliseconds, cut to 64 bits.
    pub fn respond(
        &self,
        task_id: String,
        outcome: Result<(i32, String, String), String>,
        object_file: Option<Vec<u8>>,
        elapsed_ms: u128,
    ) -> (r: CompileResponse)
        ensures
            r.task_id == task_id,
            match outcome {
                Ok((code, out, err)) => r.exit_code == code && r.stdout_logs == out
                    && r.stderr_logs == err,
                Err(_) => r.exit_code == -1 && r.stdout_logs@ == Seq::<char>::empty()
                    && r.stderr_logs@ == sandbox_failure_text()
                    && r.stderr_logs@ == "Failed to execute compiler sandbox"@,
            },
            match object_file {
                Some(bytes) => r.object_file == bytes,
                None => r.object_file@ == Seq::<u8>::empty(),
            },
            r.duration_ms == elapsed_ms as u64,
    {
        let (exit_code, stdout_logs, stderr_logs) = match outcome {
            Ok(run) => run,
            Err(_) => (-1i32, String::new(), owned("Failed to execute compiler sandbox")),
        };
        let object_file = match object_file {
            Some(bytes) => bytes,
            None => Vec::new(),
        };
        CompileResponse {
            task_id,
            exit_code,
            object_file,
            stdout_logs,
            stderr_logs,
            duration_ms: elapsed_ms as u64,
        }
    }

    /// The answer to a ping: tasks are accepted, none is counted as active,
    /// and the concurrency is the machine's parallelism (cut to 32 bits), or
    /// `DEFAULT_CONCURRENCY` when it is unknown.
    pub fn ping(&self, parallelism: Option<usize>) -> (status: NodeStatus)
        ensures
            status.accepts_tasks,
            status.active_jobs == 0,
            status.max_concurrency == match parallelism {
                Some(n) => n as u32,
                None => DEFAULT_CONCURRENCY,
            },
    {
        let max_concurrency = match parallelism {
            Some(n) => n as u32,
            None => DEFAULT_CONCURRENCY,
        };
        NodeStatus { accepts_tasks: true, active_jobs: 0, max_concurrency }
    }
}

} // verus!
