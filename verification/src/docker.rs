//! The container-exec step's decision logic: a run is judged by its exit
//! code, and a failure carries the code with both captured output
//! streams. Talking to the container runtime itself happens outside the
//! library; the outcome of every run flows through here.

use vstd::prelude::*;

verus! {

/// A failure of the container step, as the callers report it: a
/// transport failure reaching the runtime, or a command that ran and
/// exited non-zero.
#[derive(Debug)]
pub enum DockerError {
    Transport(String),
    ExecFailed { code: i64, stdout: String, stderr: String },
}

/// Judges an inspected exec: accepted exactly when no exit code was
/// reported or the code is zero; a non-zero code fails, carrying the
/// code and both captured streams unchanged.
pub fn exec_outcome(exit_code: Option<i64>, stdout: String, stderr: String) -> (r: Result<
    (),
    DockerError,
>)
    ensures
        (r is Ok) == (exit_code is None || exit_code == Some(0i64)),
        match r {
            Ok(()) => true,
            Err(e) => e matches DockerError::ExecFailed { code, stdout: out, stderr: err }
                && Some(code) == exit_code && code != 0 && out@ == stdout@ && err@ == stderr@,
        },
{
    match exit_code {
        None => Ok(()),
        Some(code) => {
            if code == 0 {
                Ok(())
            } else {
                Err(DockerError::ExecFailed { code, stdout, stderr })
            }
        },
    }
}

} // verus!
