//! Pipeline stages and the error taxonomy shared by every component.

use vstd::prelude::*;

verus! {

/// The stage of the pipeline in which a failure occurred.
#[derive(Debug, Clone, Copy, PartialEq, Eq, Structural)]
pub enum Step {
    Install,
    Ready,
    Link,
    Build,
    Convert,
    Load,
}

/// Every failure of the pipeline, tagged with the stage where it arose.
#[derive(Debug)]
pub enum CompileError {
    /// An external command ran and exited with a non-zero code.
    CommandFailure { step: Step, command: String, error_code: i32 },
    /// An external command could not be spawned at all.
    CommandIOFailure { step: Step, command: String, error: String },
    /// No variant of an LLVM utility name responded to a probe.
    LLVMCommandNotFound { command: String },
    /// Bitcode inspection found no kernel or device function.
    NoKernelFound,
    /// The project metadata did not have the expected shape.
    RuntimeMetadataInvalid { comment: String },
    /// An unexpected filesystem failure.
    UnexpectedIOError { step: Step, error: String },
    /// Any other failure, with a stage tag and a short comment.
    OtherError { step: Step, comment: String },
}

/// Build an [`CompileError::OtherError`] from a stage and a comment.
pub fn err_msg(step: Step, comment: &str) -> (r: CompileError)
    ensures
        r matches CompileError::OtherError { step: s, comment: c } && s == step && c@
            == comment@,
{
    CompileError::OtherError { step, comment: String::from_str(comment) }
}

/// Attach a stage and a comment to a failed result.
pub trait Logging: Sized {
    type T;

    /// Replace the error of `self` by an [`CompileError::OtherError`]
    /// carrying `step` and a generic comment.
    fn log_unwrap(self, step: Step) -> (r: Result<Self::T, CompileError>);

    /// Replace the error of `self` by an [`CompileError::OtherError`]
    /// carrying `step` and `comment`.
    fn log(self, step: Step, comment: &str) -> (r: Result<Self::T, CompileError>);
}

impl<T> Logging for Result<T, String> {
    type T = T;

    fn log_unwrap(self, step: Step) -> (r: Result<T, CompileError>)
        ensures
            self matches Ok(t) ==> r matches Ok(u) && u == t,
            self is Err ==> (r matches Err(e) && (e matches CompileError::OtherError {
                step: s,
                comment: _,
            } && s == step)),
    {
        self.log(step, "Unknown IO Error")
    }

    fn log(self, step: Step, comment: &str) -> (r: Result<T, CompileError>)
        ensures
            self matches Ok(t) ==> r matches Ok(u) && u == t,
            self is Err ==> (r matches Err(e) && (e matches CompileError::OtherError {
                step: s,
                comment: c,
            } && s == step && c@ == comment@)),
    {
        match self {
            Ok(t) => Ok(t),
            Err(_) => Err(err_msg(step, comment)),
        }
    }
}

/// Interpret the exit status of an external command: a non-zero exit code is
/// a [`CompileError::CommandFailure`]; a zero code, or termination without a
/// code, counts as success.
pub fn check_status(step: Step, command: &str, code: Option<i32>) -> (r: Result<
    (),
    CompileError,
>)
    ensures
        r is Ok <==> (code is None || code == Some(0i32)),
        code matches Some(c) ==> (c == 0 || (r matches Err(e) && (
        e matches CompileError::CommandFailure { step: s, command: cmd, error_code: ec }
            && s == step && cmd@ == command@ && ec == c))),
{
    match code {
        Some(error_code) => {
            if error_code != 0 {
                Err(
                    CompileError::CommandFailure {
                        step,
                        command: String::from_str(command),
                        error_code,
                    },
                )
            } else {
                Ok(())
            }
        },
        None => Ok(()),
    }
}

} // verus!
