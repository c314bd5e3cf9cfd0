//! Resuming a session with the assistant's command line program. The
//! program's name is a parameter: `program` below.
use vstd::prelude::*;
use crate::text::{push_signed, push_str, signed_decimal};

verus! {

/// Why a session could not be resumed.
#[derive(Debug)]
pub enum ResumeError {
    CwdMissing,
    ProgramNotFound,
    SpawnFailed(String),
    NonZeroExit(i32),
}

/// How launching the program went.
pub enum SpawnOutcome {
    /// The process ran and exited; `code` is its exit code, if it had one.
    Exited { success: bool, code: Option<i32> },
    /// No executable of that name was found.
    NotFound,
    /// Launching failed for another reason, described by the text.
    Failed(String),
}

/// The message that tells the user why resuming with `program` failed.
pub open spec fn resume_message(e: ResumeError, program: Seq<char>) -> Seq<char> {
    match e {
        ResumeError::CwdMissing => "the original working directory no longer exists"@,
        ResumeError::ProgramNotFound => "`"@ + program + "` not found on PATH"@,
        ResumeError::SpawnFailed(s) => "failed to spawn `"@ + program + "`: "@ + s@,
        ResumeError::NonZeroExit(code) => "`"@ + program + "` exited with status "@
            + signed_decimal(code as int),
    }
}

impl ResumeError {
    /// The message that tells the user why resuming with `program` failed.
    pub fn message(&self, program: &str) -> (r: String)
        ensures
            r@ == resume_message(*self, program@),
    {
        match self {
            ResumeError::CwdMissing => String::from_str(
                "the original working directory no longer exists",
            ),
            ResumeError::ProgramNotFound => {
                let mut m = String::from_str("`");
                push_str(&mut m, program);
                push_str(&mut m, "` not found on PATH");
                m
            },
            ResumeError::SpawnFailed(s) => {
                let mut m = String::from_str("failed to spawn `");
                push_str(&mut m, program);
                push_str(&mut m, "`: ");
                push_str(&mut m, s.as_str());
                m
            },
            ResumeError::NonZeroExit(code) => {
                let mut m = String::from_str("`");
                push_str(&mut m, program);
                push_str(&mut m, "` exited with status ");
                push_signed(&mut m, *code as i64);
                m
            },
        }
    }
}

/// The arguments of the program that resume (or, with `fork`, fork) a session.
pub open spec fn resume_args_of(session_id: Seq<char>, fork: bool) -> Seq<Seq<char>> {
    if fork {
        seq!["--resume"@, session_id, "--fork-session"@]
    } else {
        seq!["--resume"@, session_id]
    }
}

/// Plan a resume: it needs the session's working directory to exist, and
/// then runs the program there with `--resume <id>` (and `--fork-session` for a
/// fork).
pub fn spawn_plan(cwd_is_dir: bool, session_id: &str, fork: bool) -> (r: Result<
    Vec<String>,
    ResumeError,
>)
    ensures
        !cwd_is_dir ==> r matches Err(ResumeError::CwdMissing),
        cwd_is_dir ==> (r matches Ok(args) && args@.map_values(|a: String| a@) == resume_args_of(
            session_id@,
            fork,
        )),
{
    if !cwd_is_dir {
        return Err(ResumeError::CwdMissing);
    }
    let mut args: Vec<String> = Vec::new();
    args.push(String::from_str("--resume"));
    args.push(String::from_str(session_id));
    if fork {
        args.push(String::from_str("--fork-session"));
    }
    assert(args@.map_values(|a: String| a@) =~= resume_args_of(session_id@, fork));
    Ok(args)
}

/// What a finished launch means: success only for a successful exit; a
/// missing executable, a failed launch and a failing exit (with its code,
/// or -1 without one) are errors.
pub fn spawn_result(outcome: SpawnOutcome) -> (r: Result<(), ResumeError>)
    ensures
        match outcome {
            SpawnOutcome::Exited { success: true, .. } => r is Ok,
            SpawnOutcome::Exited { success: false, code } => (r matches Err(
                ResumeError::NonZeroExit(c),
            ) && c == match code {
                Some(k) => k,
                None => -1i32,
            }),
            SpawnOutcome::NotFound => r matches Err(ResumeError::ProgramNotFound),
            SpawnOutcome::Failed(s) => (r matches Err(ResumeError::SpawnFailed(t)) && t == s),
        },
{
    match outcome {
        SpawnOutcome::Exited { success, code } => {
            if success {
                Ok(())
            } else {
                Err(
                    ResumeError::NonZeroExit(
                        match code {
                            Some(k) => k,
                            None => -1,
                        },
                    ),
                )
            }
        },
        SpawnOutcome::NotFound => Err(ResumeError::ProgramNotFound),
        SpawnOutcome::Failed(s) => Err(ResumeError::SpawnFailed(s)),
    }
}

} // verus!
