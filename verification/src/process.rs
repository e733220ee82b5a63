//! The seam through which the library runs host programs.
use vstd::prelude::*;

use crate::text::views;

verus! {

/// What a successful host command printed.
#[derive(Debug, Clone, PartialEq, Eq)]
pub struct ProcessOutput {
    pub stdout: String,
    pub stderr: String,
}

/// Whether `found` is an answer `executor` gives when asked whether `binary`
/// is installed. Nothing in this crate knows more of this relation than the
/// answers its own calls returned.
pub closed spec fn finds<E>(executor: E, binary: Seq<char>, found: bool) -> bool {
    (choose|f: spec_fn(E, Seq<char>, bool) -> bool| #![trigger f(executor, binary, found)] true)(
        executor,
        binary,
        found,
    )
}

/// Whether `outcome` is an outcome `executor` gives for running `binary` with
/// `args`. An executor may answer one request differently from one call to the
/// next; nothing in this crate knows more of this relation than the outcomes
/// its own calls returned.
pub closed spec fn answers<E>(
    executor: E,
    binary: Seq<char>,
    args: Seq<Seq<char>>,
    outcome: Result<ProcessOutput, String>,
) -> bool {
    (choose|f: spec_fn(E, Seq<char>, Seq<Seq<char>>, Result<ProcessOutput, String>) -> bool|
        #![trigger f(executor, binary, args, outcome)] true)(executor, binary, args, outcome)
}

/// Runs exact binaries with exact argument vectors, never through a shell.
///
/// Implementations decide how a program is found and executed. Each answer
/// is one of the executor's answers to that request (`finds`, `answers`); callers state what they do with it, never which answer comes.
pub trait ProcessExecutor: Sized {
    fn command_exists(&self, binary: &str) -> (r: bool)
        ensures
            finds(*self, binary@, r),
    ;

    fn run(&self, binary: &str, args: &[String]) -> (r: Result<ProcessOutput, String>)
        ensures
            answers(*self, binary@, views(args@), r),
    ;

    fn spawn(&self, binary: &str, args: &[String]) -> Result<u32, String>;

    /// Runs a program until it exits, with nothing of its output kept. Its
    /// outcome is not related to `run`'s: an implementation may run it
    /// otherwise.
    fn run_foreground(&self, binary: &str, args: &[String]) -> (r: Result<(), String>) {
        match self.run(binary, args) {
            Ok(_) => Ok(()),
            Err(error) => Err(error),
        }
    }
}

} // verus!
