//! Turns a `cargo rpl` command line into an invocation of cargo whose
//! compiler calls go through the analysis driver.
use vstd::prelude::*;

pub mod command;
pub mod invocation;
pub mod laws;
pub mod router;

pub use invocation::RplCmd;

verus! {

/// Outcome of this run, given how the orchestrator process terminated:
/// success when it succeeded, otherwise its exit code, or `-1` when it
/// ended without one (killed by a signal).
pub fn process(success: bool, code: Option<i32>) -> (r: Result<(), i32>)
    ensures
        success ==> r == Ok::<(), i32>(()),
        !success ==> r == Err::<(), i32>(
            match code {
                Some(c) => c,
                None => -1i32,
            },
        ),
{
    if success {
        Ok(())
    } else {
        match code {
            Some(c) => Err(c),
            None => Err(-1),
        }
    }
}

} // verus!
