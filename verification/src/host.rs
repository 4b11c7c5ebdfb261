//! What the library asks of the machine it runs on.

use vstd::prelude::*;

verus! {

/// Asks `isatty::stdin_isatty` whether standard input is a terminal. The
/// answer depends on how the process was started, so nothing is claimed of it.
#[verifier::external_body]
pub fn stdin_isatty() -> bool {
    isatty::stdin_isatty()
}

/// Asks `num_cpus::get` for the number of processors the process may use. The
/// answer depends on the machine, so nothing is claimed of it.
#[verifier::external_body]
pub(crate) fn processor_count() -> usize {
    num_cpus::get()
}

} // verus!
