//! The groups of cells that the host can enumerate.

use vstd::prelude::*;

verus! {

/// Which cells of the transaction an index counts through.
#[derive(Clone, Copy, Debug, PartialEq, Eq)]
pub enum Source {
    /// All cells that the transaction spends.
    Input,
    /// All cells that the transaction makes.
    Output,
    /// The spent cells that carry the running script.
    GroupInput,
    /// The made cells that carry the running script.
    GroupOutput,
}

} // verus!
