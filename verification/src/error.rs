//! What the host can signal in place of data, and why a transaction is rejected.

use vstd::prelude::*;

verus! {

/// What the host answers to a request when it hands out no data.
#[derive(Clone, Copy, Debug, PartialEq, Eq)]
pub enum Signal {
    /// The index lies past the last cell: the enumeration is over.
    IndexOutOfBound,
    /// The cell has no such field.
    ItemMissing,
    /// The host's buffer was too short for the data, whose length it reports.
    LengthNotEnough(usize),
    /// The host's data did not have the expected layout.
    Encoding,
    /// Waiting for another process failed.
    WaitFailure,
    /// A file descriptor was not valid.
    InvalidFd,
    /// The other end of a pipe was closed.
    OtherEndClosed,
    /// No further process could be started.
    MaxVmsSpawned,
    /// No further file descriptor could be made.
    MaxFdsCreated,
    /// A code that the host library does not know.
    Unknown(u64),
}

/// Why a transaction is rejected.
#[derive(Clone, Copy, Debug, PartialEq, Eq)]
pub enum Error {
    /// The host failed to hand out data; the signal is kept as it came.
    Environment(Signal),
    /// A cell's data is not an amount of 16 bytes, or a group's total does not
    /// fit in 128 bits.
    Encoding,
    /// The outputs hold more than the inputs and the owner takes no part.
    InsufficientAmount,
}

} // verus!
