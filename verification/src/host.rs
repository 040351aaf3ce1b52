//! The calls into the host that runs the script.
//!
//! Nothing is known of what the host answers: the functions here only pass its
//! answers on as plain values.

use vstd::prelude::*;
use crate::error::Signal;
use crate::source::Source;
use ckb_std::error::SysError;

verus! {

/// `ckb_std::error::SysError`, what a request to the host fails with. Nothing of
/// its inside is known here: `signal_of` turns it into a `Signal`.
#[verifier::external_type_specification]
#[verifier::external_body]
pub struct ExSysError(SysError);

/// Calls `ckb_std::high_level::load_script` and copies the arguments out of the
/// script that it returns. Nothing is claimed of the answer.
#[verifier::external_body]
fn load_script_args() -> (r: Result<Vec<u8>, SysError>)
{
    let script = ckb_std::high_level::load_script()?;
    Ok(script.args().raw_data().to_vec())
}

/// Calls `ckb_std::high_level::load_cell_lock_hash` for the cell at `index` in
/// `source`. Nothing is claimed of the answer.
#[verifier::external_body]
fn load_cell_lock_hash(index: usize, source: Source) -> (r: Result<[u8; 32], SysError>)
{
    ckb_std::high_level::load_cell_lock_hash(index, match source {
        Source::Input => ckb_std::ckb_constants::Source::Input,
        Source::Output => ckb_std::ckb_constants::Source::Output,
        Source::GroupInput => ckb_std::ckb_constants::Source::GroupInput,
        Source::GroupOutput => ckb_std::ckb_constants::Source::GroupOutput,
    })
}

/// Calls `ckb_std::high_level::load_cell_data` for the cell at `index` in
/// `source`. Nothing is claimed of the answer.
#[verifier::external_body]
fn load_cell_data(index: usize, source: Source) -> (r: Result<Vec<u8>, SysError>)
{
    ckb_std::high_level::load_cell_data(index, match source {
        Source::Input => ckb_std::ckb_constants::Source::Input,
        Source::Output => ckb_std::ckb_constants::Source::Output,
        Source::GroupInput => ckb_std::ckb_constants::Source::GroupInput,
        Source::GroupOutput => ckb_std::ckb_constants::Source::GroupOutput,
    })
}

/// Tells the variants of `ckb_std::error::SysError` apart, one signal for each.
/// Nothing is claimed of the result.
#[verifier::external_body]
fn signal_of(err: SysError) -> (r: Signal)
{
    match err {
        SysError::IndexOutOfBound => Signal::IndexOutOfBound,
        SysError::ItemMissing => Signal::ItemMissing,
        SysError::LengthNotEnough(len) => Signal::LengthNotEnough(len),
        SysError::Encoding => Signal::Encoding,
        SysError::WaitFailure => Signal::WaitFailure,
        SysError::InvalidFd => Signal::InvalidFd,
        SysError::OtherEndClosed => Signal::OtherEndClosed,
        SysError::MaxVmsSpawned => Signal::MaxVmsSpawned,
        SysError::MaxFdsCreated => Signal::MaxFdsCreated,
        SysError::Unknown(code) => Signal::Unknown(code),
    }
}

/// The arguments of the running script, as the host gives them.
pub fn script_args() -> (r: Result<Vec<u8>, Signal>)
{
    match load_script_args() {
        Ok(args) => Ok(args),
        Err(err) => Err(signal_of(err)),
    }
}

/// The lock hash of the cell at `index` in `source`, as the host gives it.
pub fn cell_lock_hash(index: usize, source: Source) -> (r: Result<[u8; 32], Signal>)
{
    match load_cell_lock_hash(index, source) {
        Ok(hash) => Ok(hash),
        Err(err) => Err(signal_of(err)),
    }
}

/// The data of the cell at `index` in `source`, as the host gives it.
pub fn cell_data(index: usize, source: Source) -> (r: Result<Vec<u8>, Signal>)
{
    match load_cell_data(index, source) {
        Ok(data) => Ok(data),
        Err(err) => Err(signal_of(err)),
    }
}

} // verus!
