//! The decision: the owner may do anything, and anyone else may not let the amount grow.

use vstd::prelude::*;
use crate::accounting::{amount_collected, collect_amount_with, collected, holds_data, DataAnswer};
use crate::error::Error;
use crate::host;
use crate::owner::{check_owner_mode_with, holds_locks, owner_checked, owner_present, LockAnswer};
use crate::source::Source;

verus! {

/// The rule for those who are not the owner: the outputs may not hold more than
/// the inputs.
pub open spec fn conserved(inputs: u128, outputs: u128) -> Result<(), Error> {
    if inputs < outputs {
        Err(Error::InsufficientAmount)
    } else {
        Ok(())
    }
}

/// What follows from the results of the three stages. An error of the owner
/// check comes first; the owner is let through; otherwise an error of the inputs'
/// total comes before one of the outputs' total, and the two totals decide.
pub open spec fn outcome(
    owner: Result<bool, Error>,
    inputs: Result<u128, Error>,
    outputs: Result<u128, Error>,
) -> Result<(), Error> {
    match owner {
        Err(err) => Err(err),
        Ok(true) => Ok(()),
        Ok(false) => match inputs {
            Err(err) => Err(err),
            Ok(inputs) => match outputs {
                Err(err) => Err(err),
                Ok(outputs) => conserved(inputs, outputs),
            },
        },
    }
}

/// One validation against `lock_at` and `data_at` went through the stages with the
/// results `owner`, `inputs` and `outputs`, and returned `r`. The inputs are
/// added up only where the owner check found no owner, and the outputs only
/// where the inputs gave a total.
pub open spec fn validation<L: Fn(usize, Source) -> LockAnswer, D: Fn(usize, Source) -> DataAnswer>(
    args: Seq<u8>,
    lock_at: L,
    data_at: D,
    owner: Result<bool, Error>,
    inputs: Result<u128, Error>,
    outputs: Result<u128, Error>,
    r: Result<(), Error>,
) -> bool {
    &&& owner_checked(args, lock_at, owner)
    &&& owner == Ok::<bool, Error>(false) ==> amount_collected(Source::GroupInput, data_at, inputs)
    &&& owner == Ok::<bool, Error>(false) && inputs is Ok ==> amount_collected(
        Source::GroupOutput,
        data_at,
        outputs,
    )
    &&& r == outcome(owner, inputs, outputs)
}

/// `r` is a result of validating against `lock_at` and `data_at`.
pub open spec fn validated<L: Fn(usize, Source) -> LockAnswer, D: Fn(usize, Source) -> DataAnswer>(
    args: Seq<u8>,
    lock_at: L,
    data_at: D,
    r: Result<(), Error>,
) -> bool {
    exists|owner: Result<bool, Error>, inputs: Result<u128, Error>, outputs: Result<u128, Error>|
     #[trigger]
        validation(args, lock_at, data_at, owner, inputs, outputs, r)
}

/// `lock_at` and `data_at` answer as a host does whose transaction spends cells
/// with the lock hashes `locks`, and holds the data `inputs` in the script's
/// spent cells and `outputs` in the cells that it makes for the script.
pub open spec fn holds_transaction<
    L: Fn(usize, Source) -> LockAnswer,
    D: Fn(usize, Source) -> DataAnswer,
>(
    lock_at: L,
    data_at: D,
    locks: Seq<Seq<u8>>,
    inputs: Seq<Seq<u8>>,
    outputs: Seq<Seq<u8>>,
) -> bool {
    &&& holds_locks(lock_at, Source::Input, locks)
    &&& holds_data(data_at, Source::GroupInput, inputs)
    &&& holds_data(data_at, Source::GroupOutput, outputs)
}

/// What the rule says of a transaction that spends cells with the lock hashes
/// `locks` and moves the script's token from cells with the data `inputs` to
/// cells with the data `outputs`, under a script with the arguments `args`.
pub open spec fn verdict(
    args: Seq<u8>,
    locks: Seq<Seq<u8>>,
    inputs: Seq<Seq<u8>>,
    outputs: Seq<Seq<u8>>,
) -> Result<(), Error> {
    outcome(Ok(owner_present(args, locks)), collected(inputs), collected(outputs))
}

/// Compares the two totals.
pub fn decide(inputs: u128, outputs: u128) -> (r: Result<(), Error>)
    ensures
        r == conserved(inputs, outputs),
{
    if inputs < outputs {
        return Err(Error::InsufficientAmount);
    }
    Ok(())
}

/// Validates the transaction that `lock_at` and `data_at` answer for, under a
/// script with the arguments `args`. Where the owner takes part, it is accepted
/// and no cell's data is asked for. Otherwise the script's inputs are added up,
/// then its outputs, and it is accepted where the outputs do not hold more than
/// the inputs. The first error ends the validation.
pub fn validate_with<L: Fn(usize, Source) -> LockAnswer, D: Fn(usize, Source) -> DataAnswer>(
    args: &[u8],
    lock_at: &L,
    data_at: &D,
) -> (r: Result<(), Error>)
    requires
        forall|i: usize| call_requires(*lock_at, (i, Source::Input)),
        forall|i: usize| call_requires(*data_at, (i, Source::GroupInput)),
        forall|i: usize| call_requires(*data_at, (i, Source::GroupOutput)),
    ensures
        validated(args@, *lock_at, *data_at, r),
        forall|locks: Seq<Seq<u8>>, inputs: Seq<Seq<u8>>, outputs: Seq<Seq<u8>>| #[trigger]
            holds_transaction(*lock_at, *data_at, locks, inputs, outputs) ==> r == verdict(
                args@,
                locks,
                inputs,
                outputs,
            ),
{
    let owner = check_owner_mode_with(args, lock_at);
    match owner {
        Err(err) => {
            assert(validation(args@, *lock_at, *data_at, owner, Ok(0), Ok(0), Err(err)));
            return Err(err);
        },
        Ok(true) => {
            assert(validation(args@, *lock_at, *data_at, owner, Ok(0), Ok(0), Ok(())));
            return Ok(());
        },
        Ok(false) => {},
    }
    let inputs = collect_amount_with(Source::GroupInput, data_at);
    let inputs_amount = match inputs {
        Err(err) => {
            assert(validation(args@, *lock_at, *data_at, owner, inputs, Ok(0), Err(err)));
            return Err(err);
        },
        Ok(amount) => amount,
    };
    let outputs = collect_amount_with(Source::GroupOutput, data_at);
    let outputs_amount = match outputs {
        Err(err) => {
            assert(validation(args@, *lock_at, *data_at, owner, inputs, outputs, Err(err)));
            return Err(err);
        },
        Ok(amount) => amount,
    };
    let r = decide(inputs_amount, outputs_amount);
    assert(validation(args@, *lock_at, *data_at, owner, inputs, outputs, r));
    r
}

/// Validates the transaction that the host runs the script for. A signal in
/// place of the script's arguments is the error; with the arguments in hand,
/// the result is that of one validation over the host's answers.
pub fn validate() -> (r: Result<(), Error>)
    ensures
        r matches Err(Error::Environment(_)) || exists|args: Seq<u8>| #[trigger]
            validated(args, host::cell_lock_hash, host::cell_data, r),
{
    let args = match host::script_args() {
        Ok(args) => args,
        Err(signal) => {
            return Err(Error::Environment(signal));
        },
    };
    let r = validate_with(args.as_slice(), &host::cell_lock_hash, &host::cell_data);
    assert(validated(args@, host::cell_lock_hash, host::cell_data, r));
    r
}

} // verus!
