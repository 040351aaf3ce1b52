//! What holds of every validation.

use vstd::prelude::*;
use crate::accounting::{
    amount_collected, amount_run, amount_run_on_cells, amount_run_repeats, collected, fixed_data,
    holds_data, total_of, well_formed, DataAnswer,
};
use crate::error::{Error, Signal};
use crate::owner::{
    fixed_locks, holds_locks, owner_checked, owner_present, owner_run, owner_run_on_cells,
    owner_run_repeats, LockAnswer,
};
use crate::source::Source;
use crate::validator::{validated, validation, verdict};

verus! {

/// Conservation: a transaction whose cells all hold amounts of 16 bytes is
/// accepted where its inputs hold at least what its outputs hold, as long as
/// the inputs' total fits in 128 bits.
pub proof fn conservation_accepts(
    args: Seq<u8>,
    locks: Seq<Seq<u8>>,
    inputs: Seq<Seq<u8>>,
    outputs: Seq<Seq<u8>>,
)
    requires
        well_formed(inputs),
        well_formed(outputs),
        total_of(inputs) >= total_of(outputs),
        total_of(inputs) <= u128::MAX,
    ensures
        verdict(args, locks, inputs, outputs) == Ok::<(), Error>(()),
{
}

/// Rejection: a transaction whose cells all hold amounts of 16 bytes, and in
/// which the owner takes no part, is rejected for want of amount where its
/// outputs hold more than its inputs, as long as the outputs' total fits in 128
/// bits.
pub proof fn growth_is_rejected(
    args: Seq<u8>,
    locks: Seq<Seq<u8>>,
    inputs: Seq<Seq<u8>>,
    outputs: Seq<Seq<u8>>,
)
    requires
        !owner_present(args, locks),
        well_formed(inputs),
        well_formed(outputs),
        total_of(inputs) < total_of(outputs),
        total_of(outputs) <= u128::MAX,
    ensures
        verdict(args, locks, inputs, outputs) == Err::<(), Error>(Error::InsufficientAmount),
{
}

/// Owner override: a transaction in which the owner takes part is accepted,
/// whatever its cells hold.
pub proof fn owner_is_accepted(
    args: Seq<u8>,
    locks: Seq<Seq<u8>>,
    inputs: Seq<Seq<u8>>,
    outputs: Seq<Seq<u8>>,
)
    requires
        owner_present(args, locks),
    ensures
        verdict(args, locks, inputs, outputs) == Ok::<(), Error>(()),
{
}

/// Owner override, for any host: where the spent cells hold the owner's lock, a
/// validation accepts whatever the host answers when asked for data.
pub proof fn owner_is_accepted_unread<
    L: Fn(usize, Source) -> LockAnswer,
    D: Fn(usize, Source) -> DataAnswer,
>(args: Seq<u8>, lock_at: L, data_at: D, locks: Seq<Seq<u8>>, r: Result<(), Error>)
    requires
        validated(args, lock_at, data_at, r),
        holds_locks(lock_at, Source::Input, locks),
        owner_present(args, locks),
    ensures
        r == Ok::<(), Error>(()),
{
    let (owner, inputs, outputs) = choose|
        owner: Result<bool, Error>,
        inputs: Result<u128, Error>,
        outputs: Result<u128, Error>,
    | #[trigger] validation(args, lock_at, data_at, owner, inputs, outputs, r);
    let answers = choose|answers: Seq<LockAnswer>| #[trigger]
        owner_run(args, lock_at, answers, owner);
    owner_run_on_cells(args, lock_at, locks, answers, owner);
}

/// Encoding strictness: where the owner takes no part, a cell among the script's
/// inputs or outputs whose data is not 16 bytes long has the transaction rejected
/// with an encoding error, whatever the amounts are.
pub proof fn malformed_is_rejected(
    args: Seq<u8>,
    locks: Seq<Seq<u8>>,
    inputs: Seq<Seq<u8>>,
    outputs: Seq<Seq<u8>>,
)
    requires
        !owner_present(args, locks),
        !well_formed(inputs) || !well_formed(outputs),
    ensures
        verdict(args, locks, inputs, outputs) == Err::<(), Error>(Error::Encoding),
{
}

/// Termination of the addition: over a group of n cells that add up, it reads
/// the n cells in order, then the end signal once, and nothing more.
pub proof fn addition_reads_group_once<D: Fn(usize, Source) -> DataAnswer>(
    source: Source,
    data_at: D,
    cells: Seq<Seq<u8>>,
    answers: Seq<DataAnswer>,
    r: Result<u128, Error>,
)
    requires
        holds_data(data_at, source, cells),
        amount_run(source, data_at, answers, r),
        collected(cells) is Ok,
    ensures
        answers.len() == cells.len() + 1,
        forall|i: int|
            0 <= i < cells.len() ==> (#[trigger] answers[i]) is Ok && answers[i]->Ok_0@ == cells[i],
        answers.last() == Err::<Vec<u8>, Signal>(Signal::IndexOutOfBound),
{
    amount_run_on_cells(source, data_at, cells, answers, r);
}

/// Termination of the owner check: over n spent cells of which the owner locks
/// none, it reads the n cells in order, then the end signal once, and nothing
/// more.
pub proof fn owner_check_reads_cells_once<L: Fn(usize, Source) -> LockAnswer>(
    args: Seq<u8>,
    lock_at: L,
    locks: Seq<Seq<u8>>,
    answers: Seq<LockAnswer>,
    r: Result<bool, Error>,
)
    requires
        holds_locks(lock_at, Source::Input, locks),
        owner_run(args, lock_at, answers, r),
        !owner_present(args, locks),
    ensures
        answers.len() == locks.len() + 1,
        forall|i: int|
            0 <= i < locks.len() ==> (#[trigger] answers[i]) is Ok && answers[i]->Ok_0@ == locks[i],
        answers.last() == Err::<[u8; 32], Signal>(Signal::IndexOutOfBound),
{
    owner_run_on_cells(args, lock_at, locks, answers, r);
    assert forall|i: int| 0 <= i < answers.len() implies (if i < locks.len() {
        (#[trigger] answers[i]) is Ok && answers[i]->Ok_0@ == locks[i]
    } else {
        answers[i] == Err::<[u8; 32], Signal>(Signal::IndexOutOfBound)
    }) by {
        assert(call_ensures(lock_at, (i as usize, Source::Input), answers[i]));
    }
}

/// Idempotence: against a host whose answers are fixed, two validations return
/// the same.
pub proof fn validation_repeats<
    L: Fn(usize, Source) -> LockAnswer,
    D: Fn(usize, Source) -> DataAnswer,
>(args: Seq<u8>, lock_at: L, data_at: D, first: Result<(), Error>, second: Result<(), Error>)
    requires
        fixed_locks(lock_at, Source::Input),
        fixed_data(data_at, Source::GroupInput),
        fixed_data(data_at, Source::GroupOutput),
        validated(args, lock_at, data_at, first),
        validated(args, lock_at, data_at, second),
    ensures
        first == second,
{
    let (owner1, inputs1, outputs1) = choose|
        owner: Result<bool, Error>,
        inputs: Result<u128, Error>,
        outputs: Result<u128, Error>,
    | #[trigger] validation(args, lock_at, data_at, owner, inputs, outputs, first);
    let (owner2, inputs2, outputs2) = choose|
        owner: Result<bool, Error>,
        inputs: Result<u128, Error>,
        outputs: Result<u128, Error>,
    | #[trigger] validation(args, lock_at, data_at, owner, inputs, outputs, second);
    owner_check_repeats(args, lock_at, owner1, owner2);
    if owner1 == Ok::<bool, Error>(false) {
        addition_repeats(Source::GroupInput, data_at, inputs1, inputs2);
        if inputs1 is Ok {
            addition_repeats(Source::GroupOutput, data_at, outputs1, outputs2);
        }
    }
}

/// Against a host whose answers are fixed, two owner checks return the same.
pub proof fn owner_check_repeats<L: Fn(usize, Source) -> LockAnswer>(
    args: Seq<u8>,
    lock_at: L,
    first: Result<bool, Error>,
    second: Result<bool, Error>,
)
    requires
        fixed_locks(lock_at, Source::Input),
        owner_checked(args, lock_at, first),
        owner_checked(args, lock_at, second),
    ensures
        first == second,
{
    let first_answers = choose|answers: Seq<LockAnswer>| #[trigger]
        owner_run(args, lock_at, answers, first);
    let second_answers = choose|answers: Seq<LockAnswer>| #[trigger]
        owner_run(args, lock_at, answers, second);
    owner_run_repeats(args, lock_at, first_answers, first, second_answers, second);
}

/// Against a host whose answers are fixed, two additions over one group return
/// the same.
pub proof fn addition_repeats<D: Fn(usize, Source) -> DataAnswer>(
    source: Source,
    data_at: D,
    first: Result<u128, Error>,
    second: Result<u128, Error>,
)
    requires
        fixed_data(data_at, source),
        amount_collected(source, data_at, first),
        amount_collected(source, data_at, second),
    ensures
        first == second,
{
    let first_answers = choose|answers: Seq<DataAnswer>| #[trigger]
        amount_run(source, data_at, answers, first);
    let second_answers = choose|answers: Seq<DataAnswer>| #[trigger]
        amount_run(source, data_at, answers, second);
    amount_run_repeats(source, data_at, first_answers, first, second_answers, second);
}

} // verus!
