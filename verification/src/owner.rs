//! The authorization check: does the token's owner take part in the transaction?
//!
//! The owner does when one of the cells that the transaction spends is locked by
//! the lock whose hash the script's arguments spell.

use vstd::prelude::*;
use crate::error::{Error, Signal};
use crate::host;
use crate::source::Source;

verus! {

/// What the host answers when asked for a cell's lock hash.
pub type LockAnswer = Result<[u8; 32], Signal>;

/// What one answer settles: `Some` result that ends the check, or `None` where
/// the cell at the next index has to be asked for.
pub open spec fn owner_verdict(args: Seq<u8>, answer: LockAnswer) -> Option<Result<bool, Error>> {
    match answer {
        Ok(lock) => if lock@ == args {
            Some(Ok(true))
        } else {
            None
        },
        Err(Signal::IndexOutOfBound) => Some(Ok(false)),
        Err(signal) => Some(Err(Error::Environment(signal))),
    }
}

/// `answers[i]` is an answer that `lock_at` can give for index `i` in `source`.
pub open spec fn lock_answers<L: Fn(usize, Source) -> LockAnswer>(
    lock_at: L,
    source: Source,
    answers: Seq<LockAnswer>,
) -> bool {
    forall|i: int|
        0 <= i < answers.len() ==> call_ensures(lock_at, (i as usize, source), #[trigger] answers[i])
}

/// `answers` is all that one check reads, index by index from 0: every answer but
/// the last left the check open, and the last one settles it, unless it is the
/// answer for the last index that there is.
pub open spec fn owner_scan(args: Seq<u8>, answers: Seq<LockAnswer>) -> bool {
    &&& answers.len() <= usize::MAX
    &&& forall|i: int| 0 <= i < answers.len() - 1 ==> owner_verdict(args, #[trigger] answers[i]) is None
    &&& answers.len() < usize::MAX ==> answers.len() > 0 && owner_verdict(args, answers.last()) is Some
}

/// What a check that read `answers` returns: what the last answer settles, and
/// "no owner" where the indices ran out first.
pub open spec fn owner_result(args: Seq<u8>, answers: Seq<LockAnswer>) -> Result<bool, Error> {
    if answers.len() > 0 && owner_verdict(args, answers.last()) is Some {
        owner_verdict(args, answers.last())->Some_0
    } else {
        Ok(false)
    }
}

/// One run of the check against `lock_at` read `answers` and returned `r`.
pub open spec fn owner_run<L: Fn(usize, Source) -> LockAnswer>(
    args: Seq<u8>,
    lock_at: L,
    answers: Seq<LockAnswer>,
    r: Result<bool, Error>,
) -> bool {
    &&& lock_answers(lock_at, Source::Input, answers)
    &&& owner_scan(args, answers)
    &&& r == owner_result(args, answers)
}

/// `r` is a result of the check against `lock_at`: there are answers of
/// `lock_at`, for the indices from 0 on among the spent cells, that make up one
/// run and give `r`.
pub open spec fn owner_checked<L: Fn(usize, Source) -> LockAnswer>(
    args: Seq<u8>,
    lock_at: L,
    r: Result<bool, Error>,
) -> bool {
    exists|answers: Seq<LockAnswer>| #[trigger] owner_run(args, lock_at, answers, r)
}

/// `lock_at` answers for `source` as a host does that holds there the cells with
/// the lock hashes `locks`, and no others.
pub open spec fn holds_locks<L: Fn(usize, Source) -> LockAnswer>(
    lock_at: L,
    source: Source,
    locks: Seq<Seq<u8>>,
) -> bool {
    &&& locks.len() < usize::MAX
    &&& forall|i: usize, answer: LockAnswer| #[trigger]
        call_ensures(lock_at, (i, source), answer) ==> if i < locks.len() {
            answer is Ok && answer->Ok_0@ == locks[i as int]
        } else {
            answer == Err::<[u8; 32], Signal>(Signal::IndexOutOfBound)
        }
}

/// One of `locks` is `args`, byte for byte.
pub open spec fn owner_present(args: Seq<u8>, locks: Seq<Seq<u8>>) -> bool {
    exists|i: int| 0 <= i < locks.len() && #[trigger] locks[i] == args
}

/// Whether `args` and `lock` hold the same bytes.
pub fn same_bytes(args: &[u8], lock: &[u8; 32]) -> (r: bool)
    ensures
        r == (args@ == lock@),
{
    if args.len() != 32 {
        return false;
    }
    let mut i: usize = 0;
    while i < 32
        invariant
            i <= 32,
            args@.len() == 32,
            lock@.len() == 32,
            forall|k: int| 0 <= k < i ==> args@[k] == lock@[k],
        decreases 32 - i,
    {
        if args[i] != lock[i] {
            return false;
        }
        i += 1;
    }
    assert(args@ =~= lock@);
    true
}

/// What the check does with one answer of the host: a lock hash equal to `args`
/// ends it with `true`, another lock hash leaves it open, the end of the cells
/// ends it with `false`, and any other signal ends it with that signal as the
/// error.
pub fn owner_step(args: &[u8], answer: &LockAnswer) -> (r: Option<Result<bool, Error>>)
    ensures
        r == owner_verdict(args@, *answer),
{
    match answer {
        Ok(lock) => {
            if same_bytes(args, lock) {
                Some(Ok(true))
            } else {
                None
            }
        },
        Err(Signal::IndexOutOfBound) => Some(Ok(false)),
        Err(signal) => Some(Err(Error::Environment(*signal))),
    }
}

/// Where a host holds the spent cells with the lock hashes `locks`, a run of the
/// check reads the cells up to the first one that `args` locks, or all of them
/// and the end signal, and nothing after that.
pub proof fn owner_run_on_cells<L: Fn(usize, Source) -> LockAnswer>(
    args: Seq<u8>,
    lock_at: L,
    locks: Seq<Seq<u8>>,
    answers: Seq<LockAnswer>,
    r: Result<bool, Error>,
)
    requires
        holds_locks(lock_at, Source::Input, locks),
        owner_run(args, lock_at, answers, r),
    ensures
        r == Ok::<bool, Error>(owner_present(args, locks)),
        owner_present(args, locks) ==> answers.len() <= locks.len() && locks[answers.len() - 1] == args,
        !owner_present(args, locks) ==> answers.len() == locks.len() + 1,
        forall|i: int| 0 <= i < answers.len() - 1 ==> locks[i] != args,
{
    let n = answers.len() as int;
    assert forall|i: int| 0 <= i < n implies (if i < locks.len() {
        (#[trigger] answers[i]) is Ok && answers[i]->Ok_0@ == locks[i]
    } else {
        answers[i] == Err::<[u8; 32], Signal>(Signal::IndexOutOfBound)
    }) by {
        assert(call_ensures(lock_at, (i as usize, Source::Input), answers[i]));
    }
    assert forall|i: int| 0 <= i < n - 1 implies i < locks.len() && locks[i] != args by {
        assert(owner_verdict(args, answers[i]) is None);
    }
    if n > locks.len() + 1 {
        assert(owner_verdict(args, answers[locks.len() as int]) is None);
    }
    assert(n > 0);
    let last = answers[n - 1];
    assert(owner_verdict(args, last) is Some);
    if n == locks.len() + 1 {
        assert(last == Err::<[u8; 32], Signal>(Signal::IndexOutOfBound));
        if owner_present(args, locks) {
            let w = choose|i: int| 0 <= i < locks.len() && #[trigger] locks[i] == args;
            assert(owner_verdict(args, answers[w]) is None);
        }
    } else {
        assert(last is Ok && last->Ok_0@ == locks[n - 1]);
        assert(locks[n - 1] == args);
    }
}

/// `lock_at` has one answer for each index in `source`: asked twice, it gives the
/// same signal or the same bytes.
pub open spec fn fixed_locks<L: Fn(usize, Source) -> LockAnswer>(lock_at: L, source: Source) -> bool {
    forall|i: usize, first: LockAnswer, second: LockAnswer|
        #![trigger call_ensures(lock_at, (i, source), first), call_ensures(lock_at, (i, source), second)]
        call_ensures(lock_at, (i, source), first) && call_ensures(lock_at, (i, source), second)
            ==> match first {
            Ok(lock) => second is Ok && second->Ok_0@ == lock@,
            Err(signal) => second == Err::<[u8; 32], Signal>(signal),
        }
}

/// Two runs of the check against a host whose answers are fixed read the same
/// number of answers and return the same.
pub proof fn owner_run_repeats<L: Fn(usize, Source) -> LockAnswer>(
    args: Seq<u8>,
    lock_at: L,
    first_answers: Seq<LockAnswer>,
    first: Result<bool, Error>,
    second_answers: Seq<LockAnswer>,
    second: Result<bool, Error>,
)
    requires
        fixed_locks(lock_at, Source::Input),
        owner_run(args, lock_at, first_answers, first),
        owner_run(args, lock_at, second_answers, second),
    ensures
        first_answers.len() == second_answers.len(),
        first == second,
{
    let n = first_answers.len() as int;
    let m = second_answers.len() as int;
    assert forall|i: int| 0 <= i < n && i < m implies owner_verdict(args, first_answers[i])
        == owner_verdict(args, second_answers[i]) by {
        assert(call_ensures(lock_at, (i as usize, Source::Input), first_answers[i]));
        assert(call_ensures(lock_at, (i as usize, Source::Input), second_answers[i]));
    }
    if n < m {
        assert(owner_verdict(args, second_answers[n - 1]) is None);
    }
    if m < n {
        assert(owner_verdict(args, first_answers[m - 1]) is None);
    }
}

/// Looks for the owner among the spent cells, asking `lock_at` for the lock hash
/// at index 0, 1, 2 and so on in `Source::Input`. The first lock hash that equals
/// `args` ends the search with `true`, the end of the cells ends it with `false`,
/// and any other signal ends it with that signal as the error. No index from
/// `usize::MAX` on is asked for: cells without end are searched up to there, and
/// the owner is then not among them.
///
/// The result is that of one run over answers of `lock_at`. Where `lock_at`
/// answers as a host that holds the cells `locks`, it says whether one of them is
/// locked by `args`.
pub fn check_owner_mode_with<L: Fn(usize, Source) -> LockAnswer>(args: &[u8], lock_at: &L) -> (r:
    Result<bool, Error>)
    requires
        forall|i: usize| call_requires(*lock_at, (i, Source::Input)),
    ensures
        owner_checked(args@, *lock_at, r),
        forall|locks: Seq<Seq<u8>>| #[trigger]
            holds_locks(*lock_at, Source::Input, locks) ==> r == Ok::<bool, Error>(
                owner_present(args@, locks),
            ),
{
    let ghost mut answers: Seq<LockAnswer> = Seq::empty();
    let mut index: usize = 0;
    let mut found: Result<bool, Error> = Ok(false);
    while index < usize::MAX
        invariant_except_break
            found == Ok::<bool, Error>(false),
            answers.len() == index,
            lock_answers(*lock_at, Source::Input, answers),
            forall|i: int| 0 <= i < answers.len() ==> owner_verdict(args@, #[trigger] answers[i]) is None,
        invariant
            forall|i: usize| call_requires(*lock_at, (i, Source::Input)),
        ensures
            owner_run(args@, *lock_at, answers, found),
        decreases usize::MAX - index,
    {
        let answer = lock_at(index, Source::Input);
        proof {
            answers = answers.push(answer);
        }
        match owner_step(args, &answer) {
            Some(settled) => {
                found = settled;
                break ;
            },
            None => {},
        }
        index += 1;
    }
    proof {
        assert forall|locks: Seq<Seq<u8>>| #[trigger]
            holds_locks(*lock_at, Source::Input, locks) implies found == Ok::<bool, Error>(
            owner_present(args@, locks),
        ) by {
            owner_run_on_cells(args@, *lock_at, locks, answers, found);
        }
    }
    found
}

/// Looks for the owner among the cells that the host says the transaction
/// spends. Whatever the host answers, the result is that of one run of the check
/// over its answers.
pub fn check_owner_mode(args: &[u8]) -> (r: Result<bool, Error>)
    ensures
        owner_checked(args@, host::cell_lock_hash, r),
{
    check_owner_mode_with(args, &host::cell_lock_hash)
}

} // verus!
