//! Conservation accounting: the total of the amounts that the cells of one group hold.

use vstd::prelude::*;
use crate::amount::{decode_amount, le_value, AMOUNT_BYTES};
use crate::error::{Error, Signal};
use crate::host;
use crate::source::Source;

verus! {

/// What the host answers when asked for a cell's data.
pub type DataAnswer = Result<Vec<u8>, Signal>;

/// Where an addition of amounts stands.
#[derive(Clone, Copy, Debug, PartialEq, Eq)]
pub enum Tally {
    /// The total so far; the cell at the next index has to be asked for.
    Open(u128),
    /// The addition is over, with the group's total or with an error.
    Closed(Result<u128, Error>),
}

/// What one answer makes of the total so far. A cell of 16 bytes adds its
/// amount, and closes the addition with an encoding error where the sum leaves
/// 128 bits; data of another length closes it with an encoding error; the end of
/// the cells closes it with the total; any other signal closes it with that
/// signal as the error.
pub open spec fn tally_step(total: u128, answer: DataAnswer) -> Tally {
    match answer {
        Ok(data) => if data@.len() == AMOUNT_BYTES && total + le_value(data@) <= u128::MAX {
            Tally::Open((total + le_value(data@)) as u128)
        } else {
            Tally::Closed(Err(Error::Encoding))
        },
        Err(Signal::IndexOutOfBound) => Tally::Closed(Ok(total)),
        Err(signal) => Tally::Closed(Err(Error::Environment(signal))),
    }
}

/// Where the addition stands after `answers`, taken in order from a total of 0.
/// Once closed it stays as it is.
pub open spec fn tally(answers: Seq<DataAnswer>) -> Tally
    decreases answers.len(),
{
    if answers.len() == 0 {
        Tally::Open(0)
    } else {
        match tally(answers.drop_last()) {
            Tally::Open(total) => tally_step(total, answers.last()),
            closed => closed,
        }
    }
}

/// `answers[i]` is an answer that `data_at` can give for index `i` in `source`.
pub open spec fn data_answers<D: Fn(usize, Source) -> DataAnswer>(
    data_at: D,
    source: Source,
    answers: Seq<DataAnswer>,
) -> bool {
    forall|i: int|
        0 <= i < answers.len() ==> call_ensures(data_at, (i as usize, source), #[trigger] answers[i])
}

/// `answers` is all that one addition reads, index by index from 0: the addition
/// was open before the last answer, and the last one closes it, unless it is the
/// answer for the last index that there is.
pub open spec fn amount_scan(answers: Seq<DataAnswer>) -> bool {
    &&& answers.len() <= usize::MAX
    &&& answers.len() > 0 ==> tally(answers.drop_last()) is Open
    &&& answers.len() < usize::MAX ==> tally(answers) is Closed
}

/// What an addition that read `answers` returns: what it was closed with, and
/// the total so far where the indices ran out first.
pub open spec fn amount_result(answers: Seq<DataAnswer>) -> Result<u128, Error> {
    match tally(answers) {
        Tally::Open(total) => Ok(total),
        Tally::Closed(r) => r,
    }
}

/// One addition over `source` against `data_at` read `answers` and returned `r`.
pub open spec fn amount_run<D: Fn(usize, Source) -> DataAnswer>(
    source: Source,
    data_at: D,
    answers: Seq<DataAnswer>,
    r: Result<u128, Error>,
) -> bool {
    &&& data_answers(data_at, source, answers)
    &&& amount_scan(answers)
    &&& r == amount_result(answers)
}

/// `r` is a result of adding up `source` against `data_at`: there are answers of
/// `data_at`, for the indices from 0 on in `source`, that make up one addition
/// and give `r`.
pub open spec fn amount_collected<D: Fn(usize, Source) -> DataAnswer>(
    source: Source,
    data_at: D,
    r: Result<u128, Error>,
) -> bool {
    exists|answers: Seq<DataAnswer>| #[trigger] amount_run(source, data_at, answers, r)
}

/// `data_at` answers for `source` as a host does that holds there the cells with
/// the data `cells`, and no others.
pub open spec fn holds_data<D: Fn(usize, Source) -> DataAnswer>(
    data_at: D,
    source: Source,
    cells: Seq<Seq<u8>>,
) -> bool {
    &&& cells.len() < usize::MAX
    &&& forall|i: usize, answer: DataAnswer| #[trigger]
        call_ensures(data_at, (i, source), answer) ==> if i < cells.len() {
            answer is Ok && answer->Ok_0@ == cells[i as int]
        } else {
            answer == Err::<Vec<u8>, Signal>(Signal::IndexOutOfBound)
        }
}

/// Every cell's data is 16 bytes long.
pub open spec fn well_formed(cells: Seq<Seq<u8>>) -> bool {
    forall|i: int| 0 <= i < cells.len() ==> (#[trigger] cells[i]).len() == AMOUNT_BYTES
}

/// The sum of the numbers that the cells' data spell.
pub open spec fn total_of(cells: Seq<Seq<u8>>) -> nat
    decreases cells.len(),
{
    if cells.len() == 0 {
        0
    } else {
        total_of(cells.drop_last()) + le_value(cells.last())
    }
}

/// What adding up a group of `cells` gives: their total, where each holds 16
/// bytes and the total fits in 128 bits, and an encoding error otherwise.
pub open spec fn collected(cells: Seq<Seq<u8>>) -> Result<u128, Error> {
    if well_formed(cells) && total_of(cells) <= u128::MAX {
        Ok(total_of(cells) as u128)
    } else {
        Err(Error::Encoding)
    }
}

/// Takes one answer of the host into the total so far.
pub fn amount_step(total: u128, answer: &DataAnswer) -> (r: Tally)
    ensures
        r == tally_step(total, *answer),
{
    match answer {
        Ok(data) => match decode_amount(data.as_slice()) {
            Ok(amount) => match total.checked_add(amount) {
                Some(sum) => Tally::Open(sum),
                None => Tally::Closed(Err(Error::Encoding)),
            },
            Err(err) => Tally::Closed(Err(err)),
        },
        Err(Signal::IndexOutOfBound) => Tally::Closed(Ok(total)),
        Err(signal) => Tally::Closed(Err(Error::Environment(*signal))),
    }
}

/// The total of the first cells of a group is at most the total of all.
pub proof fn total_of_prefix(cells: Seq<Seq<u8>>, k: int)
    requires
        0 <= k <= cells.len(),
    ensures
        total_of(cells.take(k)) <= total_of(cells),
    decreases cells.len(),
{
    if k == cells.len() {
        assert(cells.take(k) =~= cells);
    } else {
        total_of_prefix(cells.drop_last(), k);
        assert(cells.drop_last().take(k) =~= cells.take(k));
    }
}

/// An addition that is closed after the first `j` answers stands the same after
/// any more of them.
pub proof fn tally_stays_closed(answers: Seq<DataAnswer>, j: int, k: int)
    requires
        0 <= j <= k <= answers.len(),
        tally(answers.take(j)) is Closed,
    ensures
        tally(answers.take(k)) == tally(answers.take(j)),
    decreases k - j,
{
    if j < k {
        tally_stays_closed(answers, j, k - 1);
        assert(answers.take(k).drop_last() =~= answers.take(k - 1));
    }
}

/// `answers` are the first answers of a host that holds `cells`.
pub open spec fn answers_of_cells(answers: Seq<DataAnswer>, cells: Seq<Seq<u8>>) -> bool {
    forall|i: int|
        0 <= i < answers.len() ==> if i < cells.len() {
            (#[trigger] answers[i]) is Ok && answers[i]->Ok_0@ == cells[i]
        } else {
            answers[i] == Err::<Vec<u8>, Signal>(Signal::IndexOutOfBound)
        }
}

/// Over the first `k` cells of a group the addition stands where the cells
/// themselves put it.
pub proof fn tally_of_cells(answers: Seq<DataAnswer>, cells: Seq<Seq<u8>>, k: int)
    requires
        answers_of_cells(answers, cells),
        0 <= k <= answers.len(),
        k <= cells.len(),
    ensures
        tally(answers.take(k)) == match collected(cells.take(k)) {
            Ok(total) => Tally::Open(total),
            Err(err) => Tally::Closed(Err(err)),
        },
    decreases k,
{
    if k > 0 {
        tally_of_cells(answers, cells, k - 1);
        assert(answers.take(k).drop_last() =~= answers.take(k - 1));
        assert(answers.take(k).last() == answers[k - 1]);
        assert(cells.take(k).drop_last() =~= cells.take(k - 1));
        assert(cells.take(k).last() == cells[k - 1]);
        if well_formed(cells.take(k)) {
            assert forall|i: int| 0 <= i < k - 1 implies (#[trigger] cells.take(k - 1)[i]).len()
                == AMOUNT_BYTES by {
                assert(cells.take(k)[i].len() == AMOUNT_BYTES);
            }
            assert(cells.take(k)[k - 1].len() == AMOUNT_BYTES);
        } else if well_formed(cells.take(k - 1)) {
            if cells[k - 1].len() == AMOUNT_BYTES {
                assert forall|i: int| 0 <= i < k implies (#[trigger] cells.take(k)[i]).len()
                    == AMOUNT_BYTES by {
                    if i < k - 1 {
                        assert(cells.take(k - 1)[i].len() == AMOUNT_BYTES);
                    }
                }
            }
        }
    } else {
        assert(answers.take(0) =~= Seq::<DataAnswer>::empty());
        assert(cells.take(0) =~= Seq::<Seq<u8>>::empty());
    }
}

/// A group that adds up has first cells that add up.
pub proof fn collected_prefix(cells: Seq<Seq<u8>>, k: int)
    requires
        0 <= k <= cells.len(),
        collected(cells) is Ok,
    ensures
        collected(cells.take(k)) is Ok,
{
    total_of_prefix(cells, k);
    assert forall|i: int| 0 <= i < k implies (#[trigger] cells.take(k)[i]).len() == AMOUNT_BYTES by {
        assert(cells[i].len() == AMOUNT_BYTES);
    }
}

/// Where a host holds a group of `cells`, an addition over it returns what the
/// cells add up to. Where they add up, it reads each cell once and then the end
/// signal, and nothing after that; where they do not, it reads no further than
/// the last cell.
pub proof fn amount_run_on_cells<D: Fn(usize, Source) -> DataAnswer>(
    source: Source,
    data_at: D,
    cells: Seq<Seq<u8>>,
    answers: Seq<DataAnswer>,
    r: Result<u128, Error>,
)
    requires
        holds_data(data_at, source, cells),
        amount_run(source, data_at, answers, r),
    ensures
        r == collected(cells),
        answers_of_cells(answers, cells),
        collected(cells) is Ok ==> answers.len() == cells.len() + 1,
        collected(cells) is Err ==> 0 < answers.len() <= cells.len(),
{
    let n = answers.len() as int;
    let m = cells.len() as int;
    assert forall|i: int| 0 <= i < n implies (if i < cells.len() {
        (#[trigger] answers[i]) is Ok && answers[i]->Ok_0@ == cells[i]
    } else {
        answers[i] == Err::<Vec<u8>, Signal>(Signal::IndexOutOfBound)
    }) by {
        assert(call_ensures(data_at, (i as usize, source), answers[i]));
    }
    assert(answers.take(n) =~= answers);
    assert(cells.take(m) =~= cells);
    if n <= m {
        tally_of_cells(answers, cells, n);
        if collected(cells) is Ok {
            collected_prefix(cells, n);
        }
    } else {
        tally_of_cells(answers, cells, m);
        assert(answers.drop_last() =~= answers.take(n - 1));
        if collected(cells) is Err {
            tally_stays_closed(answers, m, n - 1);
        } else {
            assert(answers.take(m + 1).drop_last() =~= answers.take(m));
            assert(answers.take(m + 1).last() == answers[m]);
            assert(tally(answers.take(m + 1)) is Closed);
            if n > m + 1 {
                tally_stays_closed(answers, m + 1, n - 1);
            }
        }
    }
}

/// `data_at` has one answer for each index in `source`: asked twice, it gives the
/// same signal or the same bytes.
pub open spec fn fixed_data<D: Fn(usize, Source) -> DataAnswer>(data_at: D, source: Source) -> bool {
    forall|i: usize, first: DataAnswer, second: DataAnswer|
        #![trigger call_ensures(data_at, (i, source), first), call_ensures(data_at, (i, source), second)]
        call_ensures(data_at, (i, source), first) && call_ensures(data_at, (i, source), second)
            ==> match first {
            Ok(data) => second is Ok && second->Ok_0@ == data@,
            Err(signal) => second == Err::<Vec<u8>, Signal>(signal),
        }
}

/// `first` and `second` agree, answer by answer, as far as both go.
pub open spec fn same_answers(first: Seq<DataAnswer>, second: Seq<DataAnswer>) -> bool {
    forall|i: int|
        0 <= i < first.len() && i < second.len() ==> match #[trigger] first[i] {
            Ok(data) => second[i] is Ok && second[i]->Ok_0@ == data@,
            Err(signal) => second[i] == Err::<Vec<u8>, Signal>(signal),
        }
}

/// Over answers that agree, two additions stand at the same place.
pub proof fn tally_of_same_answers(first: Seq<DataAnswer>, second: Seq<DataAnswer>, k: int)
    requires
        same_answers(first, second),
        0 <= k <= first.len(),
        k <= second.len(),
    ensures
        tally(first.take(k)) == tally(second.take(k)),
    decreases k,
{
    if k > 0 {
        tally_of_same_answers(first, second, k - 1);
        assert(first.take(k).drop_last() =~= first.take(k - 1));
        assert(second.take(k).drop_last() =~= second.take(k - 1));
        assert(first.take(k).last() == first[k - 1]);
        assert(second.take(k).last() == second[k - 1]);
    } else {
        assert(first.take(0) =~= second.take(0));
    }
}

/// Two additions over the same group against a host whose answers are fixed read
/// the same number of answers and return the same.
pub proof fn amount_run_repeats<D: Fn(usize, Source) -> DataAnswer>(
    source: Source,
    data_at: D,
    first_answers: Seq<DataAnswer>,
    first: Result<u128, Error>,
    second_answers: Seq<DataAnswer>,
    second: Result<u128, Error>,
)
    requires
        fixed_data(data_at, source),
        amount_run(source, data_at, first_answers, first),
        amount_run(source, data_at, second_answers, second),
    ensures
        first_answers.len() == second_answers.len(),
        first == second,
{
    let n = first_answers.len() as int;
    let m = second_answers.len() as int;
    assert forall|i: int| 0 <= i < n && i < m implies match #[trigger] first_answers[i] {
        Ok(data) => second_answers[i] is Ok && second_answers[i]->Ok_0@ == data@,
        Err(signal) => second_answers[i] == Err::<Vec<u8>, Signal>(signal),
    } by {
        assert(call_ensures(data_at, (i as usize, source), first_answers[i]));
        assert(call_ensures(data_at, (i as usize, source), second_answers[i]));
    }
    assert(first_answers.take(n) =~= first_answers);
    assert(second_answers.take(m) =~= second_answers);
    assert(first_answers.drop_last() =~= first_answers.take(n - 1));
    assert(second_answers.drop_last() =~= second_answers.take(m - 1));
    if n < m {
        tally_of_same_answers(first_answers, second_answers, n);
        tally_stays_closed(second_answers, n, m - 1);
    } else if m < n {
        tally_of_same_answers(first_answers, second_answers, m);
        tally_stays_closed(first_answers, m, n - 1);
    } else {
        tally_of_same_answers(first_answers, second_answers, n);
    }
}

/// Adds up the amounts of the cells in `source`, asking `data_at` for the data at
/// index 0, 1, 2 and so on. The end of the cells ends the addition with the total.
/// Data that is not 16 bytes long, or a total that leaves 128 bits, ends it with
/// an encoding error, and any other signal ends it with that signal as the error.
/// No index from `usize::MAX` on is asked for: cells without end are added up to
/// there.
///
/// The result is that of one addition over answers of `data_at`. Where `data_at`
/// answers as a host that holds the cells `cells`, it is what they add up to.
pub fn collect_amount_with<D: Fn(usize, Source) -> DataAnswer>(source: Source, data_at: &D) -> (r:
    Result<u128, Error>)
    requires
        forall|i: usize| call_requires(*data_at, (i, source)),
    ensures
        amount_collected(source, *data_at, r),
        forall|cells: Seq<Seq<u8>>| #[trigger]
            holds_data(*data_at, source, cells) ==> r == collected(cells),
{
    let ghost mut answers: Seq<DataAnswer> = Seq::empty();
    let mut index: usize = 0;
    let mut total: u128 = 0;
    let mut sum: Result<u128, Error> = Ok(0);
    while index < usize::MAX
        invariant_except_break
            answers.len() == index,
            tally(answers) == Tally::Open(total),
            sum == Ok::<u128, Error>(total),
        invariant
            data_answers(*data_at, source, answers),
            forall|i: usize| call_requires(*data_at, (i, source)),
        ensures
            amount_run(source, *data_at, answers, sum),
        decreases usize::MAX - index,
    {
        let answer = data_at(index, source);
        proof {
            assert(answers.push(answer).drop_last() =~= answers);
            answers = answers.push(answer);
        }
        match amount_step(total, &answer) {
            Tally::Open(next) => {
                total = next;
            },
            Tally::Closed(closed) => {
                sum = closed;
                break ;
            },
        }
        index += 1;
        sum = Ok(total);
    }
    proof {
        assert forall|cells: Seq<Seq<u8>>| #[trigger]
            holds_data(*data_at, source, cells) implies sum == collected(cells) by {
            amount_run_on_cells(source, *data_at, cells, answers, sum);
        }
    }
    sum
}

/// Adds up the amounts of the cells that the host holds in `source`. Whatever the
/// host answers, the result is that of one addition over its answers.
pub fn collect_amount(source: Source) -> (r: Result<u128, Error>)
    ensures
        amount_collected(source, host::cell_data, r),
{
    collect_amount_with(source, &host::cell_data)
}

} // verus!
