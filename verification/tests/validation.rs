use std::cell::Cell;

use sudt::accounting::{amount_step, collect_amount_with, DataAnswer, Tally};
use sudt::error::{Error, Signal};
use sudt::owner::{check_owner_mode_with, owner_step, same_bytes, LockAnswer};
use sudt::source::Source;
use sudt::validator::{decide, validate_with};

fn amount(value: u128) -> Vec<u8> {
    value.to_le_bytes().to_vec()
}

fn hash(byte: u8) -> [u8; 32] {
    [byte; 32]
}

fn locks_of(locks: &[[u8; 32]]) -> impl Fn(usize, Source) -> LockAnswer + '_ {
    move |index, source| match source {
        Source::Input if index < locks.len() => Ok(locks[index]),
        _ => Err(Signal::IndexOutOfBound),
    }
}

fn data_of<'a>(
    inputs: &'a [Vec<u8>],
    outputs: &'a [Vec<u8>],
) -> impl Fn(usize, Source) -> DataAnswer + 'a {
    move |index, source| match source {
        Source::GroupInput if index < inputs.len() => Ok(inputs[index].clone()),
        Source::GroupOutput if index < outputs.len() => Ok(outputs[index].clone()),
        _ => Err(Signal::IndexOutOfBound),
    }
}

fn no_data(_index: usize, _source: Source) -> DataAnswer {
    panic!("no cell data may be read")
}

#[test]
fn test_foo() {
    assert!(true);
}

#[test]
fn owner_is_accepted_without_reading_data() {
    let h1 = hash(0x11);
    let locks = [h1];
    assert_eq!(validate_with(&h1, &locks_of(&locks), &no_data), Ok(()));
}

#[test]
fn equal_amounts_are_accepted() {
    let locks = [hash(0x22)];
    let inputs = [amount(100)];
    let outputs = [amount(100)];
    let r = validate_with(&hash(0x11), &locks_of(&locks), &data_of(&inputs, &outputs));
    assert_eq!(r, Ok(()));
}

#[test]
fn one_more_out_than_in_is_rejected() {
    let locks = [hash(0x22)];
    let inputs = [amount(50)];
    let outputs = [amount(51)];
    let r = validate_with(&hash(0x11), &locks_of(&locks), &data_of(&inputs, &outputs));
    assert_eq!(r, Err(Error::InsufficientAmount));
}

#[test]
fn ten_bytes_of_output_are_an_encoding_error() {
    let locks = [hash(0x22)];
    let inputs = [amount(10)];
    let outputs = [vec![0xabu8; 10]];
    let r = validate_with(&hash(0x11), &locks_of(&locks), &data_of(&inputs, &outputs));
    assert_eq!(r, Err(Error::Encoding));
}

#[test]
fn no_cells_at_all_are_accepted() {
    let r = validate_with(&hash(0x11), &locks_of(&[]), &data_of(&[], &[]));
    assert_eq!(r, Ok(()));
}

#[test]
fn more_in_than_out_is_accepted() {
    let locks = [hash(0x22), hash(0x33)];
    let inputs = [amount(70), amount(30), amount(1)];
    let outputs = [amount(60), amount(40)];
    let r = validate_with(&hash(0x11), &locks_of(&locks), &data_of(&inputs, &outputs));
    assert_eq!(r, Ok(()));
}

#[test]
fn burning_everything_is_accepted() {
    let inputs = [amount(5)];
    let r = validate_with(&hash(0x11), &locks_of(&[]), &data_of(&inputs, &[]));
    assert_eq!(r, Ok(()));
}

#[test]
fn minting_without_the_owner_is_rejected() {
    let locks = [hash(0x22)];
    let outputs = [amount(1)];
    let r = validate_with(&hash(0x11), &locks_of(&locks), &data_of(&[], &outputs));
    assert_eq!(r, Err(Error::InsufficientAmount));
}

#[test]
fn owner_may_mint_far_more_than_goes_in() {
    let h1 = hash(0x11);
    let locks = [hash(0x22), h1, hash(0x33)];
    let inputs = [amount(1)];
    let outputs = [amount(u128::MAX), amount(u128::MAX)];
    let r = validate_with(&h1, &locks_of(&locks), &data_of(&inputs, &outputs));
    assert_eq!(r, Ok(()));
}

#[test]
fn owner_is_accepted_over_malformed_cells() {
    let h1 = hash(0x11);
    let locks = [h1];
    let inputs = [vec![1u8, 2, 3]];
    let outputs = [vec![]];
    let r = validate_with(&h1, &locks_of(&locks), &data_of(&inputs, &outputs));
    assert_eq!(r, Ok(()));
}

#[test]
fn malformed_input_is_rejected_though_amounts_would_do() {
    let locks = [hash(0x22)];
    let inputs = [amount(100), vec![0u8; 17]];
    let outputs = [amount(1)];
    let r = validate_with(&hash(0x11), &locks_of(&locks), &data_of(&inputs, &outputs));
    assert_eq!(r, Err(Error::Encoding));
}

#[test]
fn malformed_output_is_rejected_though_amounts_would_do() {
    let locks = [hash(0x22)];
    let inputs = [amount(100)];
    let outputs = [amount(1), vec![0u8; 15]];
    let r = validate_with(&hash(0x11), &locks_of(&locks), &data_of(&inputs, &outputs));
    assert_eq!(r, Err(Error::Encoding));
}

#[test]
fn empty_data_is_an_encoding_error_not_zero() {
    let inputs = [Vec::new()];
    let r = collect_amount_with(Source::GroupInput, &data_of(&inputs, &[]));
    assert_eq!(r, Err(Error::Encoding));
}

#[test]
fn args_of_another_length_never_match() {
    let h1 = hash(0x11);
    let locks = [h1];
    assert_eq!(check_owner_mode_with(&h1[..31], &locks_of(&locks)), Ok(false));
    assert_eq!(check_owner_mode_with(&[], &locks_of(&locks)), Ok(false));
    let mut longer = h1.to_vec();
    longer.push(0x11);
    assert_eq!(check_owner_mode_with(&longer, &locks_of(&locks)), Ok(false));
    assert_eq!(check_owner_mode_with(&h1, &locks_of(&locks)), Ok(true));
}

#[test]
fn owner_is_found_at_any_index() {
    let h1 = hash(0x11);
    let mut other = h1;
    other[31] = 0x12;
    assert_eq!(check_owner_mode_with(&h1, &locks_of(&[other, other, h1])), Ok(true));
    assert_eq!(check_owner_mode_with(&h1, &locks_of(&[other, other])), Ok(false));
    assert_eq!(check_owner_mode_with(&h1, &locks_of(&[])), Ok(false));
}

#[test]
fn owner_search_asks_only_for_spent_cells() {
    let h1 = hash(0x11);
    let lock_at = |_index: usize, source: Source| -> LockAnswer {
        match source {
            Source::Input => Err(Signal::IndexOutOfBound),
            _ => Ok(h1),
        }
    };
    assert_eq!(check_owner_mode_with(&h1, &lock_at), Ok(false));
}

#[test]
fn owner_search_stops_at_the_first_match() {
    let h1 = hash(0x11);
    let asked = Cell::new(0usize);
    let lock_at = |index: usize, _source: Source| -> LockAnswer {
        assert_eq!(index, asked.get());
        asked.set(asked.get() + 1);
        if index == 2 {
            Ok(h1)
        } else {
            Ok(hash(0x22))
        }
    };
    assert_eq!(check_owner_mode_with(&h1, &lock_at), Ok(true));
    assert_eq!(asked.get(), 3);
}

#[test]
fn owner_search_reads_each_cell_and_one_end_signal() {
    let locks = [hash(0x22), hash(0x33), hash(0x44), hash(0x55)];
    let cells = Cell::new(0usize);
    let ends = Cell::new(0usize);
    let lock_at = |index: usize, _source: Source| -> LockAnswer {
        if index < locks.len() {
            assert_eq!(index, cells.get());
            cells.set(cells.get() + 1);
            Ok(locks[index])
        } else {
            assert_eq!(index, locks.len());
            ends.set(ends.get() + 1);
            Err(Signal::IndexOutOfBound)
        }
    };
    assert_eq!(check_owner_mode_with(&hash(0x11), &lock_at), Ok(false));
    assert_eq!(cells.get(), 4);
    assert_eq!(ends.get(), 1);
}

#[test]
fn addition_reads_each_cell_and_one_end_signal() {
    let group = [amount(1), amount(2), amount(3)];
    let cells = Cell::new(0usize);
    let ends = Cell::new(0usize);
    let data_at = |index: usize, source: Source| -> DataAnswer {
        assert_eq!(source, Source::GroupOutput);
        if index < group.len() {
            assert_eq!(index, cells.get());
            cells.set(cells.get() + 1);
            Ok(group[index].clone())
        } else {
            assert_eq!(index, group.len());
            ends.set(ends.get() + 1);
            Err(Signal::IndexOutOfBound)
        }
    };
    assert_eq!(collect_amount_with(Source::GroupOutput, &data_at), Ok(6));
    assert_eq!(cells.get(), 3);
    assert_eq!(ends.get(), 1);
}

#[test]
fn addition_of_an_empty_group_reads_one_end_signal() {
    let asked = Cell::new(0usize);
    let data_at = |index: usize, _source: Source| -> DataAnswer {
        assert_eq!(index, 0);
        asked.set(asked.get() + 1);
        Err(Signal::IndexOutOfBound)
    };
    assert_eq!(collect_amount_with(Source::GroupInput, &data_at), Ok(0));
    assert_eq!(asked.get(), 1);
}

#[test]
fn addition_stops_at_the_malformed_cell() {
    let group = [amount(1), vec![0u8; 4], amount(3)];
    let asked = Cell::new(0usize);
    let data_at = |index: usize, _source: Source| -> DataAnswer {
        asked.set(asked.get() + 1);
        if index < group.len() {
            Ok(group[index].clone())
        } else {
            Err(Signal::IndexOutOfBound)
        }
    };
    assert_eq!(collect_amount_with(Source::GroupInput, &data_at), Err(Error::Encoding));
    assert_eq!(asked.get(), 2);
}

#[test]
fn validation_reads_inputs_before_outputs() {
    let order = Cell::new(0usize);
    let data_at = |index: usize, source: Source| -> DataAnswer {
        let step = order.get();
        order.set(step + 1);
        match (step, source, index) {
            (0, Source::GroupInput, 0) => Ok(amount(9)),
            (1, Source::GroupInput, 1) => Err(Signal::IndexOutOfBound),
            (2, Source::GroupOutput, 0) => Ok(amount(9)),
            (3, Source::GroupOutput, 1) => Err(Signal::IndexOutOfBound),
            _ => panic!("unexpected request"),
        }
    };
    assert_eq!(validate_with(&hash(0x11), &locks_of(&[]), &data_at), Ok(()));
    assert_eq!(order.get(), 4);
}

#[test]
fn malformed_input_ends_validation_before_outputs() {
    let data_at = |_index: usize, source: Source| -> DataAnswer {
        match source {
            Source::GroupInput => Ok(vec![0u8; 3]),
            _ => panic!("outputs may not be read"),
        }
    };
    assert_eq!(validate_with(&hash(0x11), &locks_of(&[]), &data_at), Err(Error::Encoding));
}

#[test]
fn validating_twice_gives_the_same() {
    let h1 = hash(0x11);
    let locks = [hash(0x22)];
    let inputs = [amount(50), amount(7)];
    let outputs = [amount(58)];
    let lock_at = locks_of(&locks);
    let data_at = data_of(&inputs, &outputs);
    let first = validate_with(&h1, &lock_at, &data_at);
    let second = validate_with(&h1, &lock_at, &data_at);
    assert_eq!(first, Err(Error::InsufficientAmount));
    assert_eq!(first, second);

    let owned = [h1];
    let lock_at = locks_of(&owned);
    assert_eq!(validate_with(&h1, &lock_at, &data_at), validate_with(&h1, &lock_at, &data_at));
    assert_eq!(validate_with(&h1, &lock_at, &data_at), Ok(()));
}

#[test]
fn signal_from_the_lock_request_is_kept() {
    let lock_at = |index: usize, _source: Source| -> LockAnswer {
        if index == 0 {
            Ok(hash(0x22))
        } else {
            Err(Signal::ItemMissing)
        }
    };
    assert_eq!(
        check_owner_mode_with(&hash(0x11), &lock_at),
        Err(Error::Environment(Signal::ItemMissing))
    );
    assert_eq!(
        validate_with(&hash(0x11), &lock_at, &no_data),
        Err(Error::Environment(Signal::ItemMissing))
    );
}

#[test]
fn signal_from_the_data_request_is_kept() {
    let data_at = |index: usize, source: Source| -> DataAnswer {
        match (source, index) {
            (Source::GroupInput, 0) => Ok(amount(4)),
            (Source::GroupInput, _) => Err(Signal::IndexOutOfBound),
            (_, 0) => Ok(amount(1)),
            _ => Err(Signal::LengthNotEnough(40)),
        }
    };
    assert_eq!(collect_amount_with(Source::GroupInput, &data_at), Ok(4));
    assert_eq!(
        collect_amount_with(Source::GroupOutput, &data_at),
        Err(Error::Environment(Signal::LengthNotEnough(40)))
    );
    assert_eq!(
        validate_with(&hash(0x11), &locks_of(&[]), &data_at),
        Err(Error::Environment(Signal::LengthNotEnough(40)))
    );
}

#[test]
fn host_encoding_signal_is_not_the_encoding_error() {
    let data_at = |_index: usize, _source: Source| -> DataAnswer { Err(Signal::Encoding) };
    assert_eq!(
        collect_amount_with(Source::GroupInput, &data_at),
        Err(Error::Environment(Signal::Encoding))
    );
}

#[test]
fn total_that_leaves_128_bits_is_an_encoding_error() {
    let group = [amount(u128::MAX), amount(1)];
    assert_eq!(
        collect_amount_with(Source::GroupInput, &data_of(&group, &[])),
        Err(Error::Encoding)
    );
    let fits = [amount(u128::MAX - 1), amount(1)];
    assert_eq!(
        collect_amount_with(Source::GroupInput, &data_of(&fits, &[])),
        Ok(u128::MAX)
    );
    let locks = [hash(0x22)];
    let outputs = [amount(1)];
    let r = validate_with(&hash(0x11), &locks_of(&locks), &data_of(&group, &outputs));
    assert_eq!(r, Err(Error::Encoding));
}

#[test]
fn addition_gives_the_exact_total() {
    let group = [amount(1), amount(1 << 64), amount(0), amount(0xffff)];
    assert_eq!(
        collect_amount_with(Source::GroupOutput, &data_of(&[], &group)),
        Ok(1 + (1u128 << 64) + 0xffff)
    );
    assert_eq!(collect_amount_with(Source::GroupInput, &data_of(&[], &group)), Ok(0));
}

#[test]
fn addition_does_not_depend_on_the_order_of_cells() {
    let forward = [amount(3), amount(1 << 100), amount(77)];
    let backward = [amount(77), amount(1 << 100), amount(3)];
    assert_eq!(
        collect_amount_with(Source::GroupInput, &data_of(&forward, &[])),
        collect_amount_with(Source::GroupInput, &data_of(&backward, &[]))
    );
}

#[test]
fn one_answer_of_the_owner_search() {
    let h1 = hash(0x11);
    assert_eq!(owner_step(&h1, &Ok(h1)), Some(Ok(true)));
    assert_eq!(owner_step(&h1, &Ok(hash(0x22))), None);
    assert_eq!(owner_step(&h1, &Err(Signal::IndexOutOfBound)), Some(Ok(false)));
    assert_eq!(
        owner_step(&h1, &Err(Signal::Unknown(7))),
        Some(Err(Error::Environment(Signal::Unknown(7))))
    );
    assert_eq!(
        owner_step(&h1, &Err(Signal::MaxVmsSpawned)),
        Some(Err(Error::Environment(Signal::MaxVmsSpawned)))
    );
}

#[test]
fn one_answer_of_the_addition() {
    assert_eq!(amount_step(5, &Ok(amount(6))), Tally::Open(11));
    assert_eq!(amount_step(5, &Ok(vec![6u8])), Tally::Closed(Err(Error::Encoding)));
    assert_eq!(amount_step(u128::MAX, &Ok(amount(1))), Tally::Closed(Err(Error::Encoding)));
    assert_eq!(amount_step(u128::MAX, &Ok(amount(0))), Tally::Open(u128::MAX));
    assert_eq!(amount_step(5, &Err(Signal::IndexOutOfBound)), Tally::Closed(Ok(5)));
    assert_eq!(
        amount_step(5, &Err(Signal::InvalidFd)),
        Tally::Closed(Err(Error::Environment(Signal::InvalidFd)))
    );
}

#[test]
fn totals_decide() {
    assert_eq!(decide(0, 0), Ok(()));
    assert_eq!(decide(100, 100), Ok(()));
    assert_eq!(decide(101, 100), Ok(()));
    assert_eq!(decide(50, 51), Err(Error::InsufficientAmount));
    assert_eq!(decide(0, u128::MAX), Err(Error::InsufficientAmount));
    assert_eq!(decide(u128::MAX, u128::MAX), Ok(()));
}

#[test]
fn bytes_are_compared_one_by_one() {
    let h1 = hash(0x11);
    assert!(same_bytes(&h1, &h1));
    let mut first = h1;
    first[0] = 0;
    assert!(!same_bytes(&first, &h1));
    let mut last = h1;
    last[31] = 0;
    assert!(!same_bytes(&last, &h1));
    assert!(!same_bytes(&h1[..16], &h1));
    assert!(!same_bytes(&[], &[0u8; 32]));
}
