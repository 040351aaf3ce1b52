use sudt::accounting::collect_amount;
use sudt::error::{Error, Signal};
use sudt::host::{cell_data, cell_lock_hash, script_args};
use sudt::owner::check_owner_mode;
use sudt::source::Source;
use sudt::validator::validate;

// Off the chain no host answers: each request comes back with the code that the
// host library has for a request that was not served.
const UNSERVED: Signal = Signal::Unknown(u64::MAX);

#[test]
fn requests_without_a_host_are_not_served() {
    assert_eq!(script_args(), Err(UNSERVED));
    for source in [Source::Input, Source::Output, Source::GroupInput, Source::GroupOutput] {
        assert_eq!(cell_lock_hash(0, source), Err(UNSERVED));
        assert_eq!(cell_data(0, source), Err(UNSERVED));
        assert_eq!(cell_data(7, source), Err(UNSERVED));
    }
}

#[test]
fn owner_search_without_a_host_fails() {
    assert_eq!(check_owner_mode(&[0x11u8; 32]), Err(Error::Environment(UNSERVED)));
}

#[test]
fn addition_without_a_host_fails() {
    assert_eq!(collect_amount(Source::GroupInput), Err(Error::Environment(UNSERVED)));
    assert_eq!(collect_amount(Source::GroupOutput), Err(Error::Environment(UNSERVED)));
}

#[test]
fn validation_without_a_host_fails() {
    assert_eq!(validate(), Err(Error::Environment(UNSERVED)));
}
