use context7_cache::fresh::age_of;
use context7_cache::fresh::is_fresh;
use context7_cache::fresh::Timestamp;
use context7_cache::ttl::Ttl;

fn at(nanos: i128) -> Timestamp {
    Timestamp { nanos }
}

#[test]
fn entry_is_fresh_below_the_ttl() {
    let ttl = Ttl::from_secs(3600);
    let written = at(1_700_000_000_000_000_000);
    assert!(is_fresh(Some(written), written, ttl));
    assert!(is_fresh(Some(written), at(written.nanos + 1), ttl));
    assert!(is_fresh(Some(written), at(written.nanos + 3_599_999_999_999), ttl));
}

#[test]
fn entry_is_stale_from_the_ttl_on() {
    let ttl = Ttl::from_secs(3600);
    let written = at(1_700_000_000_000_000_000);
    assert!(!is_fresh(Some(written), at(written.nanos + 3_600_000_000_000), ttl));
    assert!(!is_fresh(Some(written), at(written.nanos + 3_600_000_000_001), ttl));
    assert!(!is_fresh(Some(written), at(written.nanos + 86_400_000_000_000), ttl));
}

#[test]
fn zero_ttl_makes_every_entry_stale() {
    let ttl = Ttl::from_days(0);
    assert!(!is_fresh(Some(at(0)), at(0), ttl));
    assert!(!is_fresh(Some(at(5)), at(5), ttl));
    assert!(!is_fresh(Some(at(5)), at(6), ttl));
    assert!(!is_fresh(None, at(6), ttl));
}

#[test]
fn missing_time_is_never_fresh() {
    assert!(!is_fresh(None, at(0), Ttl::from_days(u64::MAX)));
    assert!(!is_fresh(None, at(i128::MAX), Ttl { nanos: u128::MAX }));
}

#[test]
fn time_ahead_of_the_clock_is_never_fresh() {
    let ttl = Ttl::from_days(365);
    assert!(!is_fresh(Some(at(101)), at(100), ttl));
    assert!(!is_fresh(Some(at(0)), at(-1), ttl));
    assert!(!is_fresh(Some(at(i128::MAX)), at(i128::MIN), Ttl { nanos: u128::MAX }));
}

#[test]
fn ages_across_the_epoch_are_exact() {
    assert_eq!(age_of(Some(at(-10)), at(5)), Some(15));
    assert_eq!(age_of(Some(at(-10)), at(-10)), Some(0));
    assert_eq!(age_of(Some(at(-10)), at(-3)), Some(7));
    assert_eq!(age_of(Some(at(-10)), at(-11)), None);
    assert_eq!(age_of(Some(at(0)), at(0)), Some(0));
    assert_eq!(age_of(None, at(0)), None);
    assert!(is_fresh(Some(at(-10)), at(5), Ttl { nanos: 16 }));
    assert!(!is_fresh(Some(at(-10)), at(5), Ttl { nanos: 15 }));
}

#[test]
fn ages_at_the_ends_of_time_are_exact() {
    assert_eq!(age_of(Some(at(i128::MIN)), at(i128::MAX)), Some(u128::MAX));
    assert_eq!(age_of(Some(at(i128::MIN)), at(i128::MIN)), Some(0));
    assert_eq!(age_of(Some(at(i128::MAX)), at(i128::MAX)), Some(0));
    assert_eq!(age_of(Some(at(i128::MIN)), at(0)), Some(1u128 << 127));
    assert_eq!(age_of(Some(at(-1)), at(i128::MAX)), Some(1u128 << 127));
    assert_eq!(age_of(Some(at(0)), at(i128::MAX)), Some((1u128 << 127) - 1));
    assert!(!is_fresh(Some(at(i128::MIN)), at(i128::MAX), Ttl { nanos: u128::MAX }));
    assert!(is_fresh(Some(at(i128::MIN)), at(i128::MAX - 1), Ttl { nanos: u128::MAX }));
}

#[test]
fn fifty_milliseconds_pass() {
    let ttl = Ttl::from_millis(50);
    let written = at(1_000_000_000);
    assert!(is_fresh(Some(written), at(written.nanos + 49_999_999), ttl));
    assert!(!is_fresh(Some(written), at(written.nanos + 50_000_000), ttl));
    assert!(!is_fresh(Some(written), at(written.nanos + 100_000_000), ttl));
}
