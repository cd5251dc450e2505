use eta_format::unit::{Unit, DAY, HOUR, MINUTE, SECOND, WEEK};

#[test]
fn unit_lengths_in_seconds() {
    assert_eq!(SECOND, 1);
    assert_eq!(MINUTE, 60);
    assert_eq!(HOUR, 3600);
    assert_eq!(DAY, 86400);
    assert_eq!(WEEK, 604800);
    assert_eq!(Unit::Second.secs(), 1);
    assert_eq!(Unit::Minute.secs(), 60);
    assert_eq!(Unit::Hour.secs(), 3600);
    assert_eq!(Unit::Day.secs(), 86400);
    assert_eq!(Unit::Week.secs(), 604800);
}

#[test]
fn unit_words_are_plural() {
    assert_eq!(Unit::Second.label(), "secs");
    assert_eq!(Unit::Minute.label(), "mins");
    assert_eq!(Unit::Hour.label(), "hours");
    assert_eq!(Unit::Day.label(), "days");
    assert_eq!(Unit::Week.label(), "weeks");
}

#[test]
fn no_unit_fits_into_zero_seconds() {
    assert_eq!(Unit::largest_in(0), None);
}

#[test]
fn a_unit_fits_from_its_own_length_on() {
    assert_eq!(Unit::largest_in(1), Some(Unit::Second));
    assert_eq!(Unit::largest_in(59), Some(Unit::Second));
    assert_eq!(Unit::largest_in(60), Some(Unit::Minute));
    assert_eq!(Unit::largest_in(3599), Some(Unit::Minute));
    assert_eq!(Unit::largest_in(3600), Some(Unit::Hour));
    assert_eq!(Unit::largest_in(86399), Some(Unit::Hour));
    assert_eq!(Unit::largest_in(86400), Some(Unit::Day));
    assert_eq!(Unit::largest_in(604799), Some(Unit::Day));
    assert_eq!(Unit::largest_in(604800), Some(Unit::Week));
    assert_eq!(Unit::largest_in(u64::MAX), Some(Unit::Week));
}

#[test]
fn largest_unit_is_the_largest_that_fits() {
    let units = [Unit::Second, Unit::Minute, Unit::Hour, Unit::Day, Unit::Week];
    let samples = [0u64, 1, 30, 59, 60, 61, 3599, 3600, 5000, 86399, 86400, 604799, 604800, 10_000_000];
    for secs in samples {
        let fitting = units.iter().copied().filter(|unit| unit.secs() <= secs).max_by_key(|unit| unit.secs());
        assert_eq!(Unit::largest_in(secs), fitting);
    }
}
