use kbdstat::keydata::{KeyKind, Keydata};
use kbdstat::numfmt::u64_to_string;
use kbdstat::processor::summary_line;

#[test]
fn new_event_starts_at_tick_zero() {
    let kd = Keydata::new(String::from("KEY_A"), KeyKind::Single);
    assert_eq!(kd.get_timestamp(), 0);
    assert_eq!(*kd.get_kind(), KeyKind::Single);
    assert_eq!(*kd.get_symbol(), String::from("KEY_A"));
}

#[test]
fn set_timestamp_replaces_the_stamp() {
    let mut kd = Keydata::new(String::from("KEY_B"), KeyKind::Hold);
    kd.set_timestamp(42);
    assert_eq!(kd.get_timestamp(), 42);
    assert_eq!(*kd.get_kind(), KeyKind::Hold);
}

#[test]
fn decimal_rendering_is_exact() {
    assert_eq!(u64_to_string(0), "0");
    assert_eq!(u64_to_string(7), "7");
    assert_eq!(u64_to_string(10), "10");
    assert_eq!(u64_to_string(12345), "12345");
    assert_eq!(u64_to_string(u64::MAX), "18446744073709551615");
}

#[test]
fn summary_line_is_exact() {
    assert_eq!(summary_line(7, 42), "Current WPM: 7 Total Keys: 42");
    assert_eq!(summary_line(0, 0), "Current WPM: 0 Total Keys: 0");
}
