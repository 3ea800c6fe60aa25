use kbdstat::grabber::{classify_event, InputGrabber, Matcher, PatternError};
use kbdstat::keydata::KeyKind;

fn paths(items: &[&str]) -> Vec<String> {
    items.iter().map(|s| String::from(*s)).collect()
}

#[test]
fn explicit_path_wins_over_candidates() {
    let g = InputGrabber::new(Some(String::from("/dev/input/event3")));
    let m = Matcher::new("usb.*kbd").unwrap();
    let candidates = paths(&["usb-aaa-kbd", "usb-bbb-kbd"]);
    assert_eq!(g.choose_path(&candidates, &m), Some(String::from("/dev/input/event3")));
}

#[test]
fn auto_detection_picks_last_matching_candidate() {
    let g = InputGrabber::new(None);
    let m = Matcher::new("usb.*kbd").unwrap();
    let candidates = paths(&["usb-aaa-kbd", "usb-ccc-mouse", "usb-bbb-kbd", "platform-i8042"]);
    assert_eq!(g.choose_path(&candidates, &m), Some(String::from("usb-bbb-kbd")));
}

#[test]
fn auto_detection_without_match_finds_nothing() {
    let g = InputGrabber::new(None);
    let m = Matcher::new("usb.*kbd").unwrap();
    let candidates = paths(&["usb-ccc-mouse", "platform-i8042"]);
    assert_eq!(g.choose_path(&candidates, &m), None);
}

#[test]
fn matcher_rejects_invalid_pattern() {
    assert_eq!(Matcher::new("usb(kbd").err(), Some(PatternError::Invalid));
}

#[test]
fn classify_reads_press_kind_from_event_value() {
    assert_eq!(classify_event(true, 1), Some(KeyKind::Single));
    assert_eq!(classify_event(true, 2), Some(KeyKind::Hold));
    assert_eq!(classify_event(true, 0), None);
    assert_eq!(classify_event(false, 1), None);
    assert_eq!(classify_event(true, 3), None);
}
