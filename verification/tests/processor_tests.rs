use kbdstat::keydata::{KeyKind, Keydata};
use kbdstat::processor::Processor;

fn submit(p: &mut Processor, symbol: &str, kind: KeyKind) {
    p.process_key(Keydata::new(String::from(symbol), kind), 0);
}

#[test]
fn scenario_five_distinct_singles() {
    let mut p = Processor::new(None, 0);
    submit(&mut p, "KEY_A", KeyKind::Single);
    submit(&mut p, "KEY_B", KeyKind::Single);
    submit(&mut p, "KEY_C", KeyKind::Single);
    submit(&mut p, "KEY_D", KeyKind::Single);
    submit(&mut p, "KEY_E", KeyKind::Single);
    let (snapshot, alert) = p.process_second(0);
    assert_eq!(p.get_timer(), 1);
    assert_eq!(p.get_keys_total(), 5);
    assert_eq!(alert, None);
    assert_eq!(snapshot.info_string, "Current WPM: 1 Total Keys: 5");
    assert_eq!(snapshot.key_freq.len(), 5);
    for entry in &snapshot.key_freq {
        assert_eq!(entry.1, 1);
    }
}

#[test]
fn scenario_same_symbol_three_times() {
    let mut p = Processor::new(None, 0);
    submit(&mut p, "KEY_A", KeyKind::Single);
    submit(&mut p, "KEY_A", KeyKind::Single);
    submit(&mut p, "KEY_A", KeyKind::Single);
    let (snapshot, _) = p.process_second(0);
    assert_eq!(p.get_keys_total(), 3);
    assert_eq!(snapshot.key_freq, vec![(String::from("KEY_A"), 3)]);
}

#[test]
fn scenario_window_evicts_but_totals_remain() {
    let mut p = Processor::new(None, 0);
    for tick in 0..70u64 {
        if tick < 10 {
            submit(&mut p, "KEY_A", KeyKind::Single);
        }
        let _ = p.process_second(0);
        if tick == 60 {
            // Tick 61: events stamped at ticks 0 and 1 are out, 2..=9 remain.
            assert_eq!(p.window_len(), 8);
        }
    }
    // Tick 70: the youngest event, stamped at tick 9, has left the window.
    assert_eq!(p.get_timer(), 70);
    assert_eq!(p.window_len(), 0);
    assert_eq!(p.get_keys_total(), 10);
    let (snapshot, _) = p.process_second(0);
    assert_eq!(snapshot.key_freq, vec![(String::from("KEY_A"), 10)]);
}

#[test]
fn scenario_milestone_fires_once() {
    let mut p = Processor::new(Some(5), 0);
    for _ in 0..5 {
        submit(&mut p, "KEY_A", KeyKind::Single);
    }
    let (_, alert) = p.process_second(0);
    assert_eq!(alert, Some(5));
    let (_, alert) = p.process_second(0);
    assert_eq!(alert, None);
}

#[test]
fn milestone_crossing_next_multiple_fires_again() {
    let mut p = Processor::new(Some(3), 0);
    for _ in 0..3 {
        submit(&mut p, "KEY_A", KeyKind::Single);
    }
    let (_, alert) = p.process_second(0);
    assert_eq!(alert, Some(3));
    for _ in 0..3 {
        submit(&mut p, "KEY_B", KeyKind::Single);
    }
    let (_, alert) = p.process_second(0);
    assert_eq!(alert, Some(6));
    let (_, alert) = p.process_second(0);
    assert_eq!(alert, None);
}

#[test]
fn milestone_zero_threshold_disables_alerts() {
    let mut p = Processor::new(Some(0), 0);
    for _ in 0..4 {
        submit(&mut p, "KEY_A", KeyKind::Single);
    }
    let (_, alert) = p.process_second(0);
    assert_eq!(alert, None);
}

#[test]
fn hold_events_count_for_frequency_but_not_total() {
    let mut p = Processor::new(None, 0);
    submit(&mut p, "KEY_A", KeyKind::Single);
    submit(&mut p, "KEY_A", KeyKind::Hold);
    submit(&mut p, "KEY_A", KeyKind::Hold);
    let (snapshot, _) = p.process_second(0);
    assert_eq!(p.get_keys_total(), 1);
    assert_eq!(snapshot.key_freq, vec![(String::from("KEY_A"), 3)]);
}

#[test]
fn sleep_gap_resets_total_when_notify_configured() {
    let mut p = Processor::new(Some(100), 1000);
    submit(&mut p, "KEY_A", KeyKind::Single);
    // The previous tick ended at 1000 ms; the next arrives 2000 ms later.
    let (snapshot, _) = p.process_second(3000);
    assert_eq!(p.get_keys_total(), 0);
    // Long-lived statistics survive the reset.
    assert_eq!(snapshot.key_freq, vec![(String::from("KEY_A"), 1)]);
}

#[test]
fn idle_gap_resets_total_when_notify_configured() {
    let mut p = Processor::new(Some(100), 0);
    submit(&mut p, "KEY_A", KeyKind::Single);
    let (_, _) = p.process_second(1000);
    // No key for over five minutes, ticks arriving on time meanwhile.
    let (_, _) = p.process_second(302_000);
    assert_eq!(p.get_keys_total(), 0);
}

#[test]
fn no_reset_without_notify_configuration() {
    let mut p = Processor::new(None, 0);
    submit(&mut p, "KEY_A", KeyKind::Single);
    let (_, _) = p.process_second(1_000_000);
    assert_eq!(p.get_keys_total(), 1);
}

#[test]
fn total_is_monotonic_across_submits() {
    let mut p = Processor::new(None, 0);
    let mut last = 0u64;
    for i in 0..20u32 {
        let kind = if i % 3 == 0 { KeyKind::Hold } else { KeyKind::Single };
        submit(&mut p, "KEY_A", kind);
        assert!(p.get_keys_total() >= last);
        last = p.get_keys_total();
    }
}

#[test]
fn graph_has_twenty_indexed_points() {
    let mut p = Processor::new(None, 0);
    let (snapshot, _) = p.process_second(0);
    assert_eq!(snapshot.graph_data.len(), 20);
    for (i, point) in snapshot.graph_data.iter().enumerate() {
        assert_eq!(*point, (i as u64, 0));
    }
}

#[test]
fn graph_averages_most_recent_slice_first() {
    let mut p = Processor::new(None, 0);
    // 900 window entries make the next sample 900 / 5 = 180, so the most
    // recent 180-slot slice averages to exactly 1.
    for _ in 0..900 {
        submit(&mut p, "KEY_A", KeyKind::Single);
    }
    let (snapshot, _) = p.process_second(0);
    assert_eq!(snapshot.info_string, "Current WPM: 180 Total Keys: 900");
    assert_eq!(snapshot.graph_data[0], (0, 1));
    for i in 1..20 {
        assert_eq!(snapshot.graph_data[i], (i as u64, 0));
    }
}

#[test]
fn window_fills_below_sixty_ticks() {
    let mut p = Processor::new(None, 0);
    for _ in 0..59 {
        submit(&mut p, "KEY_A", KeyKind::Single);
        let _ = p.process_second(0);
    }
    assert_eq!(p.window_len(), 59);
}
