use kbdstat::rank::{format_stats, rank_table};

fn entry(sym: &str, count: u32) -> (String, u32) {
    (String::from(sym), count)
}

#[test]
fn rank_sorts_by_count_descending() {
    let table = vec![entry("KEY_A", 2), entry("KEY_B", 7), entry("KEY_C", 4)];
    let ranked = rank_table(&table);
    assert_eq!(ranked, vec![entry("KEY_B", 7), entry("KEY_C", 4), entry("KEY_A", 2)]);
}

#[test]
fn rank_keeps_first_seen_order_on_ties() {
    let table = vec![entry("KEY_B", 3), entry("KEY_A", 3), entry("KEY_C", 5)];
    let ranked = rank_table(&table);
    assert_eq!(ranked, vec![entry("KEY_C", 5), entry("KEY_B", 3), entry("KEY_A", 3)]);
}

#[test]
fn rank_of_ranked_snapshot_is_unchanged() {
    let table = vec![entry("KEY_D", 1), entry("KEY_B", 3), entry("KEY_A", 3), entry("KEY_C", 5)];
    let once = rank_table(&table);
    let twice = rank_table(&once);
    assert_eq!(once, twice);
}

#[test]
fn rank_of_empty_table_is_empty() {
    let table: Vec<(String, u32)> = Vec::new();
    assert_eq!(rank_table(&table), Vec::new());
}

#[test]
fn format_stats_writes_one_line_per_symbol() {
    let table = vec![entry("KEY_A", 12), entry("KEY_SPACE", 1)];
    assert_eq!(format_stats(&table), "KEY_A: 12\nKEY_SPACE: 1\n");
}

#[test]
fn format_stats_of_empty_table_is_empty() {
    let table: Vec<(String, u32)> = Vec::new();
    assert_eq!(format_stats(&table), "");
}
