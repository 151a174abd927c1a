use drue::tiers::TierTable;
use std::collections::BTreeMap;

fn three_tiers() -> TierTable<char> {
    let mut table = TierTable::new('-');
    table.insert(0, 'A');
    table.insert(200, 'B');
    table.insert(600, 'C');
    table
}

#[test]
fn empty_table_gives_the_base_output() {
    let table: TierTable<char> = TierTable::new('-');
    assert!(table.tiers.is_empty());
    assert_eq!(*table.select(0), '-');
    assert_eq!(*table.select(1_000_000), '-');
    assert_eq!(*table.select(u128::MAX), '-');
}

#[test]
fn greatest_threshold_reached_wins() {
    let table = three_tiers();
    assert_eq!(*table.select(0), 'A');
    assert_eq!(*table.select(1), 'A');
    assert_eq!(*table.select(199), 'A');
    assert_eq!(*table.select(300), 'B');
    assert_eq!(*table.select(599), 'B');
    assert_eq!(*table.select(601), 'C');
    assert_eq!(*table.select(u128::MAX), 'C');
}

#[test]
fn metric_equal_to_a_threshold_reaches_it() {
    let table = three_tiers();
    assert_eq!(*table.select(200), 'B');
    assert_eq!(*table.select(600), 'C');
}

#[test]
fn below_every_threshold_the_base_applies() {
    let mut table = TierTable::new('-');
    table.insert(200, 'B');
    table.insert(600, 'C');
    assert_eq!(*table.select(0), '-');
    assert_eq!(*table.select(199), '-');
    assert_eq!(*table.select(200), 'B');
}

#[test]
fn order_of_insertion_does_not_matter() {
    let mut table = TierTable::new('-');
    table.insert(600, 'C');
    table.insert(0, 'A');
    table.insert(200, 'B');
    for metric in [0u128, 199, 200, 201, 599, 600, 10_000] {
        assert_eq!(*table.select(metric), *three_tiers().select(metric));
    }
}

#[test]
fn insert_replaces_and_returns_the_previous_output() {
    let mut table = three_tiers();
    assert_eq!(table.insert(100, 'X'), None);
    assert_eq!(table.insert(200, 'Y'), Some('B'));
    assert_eq!(table.tiers.len(), 4);
    assert_eq!(table.base_output, '-');
    assert_eq!(*table.select(150), 'X');
    assert_eq!(*table.select(250), 'Y');
}

#[test]
fn threshold_beyond_sixty_four_bits_of_metric() {
    let mut table = TierTable::new(0u8);
    table.insert(u64::MAX, 9);
    assert_eq!(*table.select(u64::MAX as u128 - 1), 0);
    assert_eq!(*table.select(u64::MAX as u128), 9);
    assert_eq!(*table.select(u64::MAX as u128 + 1), 9);
}

#[test]
fn binary_table_is_a_choice_of_two() {
    let table = TierTable::binary("low", 300, "high");
    let mut expected = BTreeMap::new();
    expected.insert(300u64, "high");
    assert_eq!(table.tiers, expected);
    assert_eq!(table.base_output, "low");
    assert_eq!(*table.select(0), "low");
    assert_eq!(*table.select(299), "low");
    assert_eq!(*table.select(300), "high");
    assert_eq!(*table.select(301), "high");
}
