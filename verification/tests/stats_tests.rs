use flashfall::stats::{CardStats, Tally};

#[test]
fn a_new_tally_counts_nothing() {
    let tally = Tally::new();
    assert_eq!(tally.get(&"anything".to_string()), 0);
    assert!(tally.pairs().is_empty());
}

#[test]
fn bump_counts_by_prompt() {
    let mut tally = Tally::new();
    tally.bump(&"a".to_string());
    tally.bump(&"b".to_string());
    tally.bump(&"a".to_string());
    assert_eq!(tally.get(&"a".to_string()), 2);
    assert_eq!(tally.get(&"b".to_string()), 1);
    assert_eq!(tally.get(&"c".to_string()), 0);
    assert_eq!(tally.pairs(), vec![("a".to_string(), 2), ("b".to_string(), 1)]);
}

#[test]
fn a_clone_counts_on_its_own() {
    let mut tally = Tally::new();
    tally.bump(&"a".to_string());
    let mut copy = tally.clone();
    copy.bump(&"a".to_string());
    assert_eq!(tally.get(&"a".to_string()), 1);
    assert_eq!(copy.get(&"a".to_string()), 2);
}

#[test]
fn keys_are_compared_by_content() {
    let mut tally = Tally::new();
    tally.bump(&"crème".to_string());
    assert_eq!(tally.get(&String::from("crème")), 1);
    assert_eq!(tally.get(&String::from("creme")), 0);
    assert_eq!(tally.get(&String::new()), 0);
    tally.bump(&String::new());
    assert_eq!(tally.get(&String::new()), 1);
}

#[test]
fn card_stats_count_successes_and_misses_apart() {
    let mut stats = CardStats::new();
    let q = "Q".to_string();
    assert_eq!(stats.lookup(&q), (0, 0));
    stats.record_success(&q);
    assert_eq!(stats.lookup(&q), (1, 0));
    stats.record_miss(&q);
    stats.record_miss(&q);
    assert_eq!(stats.lookup(&q), (1, 2));
    assert_eq!(stats.lookup(&"other".to_string()), (0, 0));
    assert_eq!(stats.successes.pairs(), vec![("Q".to_string(), 1)]);
    assert_eq!(stats.misses.pairs(), vec![("Q".to_string(), 2)]);
}
