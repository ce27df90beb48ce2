use senso::history::HistoryStore;

fn series(store: &HistoryStore<f64>, label: &str) -> Option<Vec<f64>> {
    store.series_for(label).map(|ring| ring.get().iter().copied().collect())
}

#[test]
fn unknown_label_has_no_series() {
    let store: HistoryStore<f64> = HistoryStore::new();
    assert!(store.series_for("Core 0").is_none());
}

#[test]
fn label_is_unknown_until_recorded() {
    let mut store = HistoryStore::new();
    store.record(String::from("Core 0"), 45.0, 100);
    assert!(store.series_for("Core 1").is_none());
    assert_eq!(series(&store, "Core 0"), Some(vec![45.0]));
}

#[test]
fn series_holds_recorded_values_oldest_first() {
    let mut store = HistoryStore::new();
    store.record(String::from("Core 0"), 45.0, 100);
    store.record(String::from("Core 0"), 46.0, 100);
    store.record(String::from("Core 0"), 44.5, 100);
    assert_eq!(series(&store, "Core 0"), Some(vec![45.0, 46.0, 44.5]));
}

#[test]
fn labels_do_not_share_a_series() {
    let mut store = HistoryStore::new();
    store.record(String::from("Core 0"), 1.0, 100);
    store.record(String::from("Core 1"), 2.0, 100);
    store.record(String::from("Core 0"), 3.0, 100);
    store.record(String::from("fan"), 4.0, 100);
    store.record(String::from("Core 1"), 5.0, 100);
    assert_eq!(series(&store, "Core 0"), Some(vec![1.0, 3.0]));
    assert_eq!(series(&store, "Core 1"), Some(vec![2.0, 5.0]));
    assert_eq!(series(&store, "fan"), Some(vec![4.0]));
    assert_eq!(series(&store, ""), None);
}

#[test]
fn capacity_is_fixed_by_the_first_record() {
    let mut store = HistoryStore::new();
    store.record(String::from("t"), 1.0, 2);
    store.record(String::from("t"), 2.0, 50);
    store.record(String::from("t"), 3.0, 50);
    assert_eq!(series(&store, "t"), Some(vec![2.0, 3.0]));
}

#[test]
fn full_series_evicts_the_oldest_sample() {
    let mut store = HistoryStore::new();
    for value in [1.0, 2.0, 3.0, 4.0, 5.0] {
        store.record(String::from("t"), value, 3);
    }
    assert_eq!(series(&store, "t"), Some(vec![3.0, 4.0, 5.0]));
    assert_eq!(store.series_for("t").map(|ring| ring.len()), Some(3));
}

#[test]
fn capacity_zero_gives_a_known_but_empty_series() {
    let mut store = HistoryStore::new();
    store.record(String::from("t"), 1.0, 0);
    store.record(String::from("t"), 2.0, 7);
    assert_eq!(series(&store, "t"), Some(Vec::new()));
}

#[test]
fn empty_label_is_a_label() {
    let mut store = HistoryStore::new();
    store.record(String::new(), 9.0, 4);
    assert_eq!(series(&store, ""), Some(vec![9.0]));
    assert_eq!(series(&store, " "), None);
}

#[test]
fn many_labels_keep_their_own_values() {
    let mut store = HistoryStore::new();
    for round in 0..3u32 {
        for label in 0..20u32 {
            store.record(format!("label {}", label), f64::from(label * 10 + round), 2);
        }
    }
    for label in 0..20u32 {
        let expected = vec![f64::from(label * 10 + 1), f64::from(label * 10 + 2)];
        assert_eq!(series(&store, &format!("label {}", label)), Some(expected));
    }
}
