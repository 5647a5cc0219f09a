use tinyolap::aggregator::top_k::{CountMinSketch, TopK};

#[test]
fn estimates_are_at_least_true_count() {
    let seeds = vec![[1, 2, 3, 4], [5, 6, 7, 8], [9, 10, 11, 12]];
    let mut sketch = CountMinSketch::with_seeds(3, 1024, seeds);

    for _ in 0..100 { sketch.add("apple"); }
    for _ in 0..50  { sketch.add("banana"); }
    sketch.add("cherry");

    assert!(sketch.estimate("apple")  >= 100);
    assert!(sketch.estimate("banana") >= 50);
    assert!(sketch.estimate("cherry") >= 1);
    assert_eq!(sketch.estimate("never_inserted"), 0);
}

#[test]
fn same_seeds_give_same_estimates() {
    let seeds = vec![[1, 2, 3, 4], [5, 6, 7, 8]];
    let mut a = CountMinSketch::with_seeds(2, 64, seeds.clone());
    let mut b = CountMinSketch::with_seeds(2, 64, seeds);

    for v in &["x", "y", "z", "x", "x"] {
        a.add(v);
        b.add(v);
    }

    assert_eq!(a.estimate("x"), b.estimate("x"));
    assert_eq!(a.estimate("y"), b.estimate("y"));
}

#[test]
fn tracks_top_values_by_frequency() {
    let mut topk: TopK<&str> = TopK::new(3);

    for _ in 0..100 { topk.add(&"apple"); }
    for _ in 0..50  { topk.add(&"banana"); }
    for _ in 0..25  { topk.add(&"cherry"); }
    for _ in 0..10  { topk.add(&"date"); }
    for _ in 0..5   { topk.add(&"elder"); }

    let top = topk.top();
    assert_eq!(top.len(), 3);
    assert_eq!(top[0].0, "apple");
    assert_eq!(top[1].0, "banana");
    assert_eq!(top[2].0, "cherry");
    assert!(top[0].1 >= 100);
    assert!(top[1].1 >= 50);
    assert!(top[2].1 >= 25);
}

#[test]
fn returns_fewer_than_k_when_input_is_small() {
    let mut topk: TopK<i64> = TopK::new(5);
    topk.add(&1);
    topk.add(&2);
    topk.add(&2);

    let top = topk.top();
    assert_eq!(top.len(), 2);
    assert_eq!(top[0].0, 2);
    assert_eq!(top[1].0, 1);
}

#[test]
fn evicts_when_a_new_value_beats_the_smallest_tracked() {
    let mut topk: TopK<&str> = TopK::new(2);
    for _ in 0..3  { topk.add(&"a"); }
    for _ in 0..2  { topk.add(&"b"); }
    for _ in 0..10 { topk.add(&"c"); }

    let top = topk.top();
    assert_eq!(top.len(), 2);
    assert_eq!(top[0].0, "c");
    assert_eq!(top[1].0, "a");
}

#[test]
fn hashed_adds_bump_one_counter_per_row() {
    let mut sketch = CountMinSketch::with_seeds(2, 8, vec![[1, 1, 1, 1], [2, 2, 2, 2]]);
    // Row 0 uses column 3, row 1 column 5 (13 & 7).
    sketch.add_hashes(&[3, 13]);
    sketch.add_hashes(&[3, 13]);
    sketch.add_hashes(&[11, 5]);
    assert_eq!(sketch.estimate_hashes(&[3, 13]), 3);
    assert_eq!(sketch.estimate_hashes(&[3, 4]), 0);
    assert_eq!(sketch.estimate_hashes(&[0, 0]), 0);
}
