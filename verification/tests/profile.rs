use chat_wgpu::profile::{group_counts, PassSlots};

#[test]
fn reserve_hands_out_pairs_until_full() {
    let mut s = PassSlots::new(2);
    assert_eq!(s.capacity(), 4);
    assert_eq!(s.resolve_bytes(), None);
    assert_eq!(s.reserve("matmul"), Some((0, 1)));
    assert_eq!(s.reserve("norm"), Some((2, 3)));
    assert_eq!(s.reserve("rope"), None);
    assert_eq!(s.used(), 4);
    assert_eq!(s.labels(), &vec!["matmul", "norm"]);
    assert_eq!(s.resolve_bytes(), Some(32));
}

#[test]
fn pass_ticks_and_groups() {
    let mut s = PassSlots::new(8);
    s.reserve("matmul");
    s.reserve("norm");
    s.reserve("matmul");
    let ts = [100u64, 150, 200, 190, 300, 330];
    assert_eq!(s.pass_ticks(&ts), vec![50, 0, 30]);
    let (labels, group) = s.groups();
    assert_eq!(labels, vec!["matmul", "norm"]);
    assert_eq!(group, vec![0, 1, 0]);
}

#[test]
fn zero_capacity_reserves_nothing() {
    let mut s = PassSlots::new(0);
    assert_eq!(s.reserve("x"), None);
    assert_eq!(s.used(), 0);
}

#[test]
fn counts_per_group() {
    assert_eq!(group_counts(&vec![0, 1, 0, 0], 2), vec![3, 1]);
    assert_eq!(group_counts(&vec![], 2), vec![0, 0]);
}
