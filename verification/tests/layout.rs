use chat_wgpu::layout::{concat_columns, total_width};
use chat_wgpu::layout::transpose;

#[test]
fn transpose_out_in_to_in_out() {
    // [out=2, in=3] row-major
    let w = [1, 2, 3, 4, 5, 6];
    assert_eq!(transpose(&w, 3, 2), vec![1, 4, 2, 5, 3, 6]);
    assert_eq!(transpose(&w, 1, 1), vec![1]);
    assert_eq!(transpose::<u32>(&[], 0, 5), Vec::<u32>::new());
}

#[test]
fn transpose_twice_is_identity() {
    let w: Vec<u32> = (0..12).collect();
    assert_eq!(transpose(&transpose(&w, 4, 3), 3, 4), w);
}

#[test]
fn concat_columns_places_each_part() {
    // in_f = 2; part a is [2, 1], part b is [2, 2]
    let a = vec![1, 2];
    let b = vec![10, 11, 20, 21];
    let out = concat_columns(&vec![a, b], &vec![1, 2], 2);
    assert_eq!(out, vec![1, 10, 11, 2, 20, 21]);
    assert_eq!(total_width(&vec![1, 2]), Some(3));
    assert_eq!(total_width(&vec![usize::MAX, 1]), None);
    assert_eq!(concat_columns::<u32>(&vec![], &vec![], 3), Vec::<u32>::new());
}

#[test]
fn concat_columns_single_part_is_identity() {
    let m: Vec<u32> = (0..6).collect();
    assert_eq!(concat_columns(&vec![m.clone()], &vec![3], 2), m);
}
