use autoeq::samples::{interleave, replicate_mono};

#[test]
fn interleaves_frame_by_frame() {
    let planes = vec![vec![1, 2, 3], vec![10, 20, 30]];
    assert_eq!(interleave(&planes), vec![1, 10, 2, 20, 3, 30]);
    let none: Vec<Vec<i32>> = vec![];
    assert!(interleave(&none).is_empty());
}

#[test]
fn mono_is_repeated_on_each_channel() {
    assert_eq!(replicate_mono(&vec![1.5f32, -0.5], 3), vec![1.5, 1.5, 1.5, -0.5, -0.5, -0.5]);
    assert!(replicate_mono(&vec![1u8, 2], 0).is_empty());
}

#[test]
fn replicating_equals_interleaving_copies() {
    let mono = vec![4, 5, 6, 7];
    let copies = vec![mono.clone(), mono.clone(), mono.clone()];
    assert_eq!(replicate_mono(&mono, 3), interleave(&copies));
}
