use lindiction::preroll::{preroll_samples, PreRoll};

#[test]
fn push_within_cap_retains_all_in_order() {
    let mut r = PreRoll::new(8);
    r.push(&[1.0, 2.0, 3.0]);
    r.push(&[4.0, 5.0]);
    let mut out = Vec::new();
    r.drain_into(&mut out);
    assert_eq!(out, vec![1.0, 2.0, 3.0, 4.0, 5.0]);
    assert!(r.is_empty());
}

#[test]
fn push_over_cap_evicts_oldest() {
    let mut r = PreRoll::new(4);
    r.push(&[1.0, 2.0, 3.0]);
    r.push(&[4.0, 5.0, 6.0]);
    let mut out = Vec::new();
    r.drain_into(&mut out);
    // Oldest two (1.0, 2.0) evicted; newest four preserved in order.
    assert_eq!(out, vec![3.0, 4.0, 5.0, 6.0]);
}

#[test]
fn single_chunk_larger_than_cap_keeps_tail() {
    let mut r = PreRoll::new(3);
    r.push(&[1.0, 2.0, 3.0, 4.0, 5.0]);
    assert_eq!(r.len(), 3);
    let mut out = Vec::new();
    r.drain_into(&mut out);
    assert_eq!(out, vec![3.0, 4.0, 5.0]);
}

#[test]
fn drain_prepends_to_existing_target() {
    let mut r = PreRoll::new(4);
    r.push(&[1.0, 2.0]);
    let mut out = vec![10.0, 11.0];
    r.drain_into(&mut out);
    assert_eq!(out, vec![1.0, 2.0, 10.0, 11.0]);
}

#[test]
fn drain_empty_is_noop() {
    let mut r = PreRoll::new(4);
    let mut out = vec![7.0];
    r.drain_into(&mut out);
    assert_eq!(out, vec![7.0]);
}

#[test]
fn clear_empties_ring() {
    let mut r = PreRoll::new(4);
    r.push(&[1.0, 2.0, 3.0]);
    r.clear();
    assert!(r.is_empty());
    let mut out = Vec::new();
    r.drain_into(&mut out);
    assert!(out.is_empty());
}

#[test]
fn zero_cap_is_valid_and_noop() {
    let mut r = PreRoll::new(0);
    r.push(&[1.0, 2.0, 3.0]);
    assert!(r.is_empty());
    let mut out = vec![9.0];
    r.drain_into(&mut out);
    assert_eq!(out, vec![9.0]);
}

#[test]
fn drain_leaves_ring_reusable() {
    let mut r = PreRoll::new(4);
    r.push(&[1.0, 2.0]);
    let mut out = Vec::new();
    r.drain_into(&mut out);
    r.push(&[5.0, 6.0, 7.0]);
    let mut out2 = Vec::new();
    r.drain_into(&mut out2);
    assert_eq!(out2, vec![5.0, 6.0, 7.0]);
}

#[test]
fn cutting_audio_into_chunks_does_not_show() {
    let mut pieces = PreRoll::new(4);
    pieces.push(&[1, 2, 3]);
    pieces.push(&[4]);
    pieces.push(&[5, 6]);
    let mut whole = PreRoll::new(4);
    whole.push(&[1, 2, 3, 4, 5, 6]);
    let (mut a, mut b) = (Vec::new(), Vec::new());
    pieces.drain_into(&mut a);
    whole.drain_into(&mut b);
    assert_eq!(a, b);
    assert_eq!(a, vec![3, 4, 5, 6]);
    assert_eq!(whole.capacity(), 4);
}

#[test]
fn capacity_follows_rate_and_time() {
    assert_eq!(preroll_samples(16_000, 300), 4_800);
    assert_eq!(preroll_samples(16_000, 0), 0);
    assert_eq!(preroll_samples(44_100, 1), 44);
    assert_eq!(preroll_samples(u32::MAX, u32::MAX), 18_446_744_065_119_617);
}
