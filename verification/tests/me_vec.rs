use me_collections::me_vec::MeVec;

fn contents(v: &MeVec<u64>) -> Vec<u64> {
    v.as_slice().to_vec()
}

#[test]
fn push_yields_elements_in_order() {
    let mut v: MeVec<u64> = MeVec::new();
    for x in 0..100u64 {
        v.push(x);
    }
    assert_eq!(v.len(), 100);
    let mut expected: u64 = 0;
    for x in v.iter() {
        assert_eq!(*x, expected);
        expected += 1;
    }
}

#[test]
fn push_returns_slot_reference() {
    let mut v: MeVec<u64> = MeVec::new();
    *v.push(5) += 1;
    assert_eq!(contents(&v), vec![6]);
}

#[test]
fn new_is_empty_with_capacity_zero() {
    let v: MeVec<u64> = MeVec::new();
    assert_eq!(v.len(), 0);
    assert!(v.is_empty());
    assert_eq!(v.capacity(), 0);
}

#[test]
fn with_capacity_zero_still_reserves_one_slot() {
    let mut v: MeVec<u64> = MeVec::with_capacity(0);
    assert!(v.capacity() >= 1);
    assert_eq!(v.capacity(), 1);
    v.push(1);
    assert_eq!(v.capacity(), 1);
    v.push(2);
    assert_eq!(v.capacity(), 2);
}

#[test]
fn with_capacity_keeps_request() {
    let v: MeVec<u64> = MeVec::with_capacity(5);
    assert_eq!(v.capacity(), 5);
    assert_eq!(v.len(), 0);
}

#[test]
fn growth_is_power_of_two_at_or_above_request() {
    let mut v: MeVec<u64> = MeVec::new();
    v.reserve(3);
    assert_eq!(v.capacity(), 4);
    v.push(1);
    v.push(2);
    v.push(3);
    v.push(4);
    assert_eq!(v.capacity(), 4);
    v.push(5);
    assert_eq!(v.capacity(), 8);
    let before = v.capacity();
    v.reserve(1);
    assert_eq!(v.capacity(), before);
}

#[test]
fn reserve_exact_follows_same_policy() {
    let mut v: MeVec<u64> = MeVec::new();
    v.reserve_exact(5);
    assert_eq!(v.capacity(), 8);
    v.reserve_exact(3);
    assert_eq!(v.capacity(), 8);
}

#[test]
fn capacity_never_decreases_without_shrink() {
    let mut v: MeVec<u64> = MeVec::with_capacity(9);
    let mut seen = v.capacity();
    for x in 0..50u64 {
        v.push(x);
        assert!(v.capacity() >= seen);
        seen = v.capacity();
    }
    v.truncate(3);
    assert_eq!(v.capacity(), seen);
    v.clear();
    assert_eq!(v.capacity(), seen);
}

#[test]
fn shrink_to_fit_leaves_max_of_len_and_one() {
    let mut v: MeVec<u64> = MeVec::with_capacity(32);
    v.push(1);
    v.push(2);
    v.push(3);
    v.shrink_to_fit();
    assert_eq!(v.capacity(), 3);
    assert_eq!(contents(&v), vec![1, 2, 3]);

    let mut e: MeVec<u64> = MeVec::with_capacity(8);
    e.shrink_to_fit();
    assert_eq!(e.capacity(), 1);

    // A container that never allocated has nothing to give back.
    let mut n: MeVec<u64> = MeVec::new();
    n.shrink_to_fit();
    assert_eq!(n.capacity(), 0);
}

#[test]
fn clear_empties_but_keeps_capacity() {
    let mut v: MeVec<u64> = MeVec::new();
    v.push(1);
    v.push(2);
    let cap = v.capacity();
    v.clear();
    assert_eq!(v.len(), 0);
    assert!(v.is_empty());
    assert_eq!(v.capacity(), cap);
}

#[test]
fn truncate_above_len_is_a_no_op() {
    let mut v: MeVec<u64> = MeVec::new();
    v.push(1);
    v.push(2);
    v.push(3);
    let cap = v.capacity();
    v.truncate(3);
    assert_eq!(contents(&v), vec![1, 2, 3]);
    v.truncate(10);
    assert_eq!(contents(&v), vec![1, 2, 3]);
    assert_eq!(v.capacity(), cap);
}

#[test]
fn truncate_zero_empties_without_touching_capacity() {
    let mut v: MeVec<u64> = MeVec::new();
    v.push(1);
    v.push(2);
    v.push(3);
    let cap = v.capacity();
    v.truncate(0);
    assert_eq!(v.len(), 0);
    assert_eq!(v.capacity(), cap);
}

#[test]
fn truncate_cuts_the_tail() {
    let mut v: MeVec<u64> = MeVec::new();
    v.push(1);
    v.push(2);
    v.push(3);
    v.truncate(2);
    assert_eq!(contents(&v), vec![1, 2]);
}

#[test]
fn set_len_shrinks_keeping_prefix() {
    let mut v: MeVec<u64> = MeVec::new();
    v.push(4);
    v.push(5);
    v.push(6);
    let cap = v.capacity();
    v.set_len(1);
    assert_eq!(contents(&v), vec![4]);
    assert_eq!(v.capacity(), cap);
}

#[test]
fn resize_grows_with_copies_and_shrinks_plainly() {
    let mut v: MeVec<u64> = MeVec::new();
    v.push(1);
    v.resize(4, 7);
    assert_eq!(contents(&v), vec![1, 7, 7, 7]);
    assert_eq!(v.capacity(), 4);
    v.resize(2, 9);
    assert_eq!(contents(&v), vec![1, 7]);
    assert_eq!(v.capacity(), 4);
    v.resize(0, 0);
    assert!(v.is_empty());
}

#[test]
fn extend_appends_in_order() {
    let mut v: MeVec<u64> = MeVec::new();
    v.push(1);
    v.extend(vec![2, 3, 4]);
    assert_eq!(contents(&v), vec![1, 2, 3, 4]);
    // Pushed one at a time: the growth steps were 1, 2, 4.
    assert_eq!(v.capacity(), 4);
}

#[test]
fn extend_from_slice_appends_a_copy() {
    let mut v: MeVec<u64> = MeVec::new();
    v.push(1);
    v.extend_from_slice(&[2, 3]);
    assert_eq!(contents(&v), vec![1, 2, 3]);
    v.extend_from_slice(&[]);
    assert_eq!(contents(&v), vec![1, 2, 3]);
    assert_eq!(v.capacity(), 4);
}

#[test]
fn extend_from_within_copies_the_old_range() {
    let mut v: MeVec<u64> = MeVec::new();
    v.extend_from_slice(&[1, 2, 3]);
    v.extend_from_within(1..3);
    assert_eq!(contents(&v), vec![1, 2, 3, 2, 3]);
}

#[test]
fn extend_from_within_tolerates_overlap_with_destination() {
    // The copied range overlaps the region that receives the copy; the
    // result must still be the pre-call elements of the range.
    let mut v: MeVec<u64> = MeVec::new();
    v.extend_from_slice(&[10, 20, 30, 40]);
    v.extend_from_within(2..4);
    assert_eq!(contents(&v), vec![10, 20, 30, 40, 30, 40]);
    v.extend_from_within(4..6);
    assert_eq!(contents(&v), vec![10, 20, 30, 40, 30, 40, 30, 40]);
}

#[test]
fn extend_from_within_ignores_empty_or_overlong_ranges() {
    let mut v: MeVec<u64> = MeVec::new();
    v.extend_from_slice(&[1, 2, 3]);
    v.extend_from_within(1..1);
    assert_eq!(contents(&v), vec![1, 2, 3]);
    v.extend_from_within(1..9);
    assert_eq!(contents(&v), vec![1, 2, 3]);
}

/// The reference model of a splice on a plain sequence.
fn model_splice(s: &[u64], start: usize, end: usize, src: &[u64]) -> Vec<u64> {
    let len = s.len();
    let off = start.min(len);
    let del = end.saturating_sub(off).min(len - off);
    let mut out = Vec::new();
    out.extend_from_slice(&s[..off]);
    out.extend_from_slice(src);
    out.extend_from_slice(&s[off + del..]);
    out
}

fn check_replace(initial: &[u64], start: usize, end: usize, src: &[u64]) {
    let mut v: MeVec<u64> = MeVec::new();
    v.extend_from_slice(initial);
    v.replace_range(start..end, src);
    assert_eq!(contents(&v), model_splice(initial, start, end, src));
}

#[test]
fn replace_range_matches_the_reference_splice() {
    let base: [u64; 5] = [1, 2, 3, 4, 5];
    // Empty deleted range, pure insertion.
    check_replace(&base, 2, 2, &[8, 9]);
    // Equal lengths.
    check_replace(&base, 1, 3, &[8, 9]);
    // Deletion larger than insertion.
    check_replace(&base, 1, 4, &[8]);
    // Insertion larger than deletion.
    check_replace(&base, 1, 2, &[7, 8, 9]);
    // Touching the start.
    check_replace(&base, 0, 2, &[9]);
    // Touching the end.
    check_replace(&base, 3, 5, &[9, 9, 9]);
    // Pure deletion.
    check_replace(&base, 1, 3, &[]);
    // Whole container.
    check_replace(&base, 0, 5, &[6, 7]);
}

#[test]
fn replace_range_clamps_out_of_range_inputs() {
    let base: [u64; 3] = [1, 2, 3];
    // Start beyond the length clamps to the length: plain append.
    check_replace(&base, 7, 9, &[4]);
    // End beyond the length clamps to the remaining elements.
    check_replace(&base, 1, 99, &[5]);
    // Nothing deleted, nothing inserted: a no-op.
    let mut v: MeVec<u64> = MeVec::new();
    v.extend_from_slice(&base);
    let cap = v.capacity();
    v.replace_range(2..2, &[]);
    assert_eq!(contents(&v), vec![1, 2, 3]);
    assert_eq!(v.capacity(), cap);
}

#[test]
fn replace_impl_is_the_same_splice() {
    let mut v: MeVec<u64> = MeVec::new();
    v.extend_from_slice(&[1, 2, 3]);
    v.replace_impl(1..2, &[9, 9]);
    assert_eq!(contents(&v), vec![1, 9, 9, 3]);
}

#[test]
fn scenario_push_replace_retain() {
    let mut v: MeVec<u64> = MeVec::new();
    v.push(1);
    v.push(2);
    v.push(3);
    assert_eq!(contents(&v), vec![1, 2, 3]);
    assert_eq!(v.len(), 3);
    v.replace_range(1..2, &[9, 9]);
    assert_eq!(contents(&v), vec![1, 9, 9, 3]);
    assert_eq!(v.len(), 4);
    v.retain(|x: &u64| *x != 9);
    assert_eq!(contents(&v), vec![1, 3]);
    assert_eq!(v.len(), 2);
}

#[test]
fn retain_keeps_order_and_counts() {
    let mut v: MeVec<u64> = MeVec::new();
    v.extend_from_slice(&[1, 2, 3, 4, 5, 6]);
    let cap = v.capacity();
    v.retain(|x: &u64| *x % 2 == 0);
    assert_eq!(contents(&v), vec![2, 4, 6]);
    assert_eq!(v.capacity(), cap);
}

#[test]
fn retain_all_is_a_no_op_and_none_empties() {
    let mut v: MeVec<u64> = MeVec::new();
    v.extend_from_slice(&[1, 2, 3]);
    v.retain(|_x: &u64| true);
    assert_eq!(contents(&v), vec![1, 2, 3]);
    v.retain(|_x: &u64| false);
    assert!(v.is_empty());

    let mut e: MeVec<u64> = MeVec::new();
    e.retain(|_x: &u64| true);
    assert!(e.is_empty());
}

#[test]
fn leak_hands_the_contents_over_unchanged() {
    let mut v: MeVec<u64> = MeVec::new();
    v.extend_from_slice(&[1, 2, 3]);
    let out = v.leak();
    assert_eq!(out, vec![1, 2, 3]);
}

#[test]
fn from_iter_collects_in_order() {
    let v: MeVec<u64> = MeVec::from_iter(vec![3, 1, 2]);
    assert_eq!(contents(&v), vec![3, 1, 2]);
    // Built by repeated pushes, so the capacity grew 1, 2, 4.
    assert_eq!(v.capacity(), 4);
}

#[test]
fn new_repeated_fills_and_reserves_once() {
    let v: MeVec<u64> = MeVec::new_repeated(7, 3);
    assert_eq!(contents(&v), vec![7, 7, 7]);
    assert_eq!(v.capacity(), 4);
    let e: MeVec<u64> = MeVec::new_repeated(7, 0);
    assert_eq!(e.len(), 0);
    assert_eq!(e.capacity(), 0);
}

#[test]
fn as_slice_and_iter_agree() {
    let mut v: MeVec<u64> = MeVec::new();
    v.extend_from_slice(&[4, 5, 6]);
    assert_eq!(v.as_slice(), &[4, 5, 6]);
    let collected: Vec<u64> = v.iter().iter().copied().collect();
    assert_eq!(collected, vec![4, 5, 6]);
}

#[test]
fn mutable_views_write_through() {
    let mut v: MeVec<u64> = MeVec::new();
    v.extend_from_slice(&[1, 2, 3]);
    v.as_mut_slice()[1] = 20;
    assert_eq!(contents(&v), vec![1, 20, 3]);
    for x in v.iter_mut() {
        *x += 1;
    }
    assert_eq!(contents(&v), vec![2, 21, 4]);
}

#[test]
fn allocator_identity_is_kept() {
    let mut v: MeVec<u64, i32> = MeVec::new_in(42);
    assert_eq!(*v.allocator(), 42);
    v.push(1);
    v.reserve(10);
    assert_eq!(*v.allocator(), 42);
    let w: MeVec<u64, i32> = MeVec::with_capacity_in(3, 7);
    assert_eq!(*w.allocator(), 7);
    assert_eq!(w.capacity(), 3);
}

#[test]
fn clone_copies_contents_with_fresh_capacity() {
    let mut v: MeVec<u64> = MeVec::with_capacity(32);
    v.extend_from_slice(&[1, 2, 3]);
    let c = v.clone();
    assert_eq!(contents(&c), vec![1, 2, 3]);
    assert_eq!(c.capacity(), 4);
    assert_eq!(v.capacity(), 32);
}

#[test]
fn default_is_the_empty_container() {
    let v: MeVec<u64> = Default::default();
    assert!(v.is_empty());
    assert_eq!(v.capacity(), 0);
}
