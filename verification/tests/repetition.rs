use mixtex::repetition::check_repetition;

#[test]
fn repeated_pattern_is_degenerate() {
    // Four copies of the pattern [1, 2, 3].
    let seq = vec![1u32, 2, 3, 1, 2, 3, 1, 2, 3, 1, 2, 3];
    assert!(check_repetition(&seq, 4));
}

#[test]
fn repeated_single_token_is_degenerate() {
    let seq = vec![7u32; 10];
    assert!(check_repetition(&seq, 10));
}

#[test]
fn repeated_pattern_with_prefix_is_degenerate() {
    // Only the tail repeats; the prefix is unrelated.
    let seq = vec![9u32, 4, 8, 5, 6, 5, 6, 5, 6];
    assert!(check_repetition(&seq, 3));
}

#[test]
fn strictly_increasing_is_not_degenerate() {
    let seq: Vec<u32> = (0..20).collect();
    assert!(!check_repetition(&seq, 10));
}

#[test]
fn order_sensitivity() {
    // The repeating arrangement of {1, 2} trips the guard...
    assert!(check_repetition(&[1u32, 2, 1, 2, 1, 2], 3));
    // ...but a shuffled arrangement of the same multiset does not.
    assert!(!check_repetition(&[1u32, 2, 2, 1, 1, 2], 3));
    assert!(!check_repetition(&[1u32, 1, 2, 2, 1, 2], 3));
}

#[test]
fn shorter_than_threshold_is_not_degenerate() {
    let seq = vec![5u32, 5, 5];
    assert!(!check_repetition(&seq, 4));
}

#[test]
fn zero_threshold_is_never_degenerate() {
    // Must neither divide by zero nor report degeneracy.
    assert!(!check_repetition(&[1u32, 1, 1, 1], 0));
    assert!(!check_repetition(&[], 0));
}

#[test]
fn threshold_one_counts_any_nonempty_sequence() {
    // One copy of the whole sequence is already a "repetition" of itself.
    assert!(check_repetition(&[3u32, 1, 4], 1));
    assert!(!check_repetition(&[], 1));
}

#[test]
fn shortest_pattern_wins_on_mixed_tail() {
    // The tail repeats with period 2 but not with period 1.
    let seq = vec![1u32, 2, 1, 2, 1, 2, 1, 2];
    assert!(check_repetition(&seq, 4));
    assert!(!check_repetition(&seq, 5));
}
