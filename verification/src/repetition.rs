//! Repetition guard: decides whether the tail of a token sequence is a
//! degenerate repeating pattern, so that a generation run can be stopped
//! before it loops unbounded.

use vstd::prelude::*;

verus! {

use vstd::arithmetic::div_mod::{
    lemma_fundamental_div_mod, lemma_mod_bound, lemma_mod_multiples_vanish, lemma_small_mod,
};
use vstd::arithmetic::mul::lemma_mul_inequality;

/// The trailing window of length `w` of a sequence.
pub open spec fn tail_window(s: Seq<u32>, w: int) -> Seq<u32> {
    s.subrange(s.len() - w, s.len() as int)
}

/// `t` is made of consecutive copies of its first `k` elements: every
/// element equals the element at the same offset within the first chunk.
pub open spec fn repeats_with_period(t: Seq<u32>, k: int) -> bool {
    forall|m: int| 0 <= m < t.len() ==> #[trigger] t[m] == t[m % k]
}

/// The trailing window of `k * reps` elements of `s` is `reps` consecutive
/// copies of one pattern of length `k`.
pub open spec fn degenerate_with(s: Seq<u32>, k: int, reps: int) -> bool {
    repeats_with_period(tail_window(s, k * reps), k)
}

/// A sequence is degenerate for repeat threshold `reps` when, for some
/// pattern length `k`, its trailing window of `k * reps` elements consists
/// of `reps` consecutive copies of one pattern of length `k`.  A threshold
/// of zero, or a sequence shorter than the threshold, is never degenerate.
pub open spec fn is_degenerate(s: Seq<u32>, reps: int) -> bool {
    &&& 1 <= reps <= s.len()
    &&& exists|k: int| 1 <= k <= s.len() as int / reps && #[trigger] degenerate_with(s, k, reps)
}

/// Decides whether the tail of `arr` is a degenerate repeating pattern:
/// the shortest candidate pattern length is tried first, and the result is
/// exactly `is_degenerate`.  A repeat threshold of zero is treated as
/// "never degenerate" rather than as a division by zero.
pub fn check_repetition(arr: &[u32], repeats: usize) -> (r: bool)
    ensures
        r == is_degenerate(arr@, repeats as int),
{
    let n = arr.len();
    if repeats == 0 || n < repeats {
        return false;
    }
    let max_k = n / repeats;
    let mut kk: usize = 0;
    while kk < max_k
        invariant
            0 <= kk <= max_k,
            1 <= repeats <= n,
            n == arr@.len(),
            max_k == n as int / repeats as int,
            forall|k2: int| 1 <= k2 <= kk ==> !#[trigger] degenerate_with(arr@, k2, repeats as int),
        decreases max_k - kk,
    {
        let k = kk + 1;
        proof {
            lemma_fundamental_div_mod(n as int, repeats as int);
            lemma_mod_bound(n as int, repeats as int);
            lemma_mul_inequality(k as int, max_k as int, repeats as int);
            assert((max_k as int) * (repeats as int) == (repeats as int) * (max_k as int))
                by (nonlinear_arith);
            assert((k as int) * (repeats as int) <= n);
            assert(k as int <= (k as int) * (repeats as int)) by (nonlinear_arith)
                requires
                    1 <= k,
                    1 <= repeats,
            ;
        }
        let total = k * repeats;
        let base = n - total;
        let ghost t = tail_window(arr@, total as int);
        assert(t.len() == total);
        let mut m: usize = k;
        let mut ok = true;
        while m < total && ok
            invariant
                k <= m <= total,
                1 <= k <= total,
                total == (k as int) * (repeats as int),
                total <= n,
                base == n - total,
                n == arr@.len(),
                t == tail_window(arr@, total as int),
                t.len() == total,
                ok ==> forall|m2: int| k <= m2 < m ==> #[trigger] t[m2] == t[m2 % (k as int)],
                !ok ==> !degenerate_with(arr@, k as int, repeats as int),
            decreases total - m,
        {
            let j = m % k;
            assert(j < k);
            assert(t[m as int] == arr@[base + m]);
            assert(t[j as int] == arr@[base + j]);
            if arr[base + m] != arr[base + j] {
                proof {
                    assert(j as int == (m as int) % (k as int));
                    assert(!degenerate_with(arr@, k as int, repeats as int)) by {
                        if repeats_with_period(t, k as int) {
                            assert(t[m as int] == t[(m as int) % (k as int)]);
                        }
                    }
                }
                ok = false;
            }
            m = m + 1;
        }
        if ok {
            proof {
                assert forall|m2: int| 0 <= m2 < t.len() implies #[trigger] t[m2] == t[m2 % (
                k as int)] by {
                    if m2 < k {
                        lemma_small_mod(m2 as nat, k as nat);
                    }
                }
                assert(repeats_with_period(tail_window(arr@, (k as int) * (repeats as int)), k as int));
                assert(degenerate_with(arr@, k as int, repeats as int));
            }
            return true;
        }
        kk = k;
    }
    false
}

/// `pat` concatenated `count` times.
pub open spec fn repeat_seq(pat: Seq<u32>, count: int) -> Seq<u32>
    decreases count,
{
    if count <= 0 {
        Seq::empty()
    } else {
        repeat_seq(pat, count - 1) + pat
    }
}

/// The length of `count` concatenated copies of `pat` is `count` times the
/// length of `pat`.
pub proof fn lemma_repeat_seq_len(pat: Seq<u32>, count: int)
    requires
        count >= 0,
    ensures
        repeat_seq(pat, count).len() == count * pat.len(),
    decreases count,
{
    let l = pat.len() as int;
    if count <= 0 {
        assert(repeat_seq(pat, count).len() == 0);
        assert(count * l == 0) by (nonlinear_arith)
            requires
                count == 0,
        ;
    } else {
        lemma_repeat_seq_len(pat, count - 1);
        assert(repeat_seq(pat, count).len() == (count - 1) * l + l);
        assert((count - 1) * l + l == count * l) by (nonlinear_arith);
    }
}

/// Every element of `count` concatenated copies of `pat` is the element of
/// `pat` at the index reduced modulo the pattern length.
pub proof fn lemma_repeat_seq_index(pat: Seq<u32>, count: int, m: int)
    requires
        count >= 0,
        pat.len() >= 1,
        0 <= m < count * pat.len(),
    ensures
        repeat_seq(pat, count)[m] == pat[m % (pat.len() as int)],
    decreases count,
{
    let l = pat.len() as int;
    lemma_repeat_seq_len(pat, count);
    if count > 0 {
        lemma_repeat_seq_len(pat, count - 1);
        if m < (count - 1) * l {
            lemma_repeat_seq_index(pat, count - 1, m);
        } else {
            assert((count - 1) * l + l == count * l) by (nonlinear_arith);
            assert(repeat_seq(pat, count)[m] == pat[m - (count - 1) * l]);
            lemma_mod_multiples_vanish(count - 1, m - (count - 1) * l, l);
            assert(l * (count - 1) + (m - (count - 1) * l) == m) by (nonlinear_arith);
            lemma_small_mod((m - (count - 1) * l) as nat, l as nat);
        }
    }
}

/// Law: any sequence that is exactly `reps` concatenated copies of a
/// nonempty pattern is reported degenerate for repeat threshold `reps`.
pub proof fn lemma_repeated_copies_degenerate(pat: Seq<u32>, reps: int)
    requires
        pat.len() >= 1,
        reps >= 1,
    ensures
        is_degenerate(repeat_seq(pat, reps), reps),
{
    let s = repeat_seq(pat, reps);
    let l = pat.len() as int;
    lemma_repeat_seq_len(pat, reps);
    assert(s.len() == reps * l);
    assert(l * reps == reps * l) by (nonlinear_arith);
    assert(s.len() >= reps) by (nonlinear_arith)
        requires
            s.len() == reps * l,
            l >= 1,
            reps >= 1,
    ;
    let w = tail_window(s, l * reps);
    assert(w =~= s);
    assert forall|m: int| 0 <= m < w.len() implies #[trigger] w[m] == w[m % l] by {
        lemma_repeat_seq_index(pat, reps, m);
        lemma_mod_bound(m, l);
        lemma_repeat_seq_index(pat, reps, m % l);
        lemma_mod_bound(m % l, l);
        lemma_small_mod((m % l) as nat, l as nat);
    }
    assert(degenerate_with(s, l, reps));
    vstd::arithmetic::div_mod::lemma_div_multiples_vanish(l, reps);
    assert(s.len() as int / reps == l);
}

/// Law: degeneracy is judged on the trailing window alone — whatever is
/// prepended to a degenerate sequence, the result stays degenerate, since
/// only the tail is inspected.  (The order-sensitive converse — that a
/// rearranged or reversed tail stops being degenerate — admits no general
/// statement, because a rearrangement may happen to repeat again; tests
/// exercise it on concrete values.)
pub proof fn lemma_degenerate_depends_on_tail(prefix: Seq<u32>, s: Seq<u32>, reps: int)
    requires
        is_degenerate(s, reps),
    ensures
        is_degenerate(prefix + s, reps),
{
    let n = s.len() as int;
    let whole = prefix + s;
    let k = choose|k: int| 1 <= k <= n / reps && #[trigger] degenerate_with(s, k, reps);
    lemma_fundamental_div_mod(n, reps);
    lemma_mod_bound(n, reps);
    lemma_mul_inequality(k, n / reps, reps);
    assert((n / reps) * reps == reps * (n / reps)) by (nonlinear_arith);
    assert(k * reps <= n);
    assert(0 <= k * reps) by (nonlinear_arith)
        requires
            k >= 1,
            reps >= 1,
    ;
    assert(tail_window(whole, k * reps) =~= tail_window(s, k * reps));
    assert(degenerate_with(whole, k, reps));
    vstd::arithmetic::div_mod::lemma_div_is_ordered(n, whole.len() as int, reps);
}

/// A sequence is strictly increasing: later elements are strictly larger.
pub open spec fn strictly_increasing(s: Seq<u32>) -> bool {
    forall|a: int, b: int| 0 <= a < b < s.len() ==> s[a] < s[b]
}

/// Law: a strictly increasing sequence is never reported degenerate, for
/// any repeat threshold of at least two.  (For a threshold of one, any
/// nonempty sequence counts as one copy of itself, so the guard trips;
/// that threshold is excluded here.)
pub proof fn lemma_strictly_increasing_not_degenerate(s: Seq<u32>, reps: int)
    requires
        strictly_increasing(s),
        reps >= 2,
    ensures
        !is_degenerate(s, reps),
{
    let n = s.len() as int;
    if n >= reps {
        assert forall|k: int| 1 <= k <= n / reps implies !#[trigger] degenerate_with(s, k, reps) by {
            lemma_fundamental_div_mod(n, reps);
            lemma_mod_bound(n, reps);
            lemma_mul_inequality(k, n / reps, reps);
            assert((n / reps) * reps == reps * (n / reps)) by (nonlinear_arith);
            assert(k * reps <= n);
            assert(k * 2 <= k * reps) by (nonlinear_arith)
                requires
                    k >= 1,
                    reps >= 2,
            ;
            let t = tail_window(s, k * reps);
            assert(t.len() == k * reps);
            if repeats_with_period(t, k) {
                assert(t[k] == t[k % k]);
                vstd::arithmetic::div_mod::lemma_mod_self_0(k);
                assert(t[k] == t[0]);
                assert(t[k] == s[n - k * reps + k]);
                assert(t[0] == s[n - k * reps]);
                assert(s[n - k * reps] < s[n - k * reps + k]);
            }
        }
    }
}

} // verus!
