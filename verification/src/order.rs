//! Ordering: texts compared character by character, and a stable sort.

use vstd::prelude::*;
use crate::text::to_chars;

verus! {

/// Whether text `a` comes before or is `b`: character by character, a prefix
/// before what extends it.
pub open spec fn text_le(a: Seq<char>, b: Seq<char>) -> bool
    decreases a.len(),
{
    if a.len() == 0 {
        true
    } else if b.len() == 0 {
        false
    } else if a[0] != b[0] {
        a[0] < b[0]
    } else {
        text_le(a.drop_first(), b.drop_first())
    }
}

/// Whether `le` orders all values: reflexive, total and transitive. Distinct
/// values may rank the same.
pub open spec fn is_ranking<T>(le: spec_fn(T, T) -> bool) -> bool {
    &&& forall|a: T, b: T| #[trigger] le(a, b) || le(b, a)
    &&& forall|a: T, b: T, c: T| #[trigger] le(a, b) && #[trigger] le(b, c) ==> le(a, c)
}

/// Whether `p` lists each of `0..n` once.
pub open spec fn is_arrangement(p: Seq<int>, n: nat) -> bool {
    &&& p.len() == n
    &&& forall|i: int| 0 <= i < n ==> 0 <= #[trigger] p[i] < n
    &&& forall|i: int, j: int| 0 <= i < j < n ==> p[i] != p[j]
}

/// Whether `output` is `input` rearranged by `p` into rank order, values of the
/// same rank staying in the order they came in.
pub open spec fn arranged<T>(
    input: Seq<T>,
    output: Seq<T>,
    le: spec_fn(T, T) -> bool,
    p: Seq<int>,
) -> bool {
    &&& is_arrangement(p, input.len())
    &&& output.len() == input.len()
    &&& forall|i: int| 0 <= i < output.len() ==> #[trigger] output[i] == input[p[i]]
    &&& forall|i: int, j: int|
        0 <= i < j < output.len() ==> le(output[i], output[j]) && (le(output[j], output[i])
            ==> p[i] < p[j])
}

/// Whether `output` is the stable sort of `input` by `le`.
pub open spec fn stably_sorted<T>(input: Seq<T>, output: Seq<T>, le: spec_fn(T, T) -> bool) -> bool {
    exists|p: Seq<int>| #[trigger] arranged(input, output, le, p)
}

/// Whether text `a` comes before or is `b`.
pub fn text_at_most(a: &str, b: &str) -> (r: bool)
    ensures
        r == text_le(a@, b@),
{
    let x = to_chars(a);
    let y = to_chars(b);
    let mut i: usize = 0;
    assert(x@.skip(0) =~= a@);
    assert(y@.skip(0) =~= b@);
    while i < x.len() && i < y.len() && x[i] == y[i]
        invariant
            x@ == a@,
            y@ == b@,
            i <= x@.len(),
            i <= y@.len(),
            text_le(a@, b@) == text_le(x@.skip(i as int), y@.skip(i as int)),
        decreases x@.len() - i,
    {
        assert(x@.skip(i as int).drop_first() =~= x@.skip(i + 1));
        assert(y@.skip(i as int).drop_first() =~= y@.skip(i + 1));
        i += 1;
    }
    if i >= x.len() {
        true
    } else if i >= y.len() {
        false
    } else {
        x[i] < y[i]
    }
}

/// Texts are ranked by [`text_le`], and two that rank the same are the same.
pub proof fn lemma_text_order(a: Seq<char>, b: Seq<char>, c: Seq<char>)
    ensures
        text_le(a, a),
        text_le(a, b) || text_le(b, a),
        text_le(a, b) && text_le(b, a) ==> a == b,
        text_le(a, b) && text_le(b, c) ==> text_le(a, c),
    decreases a.len() + b.len() + c.len(),
{
    if a.len() > 0 && b.len() > 0 && c.len() > 0 {
        lemma_text_order(a.drop_first(), b.drop_first(), c.drop_first());
    } else if a.len() > 0 && b.len() > 0 {
        lemma_text_order(a.drop_first(), b.drop_first(), c);
    } else if a.len() > 0 {
        lemma_text_order(a.drop_first(), b, c);
    }
    if a.len() > 0 && b.len() > 0 && text_le(a, b) && text_le(b, a) {
        assert(a.drop_first() == b.drop_first());
        assert(a =~= seq![a[0]] + a.drop_first());
        assert(b =~= seq![b[0]] + b.drop_first());
    }
    if a.len() == 0 && b.len() == 0 {
        assert(a =~= b);
    }
}

/// What a filter keeps: the values of the list that pass.
pub proof fn lemma_filter_members<A>(s: Seq<A>, keep: spec_fn(A) -> bool, x: A)
    ensures
        s.filter(keep).contains(x) <==> s.contains(x) && keep(x),
    decreases s.len(),
{
    reveal(Seq::filter);
    if s.len() > 0 {
        let t = s.drop_last();
        lemma_filter_members(t, keep, x);
        assert(s =~= t.push(s.last()));
        let f = t.filter(keep);
        if s.contains(x) && keep(x) {
            let k = choose|k: int| 0 <= k < s.len() && s[k] == x;
            if k < t.len() {
                assert(t[k] == x);
                let i = choose|i: int| 0 <= i < f.len() && f[i] == x;
                if keep(s.last()) {
                    assert(f.push(s.last())[i] == x);
                }
            } else {
                assert(f.push(s.last())[f.len() as int] == x);
            }
        }
        if s.filter(keep).contains(x) {
            let i = choose|i: int| 0 <= i < s.filter(keep).len() && s.filter(keep)[i] == x;
            if i < f.len() {
                assert(f[i] == x);
                let k = choose|k: int| 0 <= k < t.len() && t[k] == x;
                assert(s[k] == x);
            } else {
                assert(s[s.len() - 1] == x);
            }
        }
    } else {
        assert(s.filter(keep) =~= s);
    }
}

/// Sorts `v` by the ranking `le`, which `at_most` computes; values of the same rank
/// stay in order.
pub(crate) fn sort_stable<T, F: Fn(&T, &T) -> bool>(
    v: Vec<T>,
    at_most: F,
    Ghost(le): Ghost<spec_fn(T, T) -> bool>,
) -> (out: Vec<T>)
    requires
        is_ranking(le),
        forall|a: &T, b: &T| call_requires(at_most, (a, b)),
        forall|a: &T, b: &T, r: bool| call_ensures(at_most, (a, b), r) ==> r == le(*a, *b),
    ensures
        stably_sorted(v@, out@, le),
{
    let ghost input = v@;
    let mut rest = v;
    let mut out: Vec<T> = Vec::new();
    // `p` holds the input positions of what is in `out`.
    let ghost mut p: Seq<int> = Seq::empty();
    while rest.len() > 0
        invariant
            is_ranking(le),
            forall|a: &T, b: &T| call_requires(at_most, (a, b)),
            forall|a: &T, b: &T, r: bool| call_ensures(at_most, (a, b), r) ==> r == le(*a, *b),
            rest@.len() + out@.len() == input.len(),
            rest@ == input.take(rest@.len() as int),
            p.len() == out@.len(),
            forall|i: int| 0 <= i < p.len() ==> rest@.len() <= #[trigger] p[i] < input.len(),
            forall|i: int, j: int| 0 <= i < j < p.len() ==> p[i] != p[j],
            forall|i: int| 0 <= i < p.len() ==> #[trigger] out@[i] == input[p[i]],
            forall|i: int, j: int|
                0 <= i < j < p.len() ==> le(out@[i], out@[j]) && (le(out@[j], out@[i]) ==> p[i]
                    < p[j]),
        decreases rest@.len(),
    {
        let ghost m = rest@.len() - 1;
        let x = rest.pop().unwrap();
        assert(x == input[m]);
        let mut k: usize = 0;
        while k < out.len() && !at_most(&x, &out[k])
            invariant
                k <= out@.len(),
                forall|a: &T, b: &T| call_requires(at_most, (a, b)),
                forall|a: &T, b: &T, r: bool| call_ensures(at_most, (a, b), r) ==> r == le(*a, *b),
                forall|i: int| 0 <= i < k ==> !le(x, #[trigger] out@[i]),
            decreases out@.len() - k,
        {
            k += 1;
        }
        let ghost before = out@;
        let ghost q = p;
        out.insert(k, x);
        proof {
            p = q.insert(k as int, m);
            assert(out@ == before.insert(k as int, x));
            assert forall|i: int, j: int| 0 <= i < j < p.len() implies le(out@[i], out@[j]) && (le(
                out@[j],
                out@[i],
            ) ==> p[i] < p[j]) by {
                let a = if i < k { i } else { i - 1 };
                let b = if j < k { j } else { j - 1 };
                if i != k && j != k {
                    assert(out@[i] == before[a] && out@[j] == before[b]);
                    assert(p[i] == q[a] && p[j] == q[b]);
                } else if i == k {
                    assert(out@[j] == before[b]);
                    assert(le(x, before[k as int]));
                    if b > k {
                        assert(le(before[k as int], before[b]));
                    }
                    assert(p[j] == q[b]);
                } else {
                    assert(out@[i] == before[i]);
                    assert(!le(x, before[i]));
                    assert(le(before[i], x) || le(x, before[i]));
                }
            }
            assert forall|i: int, j: int| 0 <= i < j < p.len() implies p[i] != p[j] by {
                let a = if i < k { i } else { i - 1 };
                let b = if j < k { j } else { j - 1 };
                if i != k && j != k {
                    assert(q[a] != q[b]);
                } else if i == k {
                    assert(q[b] >= m + 1);
                } else {
                    assert(q[a] >= m + 1);
                }
            }
        }
    }
    proof {
        assert(arranged(input, out@, le, p));
    }
    out
}

// ---------------------------------------------------------------------------
// Laws
// ---------------------------------------------------------------------------

/// A stable sort keeps exactly the values it was given: whatever is in the result
/// was in the input, and the other way round.
pub proof fn law_sorting_keeps_the_values<T>(
    input: Seq<T>,
    output: Seq<T>,
    le: spec_fn(T, T) -> bool,
    x: T,
)
    requires
        stably_sorted(input, output, le),
    ensures
        output.len() == input.len(),
        input.contains(x) <==> output.contains(x),
{
    let p = choose|p: Seq<int>| #[trigger] arranged(input, output, le, p);
    if output.contains(x) {
        let i = choose|i: int| 0 <= i < output.len() && output[i] == x;
        assert(input[p[i]] == x);
    }
    if input.contains(x) {
        let k = choose|k: int| 0 <= k < input.len() && input[k] == x;
        let i = lemma_arrangement_onto(p, input.len(), k);
        assert(output[i] == input[p[i]]);
    }
}

/// An arrangement of `0..n` reaches every position.
proof fn lemma_arrangement_onto(p: Seq<int>, n: nat, k: int) -> (i: int)
    requires
        is_arrangement(p, n),
        0 <= k < n,
    ensures
        0 <= i < n,
        p[i] == k,
{
    if !p.contains(k) {
        assert(p.no_duplicates()) by {
            assert forall|i: int, j: int| 0 <= i < p.len() && 0 <= j < p.len() && i != j implies p[i]
                != p[j] by {
                if i < j {
                    assert(p[i] != p[j]);
                } else {
                    assert(p[j] != p[i]);
                }
            }
        }
        let s = p.to_set();
        let all = vstd::set_lib::set_int_range(0, n as int);
        vstd::set_lib::lemma_int_range(0, n as int);
        p.unique_seq_to_set();
        assert(s.subset_of(all.remove(k))) by {
            assert forall|x: int| s.contains(x) implies all.remove(k).contains(x) by {
                let i = choose|i: int| 0 <= i < p.len() && p[i] == x;
                assert(0 <= p[i] < n);
            }
        }
        vstd::set_lib::lemma_len_subset(s, all.remove(k));
        assert(false);
    }
    choose|i: int| 0 <= i < p.len() && p[i] == k
}

/// The stable sort of a list is unique: two lists that are both the stable sort of
/// the same input are equal.
pub proof fn law_stable_sort_is_unique<T>(
    input: Seq<T>,
    a: Seq<T>,
    b: Seq<T>,
    le: spec_fn(T, T) -> bool,
)
    requires
        is_ranking(le),
        stably_sorted(input, a, le),
        stably_sorted(input, b, le),
    ensures
        a == b,
{
    let p = choose|p: Seq<int>| #[trigger] arranged(input, a, le, p);
    let q = choose|q: Seq<int>| #[trigger] arranged(input, b, le, q);
    assert forall|i: int| 0 <= i < a.len() implies p[i] == q[i] by {
        lemma_same_place(input, a, b, le, p, q, i);
    }
    assert(a =~= b);
}

proof fn lemma_same_place<T>(
    input: Seq<T>,
    a: Seq<T>,
    b: Seq<T>,
    le: spec_fn(T, T) -> bool,
    p: Seq<int>,
    q: Seq<int>,
    i: int,
)
    requires
        is_ranking(le),
        arranged(input, a, le, p),
        arranged(input, b, le, q),
        0 <= i < a.len(),
    ensures
        p[i] == q[i],
    decreases i,
{
    if p[i] != q[i] {
        assert forall|h: int| 0 <= h < i implies p[h] == q[h] by {
            lemma_same_place(input, a, b, le, p, q, h);
        }
        // Each list holds the other's value further on, so each ranks first.
        let j = lemma_arrangement_onto(q, input.len(), p[i]);
        let h = lemma_arrangement_onto(p, input.len(), q[i]);
        assert(j > i) by {
            if j < i {
                assert(p[j] == q[j]);
            }
        }
        assert(h > i) by {
            if h < i {
                assert(p[h] == q[h]);
            }
        }
        assert(b[j] == input[p[i]] && b[i] == input[q[i]]);
        assert(a[h] == input[q[i]] && a[i] == input[p[i]]);
        assert(le(b[i], b[j]));
        assert(le(a[i], a[h]));
        assert(q[i] < q[j]);
        assert(p[i] < p[h]);
        assert(false);
    }
}

/// Texts are ordered by the first character in which they differ, and a text comes before
/// those that it begins.
pub proof fn law_texts_are_ordered_by_their_first_difference(a: &str, b: &str, r: bool, k: int)
    requires
        call_ensures(text_at_most, (a, b), r),
        0 <= k <= a@.len(),
        k <= b@.len(),
        a@.take(k) == b@.take(k),
    ensures
        k == a@.len() ==> r,
        k == b@.len() && k < a@.len() ==> !r,
        k < a@.len() && k < b@.len() && a@[k] < b@[k] ==> r,
        k < a@.len() && k < b@.len() && a@[k] > b@[k] ==> !r,
{
    lemma_first_difference(a@, b@, k);
}

proof fn lemma_first_difference(a: Seq<char>, b: Seq<char>, k: int)
    requires
        0 <= k <= a.len(),
        k <= b.len(),
        a.take(k) == b.take(k),
    ensures
        k == a.len() ==> text_le(a, b),
        k == b.len() && k < a.len() ==> !text_le(a, b),
        k < a.len() && k < b.len() && a[k] < b[k] ==> text_le(a, b),
        k < a.len() && k < b.len() && a[k] > b[k] ==> !text_le(a, b),
    decreases k,
{
    if k > 0 {
        let (c, d) = (a.drop_first(), b.drop_first());
        assert(a.take(k)[0] == a[0] && b.take(k)[0] == b[0]);
        assert(c.take(k - 1) =~= a.take(k).drop_first());
        assert(d.take(k - 1) =~= b.take(k).drop_first());
        lemma_first_difference(c, d, k - 1);
    }
}

} // verus!
