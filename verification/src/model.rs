//! Sequence-level models of the container's bulk operations, and the laws
//! that relate them to the plain `Seq` operations.

use vstd::prelude::*;
use vstd::seq_lib::group_seq_properties;

verus! {

/// The elements of `s` whose matching entry in `d` is true, in order.
/// This is the model of `retain`: `d` records what the predicate decided
/// for each element.
pub open spec fn filter_by<T>(s: Seq<T>, d: Seq<bool>) -> Seq<T>
    recommends
        d.len() == s.len(),
    decreases s.len(),
{
    if s.len() == 0 {
        Seq::empty()
    } else {
        let rest = filter_by(s.drop_last(), d.drop_last());
        if d.len() == s.len() && d.last() {
            rest.push(s.last())
        } else {
            rest
        }
    }
}

/// How many entries of `d` are true.
pub open spec fn count_true(d: Seq<bool>) -> nat
    decreases d.len(),
{
    if d.len() == 0 {
        0
    } else {
        count_true(d.drop_last()) + if d.last() {
            1nat
        } else {
            0nat
        }
    }
}

/// Appending one element and one decision extends the filtered result by the
/// element exactly when the decision is true.
pub proof fn lemma_filter_by_push<T>(s: Seq<T>, d: Seq<bool>, x: T, b: bool)
    requires
        d.len() == s.len(),
    ensures
        filter_by(s.push(x), d.push(b)) == if b {
            filter_by(s, d).push(x)
        } else {
            filter_by(s, d)
        },
{
    assert(s.push(x).drop_last() =~= s);
    assert(d.push(b).drop_last() =~= d);
}

/// When each decision agrees with a predicate on the matching element,
/// the filtered result is exactly `Seq::filter` of that predicate: `retain`
/// keeps the satisfying elements, in their original relative order.
pub proof fn lemma_filter_by_matches<T>(s: Seq<T>, d: Seq<bool>, p: spec_fn(T) -> bool)
    requires
        d.len() == s.len(),
        forall|i: int| 0 <= i < s.len() ==> d[i] == p(s[i]),
    ensures
        filter_by(s, d) == s.filter(p),
    decreases s.len(),
{
    reveal(Seq::filter);
    if s.len() > 0 {
        lemma_filter_by_matches(s.drop_last(), d.drop_last(), p);
    }
}

/// The filtered result has one element per true decision: `retain` leaves
/// the container with length equal to the count of kept elements.
pub proof fn lemma_filter_by_len<T>(s: Seq<T>, d: Seq<bool>)
    requires
        d.len() == s.len(),
    ensures
        filter_by(s, d).len() == count_true(d),
    decreases s.len(),
{
    if s.len() > 0 {
        lemma_filter_by_len(s.drop_last(), d.drop_last());
    }
}

/// Keeping everything changes nothing: `retain` with an always-true
/// predicate is a no-op on the contents.
pub proof fn lemma_filter_by_all_true<T>(s: Seq<T>, d: Seq<bool>)
    requires
        d.len() == s.len(),
        forall|i: int| 0 <= i < d.len() ==> d[i],
    ensures
        filter_by(s, d) == s,
    decreases s.len(),
{
    if s.len() > 0 {
        lemma_filter_by_all_true(s.drop_last(), d.drop_last());
        assert(filter_by(s, d) =~= s);
    }
}

/// Where a range splice starts once clamped: a start beyond the current
/// length is pulled back to the length.
pub open spec fn clamp_off(len: int, start: int) -> int {
    if start <= len {
        start
    } else {
        len
    }
}

/// How many elements a range splice deletes once clamped: never more than
/// the elements from the clamped start to the end of the contents.
pub open spec fn clamp_del(len: int, start: int, end: int) -> int {
    let off = clamp_off(len, start);
    let raw = if end >= off {
        end - off
    } else {
        0
    };
    if raw <= len - off {
        raw
    } else {
        len - off
    }
}

/// The length of the contents after a range splice.
pub open spec fn splice_len(len: int, start: int, end: int, src_len: int) -> int {
    len - clamp_del(len, start, end) + src_len
}

/// The reference model of `replace_range`: delete the (clamped) range
/// `start..end` from `s` and insert `src` in its place.
pub open spec fn spliced<T>(s: Seq<T>, start: int, end: int, src: Seq<T>) -> Seq<T> {
    let off = clamp_off(s.len() as int, start);
    let del = clamp_del(s.len() as int, start, end);
    s.take(off) + src + s.skip(off + del)
}

/// The spliced contents have the spliced length.
pub proof fn lemma_spliced_len<T>(s: Seq<T>, start: int, end: int, src: Seq<T>)
    requires
        0 <= start,
    ensures
        spliced(s, start, end, src).len() == splice_len(
            s.len() as int,
            start,
            end,
            src.len() as int,
        ),
{
    let off = clamp_off(s.len() as int, start);
    let del = clamp_del(s.len() as int, start, end);
    assert(s.take(off).len() == off);
    assert(s.skip(off + del).len() == s.len() - off - del);
}

/// The contents after pushing every element of `items` in order, starting
/// from contents `s`.
pub open spec fn pushed_all<T>(s: Seq<T>, items: Seq<T>) -> Seq<T>
    decreases items.len(),
{
    if items.len() == 0 {
        s
    } else {
        pushed_all(s.push(items[0]), items.skip(1))
    }
}

/// Repeated single pushes append the pushed elements in order; in
/// particular, after pushing `items` onto an empty container the contents
/// are exactly `items`, and the length equals the number of pushes.
pub proof fn lemma_pushed_all<T>(s: Seq<T>, items: Seq<T>)
    ensures
        pushed_all(s, items) == s + items,
    decreases items.len(),
{
    broadcast use group_seq_properties;

    if items.len() == 0 {
        assert(pushed_all(s, items) =~= s + items);
    } else {
        lemma_pushed_all(s.push(items[0]), items.skip(1));
        assert(s.push(items[0]) + items.skip(1) =~= s + items);
    }
}

} // verus!
