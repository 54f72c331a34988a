//! Positions of handles inside nested groupings, and declaration order on them.
//!
//! A handle's position is the path of tuple indices that leads to it from the
//! outermost value: the empty path for a handle on its own, `[1, 0]` for the
//! first element of the second element of a tuple.
use vstd::prelude::*;

verus! {

/// `p` is declared before `q`: at the first index where the two paths differ,
/// `p` holds the smaller one. A path never precedes itself, nor a path that
/// extends it.
pub open spec fn precedes(p: Seq<nat>, q: Seq<nat>) -> bool
    decreases p.len(),
{
    if p.len() == 0 || q.len() == 0 {
        false
    } else if p[0] != q[0] {
        p[0] < q[0]
    } else {
        precedes(p.drop_first(), q.drop_first())
    }
}

/// Every path of `s` precedes each path that comes after it in `s`.
pub open spec fn in_declaration_order(s: Seq<Seq<nat>>) -> bool {
    forall|i: int, j: int| 0 <= i < j < s.len() ==> precedes(#[trigger] s[i], #[trigger] s[j])
}

/// A path never precedes itself.
pub proof fn lemma_precedes_irreflexive(p: Seq<nat>)
    ensures
        !precedes(p, p),
    decreases p.len(),
{
    if p.len() > 0 {
        lemma_precedes_irreflexive(p.drop_first());
    }
}

/// Paths listed in declaration order are pairwise distinct.
pub proof fn lemma_in_order_no_duplicates(s: Seq<Seq<nat>>)
    requires
        in_declaration_order(s),
    ensures
        s.no_duplicates(),
{
    assert forall|i: int, j: int| 0 <= i < s.len() && 0 <= j < s.len() && i != j implies s[i]
        != s[j] by {
        if i < j {
            assert(precedes(s[i], s[j]));
        } else {
            assert(precedes(s[j], s[i]));
        }
        lemma_precedes_irreflexive(s[i]);
    }
}

/// The paths of `s`, each moved down under index `k` of an enclosing tuple.
pub open spec fn under(k: nat, s: Seq<Seq<nat>>) -> Seq<Seq<nat>> {
    s.map_values(|p: Seq<nat>| seq![k] + p)
}

/// The release order of a tuple whose elements, in declaration order, have
/// the release orders `parts`: all of the first element's handles, then all
/// of the second's, and so on.
pub open spec fn grouped(parts: Seq<Seq<Seq<nat>>>) -> Seq<Seq<nat>>
    decreases parts.len(),
{
    if parts.len() == 0 {
        Seq::empty()
    } else {
        grouped(parts.drop_last()) + under((parts.len() - 1) as nat, parts.last())
    }
}

/// Two paths under one index compare as the paths themselves do.
pub proof fn lemma_precedes_under(k: nat, p: Seq<nat>, q: Seq<nat>)
    ensures
        precedes(seq![k] + p, seq![k] + q) == precedes(p, q),
{
    assert((seq![k] + p).drop_first() =~= p);
    assert((seq![k] + q).drop_first() =~= q);
}

/// A grouping of parts that are each in declaration order is in declaration
/// order, and each of its paths starts with the index of its part.
pub proof fn lemma_grouped_in_order(parts: Seq<Seq<Seq<nat>>>)
    requires
        forall|i: int| 0 <= i < parts.len() ==> in_declaration_order(#[trigger] parts[i]),
    ensures
        in_declaration_order(grouped(parts)),
        forall|i: int|
            0 <= i < grouped(parts).len() ==> (#[trigger] grouped(parts)[i]).len() > 0
                && grouped(parts)[i][0] < parts.len(),
    decreases parts.len(),
{
    if parts.len() > 0 {
        let init = parts.drop_last();
        let k = (parts.len() - 1) as nat;
        let last = parts.last();
        assert(in_declaration_order(last));
        lemma_grouped_in_order(init);
        let a = grouped(init);
        let b = under(k, last);
        let g = grouped(parts);
        assert(g == a + b);
        assert forall|i: int| 0 <= i < g.len() implies (#[trigger] g[i]).len() > 0 && g[i][0]
            < parts.len() by {
            if i >= a.len() {
                assert(g[i] == seq![k] + last[i - a.len()]);
            }
        }
        assert forall|i: int, j: int| 0 <= i < j < g.len() implies precedes(
            #[trigger] g[i],
            #[trigger] g[j],
        ) by {
            if j < a.len() {
                assert(g[i] == a[i] && g[j] == a[j]);
            } else if i >= a.len() {
                assert(g[i] == seq![k] + last[i - a.len()]);
                assert(g[j] == seq![k] + last[j - a.len()]);
                assert(precedes(last[i - a.len()], last[j - a.len()]));
                lemma_precedes_under(k, last[i - a.len()], last[j - a.len()]);
            } else {
                assert(g[i] == a[i]);
                assert(g[j] == seq![k] + last[j - a.len()]);
                assert(g[j][0] == k);
            }
        }
    }
}

/// A grouping of single handles, each on its own, releases the handle at
/// index `i` as its `i`-th.
pub proof fn lemma_grouped_handles(parts: Seq<Seq<Seq<nat>>>)
    requires
        forall|i: int| 0 <= i < parts.len() ==> #[trigger] parts[i] == seq![Seq::<nat>::empty()],
    ensures
        grouped(parts) == handles(parts.len()),
    decreases parts.len(),
{
    if parts.len() > 0 {
        let init = parts.drop_last();
        let k = (parts.len() - 1) as nat;
        lemma_grouped_handles(init);
        assert(parts.last() == parts[k as int]);
        assert(seq![k] + Seq::<nat>::empty() =~= seq![k]);
        assert(grouped(parts) =~= handles(parts.len()));
    }
}

/// The release order of `n` handles grouped side by side: `[0], [1], ..., [n - 1]`.
pub open spec fn handles(n: nat) -> Seq<Seq<nat>> {
    Seq::new(n, |i: int| seq![i as nat])
}

/// The paths of `s`, each moved down under the path `prefix`.
pub open spec fn placed(prefix: Seq<nat>, s: Seq<Seq<nat>>) -> Seq<Seq<nat>> {
    s.map_values(|p: Seq<nat>| prefix + p)
}

/// Placed under the empty path, paths are unchanged.
pub proof fn lemma_placed_at_root(s: Seq<Seq<nat>>)
    ensures
        placed(Seq::empty(), s) == s,
{
    assert forall|i: int| 0 <= i < s.len() implies Seq::<nat>::empty() + s[i] == s[i] by {
        assert(Seq::<nat>::empty() + s[i] =~= s[i]);
    }
    assert(placed(Seq::empty(), s) =~= s);
}

/// Nothing released yet: a log that has gained the handles of no part is unchanged.
pub proof fn lemma_log_start(
    start: Seq<Seq<nat>>,
    prefix: Seq<nat>,
    parts: Seq<Seq<Seq<nat>>>,
)
    ensures
        start + placed(prefix, grouped(parts.take(0))) == start,
{
    assert(parts.take(0) =~= Seq::empty());
    assert(start + placed(prefix, grouped(parts.take(0))) =~= start);
}

/// A log that holds, under `prefix`, the handles of the first `k` tuple
/// elements `parts`, and then gains those of element `k` under its index,
/// holds the handles of the first `k + 1` elements.
pub proof fn lemma_log_step(
    start: Seq<Seq<nat>>,
    prefix: Seq<nat>,
    parts: Seq<Seq<Seq<nat>>>,
    k: nat,
)
    requires
        k < parts.len(),
    ensures
        start + placed(prefix, grouped(parts.take(k as int))) + placed(
            prefix.push(k),
            parts[k as int],
        ) == start + placed(prefix, grouped(parts.take(k as int + 1))),
        k + 1 == parts.len() ==> parts.take(k as int + 1) == parts,
{
    assert(parts.take(k as int).push(parts[k as int]) =~= parts.take(k as int + 1));
    assert(parts.take(k as int).len() == k);
    lemma_log_next(start, prefix, parts.take(k as int), parts[k as int]);
    if k + 1 == parts.len() {
        assert(parts.take(k as int + 1) =~= parts);
    }
}

/// A log that holds, under `prefix`, the handles of the tuple elements
/// `parts`, and then gains the handles of the next element under its index,
/// holds the handles of `parts.push(next)` under `prefix`.
pub proof fn lemma_log_next(
    start: Seq<Seq<nat>>,
    prefix: Seq<nat>,
    parts: Seq<Seq<Seq<nat>>>,
    next: Seq<Seq<nat>>,
)
    ensures
        start + placed(prefix, grouped(parts)) + placed(prefix.push(parts.len() as nat), next)
            == start + placed(prefix, grouped(parts.push(next))),
{
    let k = parts.len() as nat;
    let all = parts.push(next);
    assert(all.drop_last() =~= parts);
    assert(all.last() == next);
    let a = placed(prefix, grouped(parts));
    let b = placed(prefix.push(k), next);
    let g = placed(prefix, grouped(all));
    assert(grouped(all) == grouped(parts) + under(k, next));
    assert(g.len() == a.len() + b.len());
    assert forall|i: int| 0 <= i < a.len() implies #[trigger] g[i] == a[i] by {
        assert(grouped(all)[i] == grouped(parts)[i]);
    }
    assert forall|i: int| a.len() <= i < g.len() implies #[trigger] g[i] == b[i - a.len()] by {
        assert(grouped(all)[i] == under(k, next)[i - a.len()]);
        assert(prefix + (seq![k] + next[i - a.len()]) =~= prefix.push(k) + next[i - a.len()]);
    }
    assert(g =~= a + b);
    assert(start + a + b =~= start + g);
}

} // verus!
