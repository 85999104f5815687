//! Turning raw search results into the displayed list of spin recommendations.
use vstd::prelude::*;

verus! {

/// One placement in a candidate line of play.
#[derive(Clone, Copy, Debug, PartialEq, Eq, Structural)]
pub struct PlacedMove {
    /// The move ended in a rotation.
    pub spun: bool,
    /// The rules engine classed the placement as a spin.
    pub spin: bool,
    pub lines_cleared: u8,
}

/// A search outcome: its score and its moves, in order of play.
#[derive(Debug)]
pub struct SpinCandidate {
    pub score: i64,
    pub moves: Vec<PlacedMove>,
}

/// The first move that clears lines exists and ended in a rotation.
pub open spec fn first_clear_spun(ms: Seq<PlacedMove>) -> bool
    decreases ms.len(),
{
    if ms.len() == 0 {
        false
    } else if ms[0].lines_cleared > 0 {
        ms[0].spun
    } else {
        first_clear_spun(ms.drop_first())
    }
}

/// The number of leading moves that are not spins.
pub open spec fn lead_plain(ms: Seq<PlacedMove>) -> nat
    decreases ms.len(),
{
    if ms.len() == 0 || ms[0].spin {
        0
    } else {
        1 + lead_plain(ms.drop_first())
    }
}

/// The candidates whose first line clear is a spun move, in their order.
pub open spec fn spin_clears(s: Seq<SpinCandidate>) -> Seq<SpinCandidate>
    decreases s.len(),
{
    if s.len() == 0 {
        s
    } else {
        let kept = spin_clears(s.drop_last());
        if first_clear_spun(s.last().moves@) {
            kept.push(s.last())
        } else {
            kept
        }
    }
}

/// `a` is listed strictly before `b`: fewer leading plain moves, or as many
/// and a lower score.
pub open spec fn ranks_before(a: SpinCandidate, b: SpinCandidate) -> bool {
    lead_plain(a.moves@) < lead_plain(b.moves@) || (lead_plain(a.moves@) == lead_plain(b.moves@)
        && a.score < b.score)
}

/// No candidate of `s` ranks before one that precedes it.
pub open spec fn ranked_order(s: Seq<SpinCandidate>) -> bool {
    forall|i: int, j: int| 0 <= i < j < s.len() ==> !ranks_before(#[trigger] s[j], #[trigger] s[i])
}

/// `x` placed after every element of `t` that it does not rank before.
pub open spec fn insert_ranked(t: Seq<SpinCandidate>, x: SpinCandidate) -> Seq<SpinCandidate>
    decreases t.len(),
{
    if t.len() == 0 {
        seq![x]
    } else if ranks_before(x, t.last()) {
        insert_ranked(t.drop_last(), x).push(t.last())
    } else {
        t.push(x)
    }
}

/// A stable sort of `s` by leading plain moves, then by score.
pub open spec fn ranked(s: Seq<SpinCandidate>) -> Seq<SpinCandidate>
    decreases s.len(),
{
    if s.len() == 0 {
        s
    } else {
        insert_ranked(ranked(s.drop_last()), s.last())
    }
}

/// The recommendation list made from raw search results `s`.
pub open spec fn spin_ranking(s: Seq<SpinCandidate>) -> Seq<SpinCandidate> {
    ranked(spin_clears(s))
}

/// Whether the first line-clearing move of `c` exists and ended in a rotation.
pub fn is_spin_clear(c: &SpinCandidate) -> (r: bool)
    ensures
        r == first_clear_spun(c.moves@),
{
    let mut i: usize = 0;
    assert(c.moves@.skip(0) =~= c.moves@);
    while i < c.moves.len()
        invariant
            i <= c.moves@.len(),
            first_clear_spun(c.moves@) == first_clear_spun(c.moves@.skip(i as int)),
        decreases c.moves@.len() - i,
    {
        let m = c.moves[i];
        assert(c.moves@.skip(i as int)[0] == m);
        assert(c.moves@.skip(i as int).drop_first() =~= c.moves@.skip(i + 1));
        if m.lines_cleared > 0 {
            return m.spun;
        }
        i = i + 1;
    }
    false
}

/// The number of leading moves of `c` that are not spins.
pub fn lead_plain_count(c: &SpinCandidate) -> (r: usize)
    ensures
        r == lead_plain(c.moves@),
{
    let mut i: usize = 0;
    assert(c.moves@.skip(0) =~= c.moves@);
    while i < c.moves.len() && !c.moves[i].spin
        invariant
            i <= c.moves@.len(),
            lead_plain(c.moves@) == i + lead_plain(c.moves@.skip(i as int)),
        decreases c.moves@.len() - i,
    {
        assert(c.moves@.skip(i as int).drop_first() =~= c.moves@.skip(i + 1));
        i = i + 1;
    }
    proof {
        if i < c.moves@.len() {
            assert(c.moves@.skip(i as int)[0] == c.moves@[i as int]);
        }
    }
    i
}

/// Whether `a` ranks strictly before `b`.
pub fn ranks_ahead(a: &SpinCandidate, b: &SpinCandidate) -> (r: bool)
    ensures
        r == ranks_before(*a, *b),
{
    let la = lead_plain_count(a);
    let lb = lead_plain_count(b);
    la < lb || (la == lb && a.score < b.score)
}

proof fn lemma_insert_ranked_step(t: Seq<SpinCandidate>, x: SpinCandidate, p: int)
    requires
        0 < p <= t.len(),
        ranks_before(x, t[p - 1]),
    ensures
        insert_ranked(t.take(p), x) + t.skip(p) == insert_ranked(t.take(p - 1), x) + t.skip(p - 1),
{
    let tp = t.take(p);
    assert(tp.last() == t[p - 1]);
    assert(tp.drop_last() =~= t.take(p - 1));
    assert(insert_ranked(tp, x) == insert_ranked(t.take(p - 1), x).push(t[p - 1]));
    assert(insert_ranked(t.take(p - 1), x).push(t[p - 1]) + t.skip(p) =~= insert_ranked(
        t.take(p - 1),
        x,
    ) + t.skip(p - 1));
}

/// Inserts `x` into `out` after every element that it does not rank before.
fn insert_in_rank(out: &mut Vec<SpinCandidate>, x: SpinCandidate)
    ensures
        final(out)@ == insert_ranked(old(out)@, x),
{
    let ghost t = out@;
    let mut p: usize = out.len();
    proof {
        assert(t.take(p as int) =~= t);
        assert(t.skip(p as int) =~= Seq::<SpinCandidate>::empty());
        assert(insert_ranked(t, x) =~= insert_ranked(t.take(p as int), x) + t.skip(p as int));
    }
    while p > 0 && ranks_ahead(&x, &out[p - 1])
        invariant
            p <= t.len(),
            out@ == t,
            insert_ranked(t, x) == insert_ranked(t.take(p as int), x) + t.skip(p as int),
        decreases p,
    {
        proof {
            lemma_insert_ranked_step(t, x, p as int);
        }
        p = p - 1;
    }
    proof {
        let tp = t.take(p as int);
        if p > 0 {
            assert(tp.last() == t[p - 1]);
            assert(insert_ranked(tp, x) == tp.push(x));
        } else {
            assert(insert_ranked(tp, x) == seq![x]);
        }
        assert(insert_ranked(tp, x) + t.skip(p as int) =~= t.insert(p as int, x));
    }
    out.insert(p, x);
}

/// Keeps the candidates whose first line clear is a spun move, then orders
/// them by the number of leading plain moves and, among equals, by ascending
/// score; candidates equal in both keep their relative order.
pub fn rank_spins(nodes: Vec<SpinCandidate>) -> (r: Vec<SpinCandidate>)
    ensures
        r@ == spin_ranking(nodes@),
        ranked_order(r@),
        forall|i: int| 0 <= i < r@.len() ==> first_clear_spun(#[trigger] r@[i].moves@),
{
    let ghost orig = nodes@;
    let mut rest = nodes;
    let mut kept: Vec<SpinCandidate> = Vec::new();
    let ghost mut i: int = 0;
    proof {
        assert(orig.take(0) =~= Seq::<SpinCandidate>::empty());
        assert(orig.skip(0) =~= orig);
    }
    while rest.len() > 0
        invariant
            0 <= i <= orig.len(),
            rest@ == orig.skip(i),
            kept@ == spin_clears(orig.take(i)),
        decreases rest@.len(),
    {
        let c = rest.remove(0);
        proof {
            assert(c == orig[i]);
            assert(orig.take(i + 1).drop_last() =~= orig.take(i));
            assert(orig.take(i + 1).last() == orig[i]);
            assert(rest@ =~= orig.skip(i + 1));
        }
        if is_spin_clear(&c) {
            kept.push(c);
        }
        proof {
            i = i + 1;
        }
    }
    proof {
        assert(orig.take(i) =~= orig);
    }
    let ghost clears = kept@;
    let mut out: Vec<SpinCandidate> = Vec::new();
    let ghost mut k: int = 0;
    proof {
        assert(clears.take(0) =~= Seq::<SpinCandidate>::empty());
        assert(clears.skip(0) =~= clears);
    }
    while kept.len() > 0
        invariant
            0 <= k <= clears.len(),
            kept@ == clears.skip(k),
            out@ == ranked(clears.take(k)),
        decreases kept@.len(),
    {
        let c = kept.remove(0);
        proof {
            assert(c == clears[k]);
            assert(clears.take(k + 1).drop_last() =~= clears.take(k));
            assert(clears.take(k + 1).last() == clears[k]);
            assert(kept@ =~= clears.skip(k + 1));
        }
        insert_in_rank(&mut out, c);
        proof {
            k = k + 1;
        }
    }
    proof {
        assert(clears.take(k) =~= clears);
        lemma_spin_clears_all(orig);
        lemma_ranked_keeps(clears, |y: SpinCandidate| first_clear_spun(y.moves@));
        lemma_ranked_order(clears);
    }
    out
}

/// Every element of `insert_ranked(t, x)` that meets `p` when `x` and all of
/// `t` do.
proof fn lemma_insert_keeps(t: Seq<SpinCandidate>, x: SpinCandidate, p: spec_fn(SpinCandidate) -> bool)
    requires
        p(x),
        forall|i: int| 0 <= i < t.len() ==> p(#[trigger] t[i]),
    ensures
        forall|i: int| 0 <= i < insert_ranked(t, x).len() ==> p(#[trigger] insert_ranked(t, x)[i]),
        insert_ranked(t, x).len() == t.len() + 1,
    decreases t.len(),
{
    if t.len() > 0 && ranks_before(x, t.last()) {
        lemma_insert_keeps(t.drop_last(), x, p);
    }
}

proof fn lemma_ranked_keeps(s: Seq<SpinCandidate>, p: spec_fn(SpinCandidate) -> bool)
    requires
        forall|i: int| 0 <= i < s.len() ==> p(#[trigger] s[i]),
    ensures
        forall|i: int| 0 <= i < ranked(s).len() ==> p(#[trigger] ranked(s)[i]),
        ranked(s).len() == s.len(),
    decreases s.len(),
{
    if s.len() > 0 {
        lemma_ranked_keeps(s.drop_last(), p);
        lemma_insert_keeps(ranked(s.drop_last()), s.last(), p);
    }
}

proof fn lemma_spin_clears_all(s: Seq<SpinCandidate>)
    ensures
        forall|i: int|
            0 <= i < spin_clears(s).len() ==> first_clear_spun(#[trigger] spin_clears(s)[i].moves@),
    decreases s.len(),
{
    if s.len() > 0 {
        lemma_spin_clears_all(s.drop_last());
        let kept = spin_clears(s.drop_last());
        if first_clear_spun(s.last().moves@) {
            assert forall|i: int| 0 <= i < kept.push(s.last()).len() implies first_clear_spun(
                #[trigger] kept.push(s.last())[i].moves@,
            ) by {
                if i < kept.len() {
                    assert(kept.push(s.last())[i] == kept[i]);
                }
            }
        }
    }
}

proof fn lemma_spin_clears_of_clears(s: Seq<SpinCandidate>)
    requires
        forall|i: int| 0 <= i < s.len() ==> first_clear_spun(#[trigger] s[i].moves@),
    ensures
        spin_clears(s) == s,
    decreases s.len(),
{
    if s.len() > 0 {
        lemma_spin_clears_of_clears(s.drop_last());
        assert(s.drop_last().push(s.last()) =~= s);
    }
}

proof fn lemma_insert_order(t: Seq<SpinCandidate>, x: SpinCandidate)
    requires
        ranked_order(t),
    ensures
        ranked_order(insert_ranked(t, x)),
    decreases t.len(),
{
    if t.len() > 0 {
        if ranks_before(x, t.last()) {
            let u = t.drop_last();
            lemma_insert_order(u, x);
            let l = t.last();
            assert forall|i: int| 0 <= i < u.len() implies !ranks_before(l, #[trigger] u[i]) by {
                assert(u[i] == t[i]);
            }
            lemma_insert_keeps(u, x, |y: SpinCandidate| !ranks_before(l, y));
        } else {
            let r = t.push(x);
            assert forall|i: int, j: int| 0 <= i < j < r.len() implies !ranks_before(
                #[trigger] r[j],
                #[trigger] r[i],
            ) by {
                if j == t.len() && i < t.len() - 1 {
                    assert(!ranks_before(t[t.len() - 1], t[i]));
                }
            }
        }
    }
}

proof fn lemma_ranked_order(s: Seq<SpinCandidate>)
    ensures
        ranked_order(ranked(s)),
    decreases s.len(),
{
    if s.len() > 0 {
        lemma_ranked_order(s.drop_last());
        lemma_insert_order(ranked(s.drop_last()), s.last());
    }
}

proof fn lemma_ranked_of_ordered(s: Seq<SpinCandidate>)
    requires
        ranked_order(s),
    ensures
        ranked(s) == s,
    decreases s.len(),
{
    if s.len() > 0 {
        let u = s.drop_last();
        assert(ranked_order(u)) by {
            assert forall|i: int, j: int| 0 <= i < j < u.len() implies !ranks_before(
                #[trigger] u[j],
                #[trigger] u[i],
            ) by {
                assert(u[i] == s[i] && u[j] == s[j]);
            }
        }
        lemma_ranked_of_ordered(u);
        if u.len() > 0 {
            assert(u.last() == s[s.len() - 2]);
            assert(!ranks_before(s.last(), u.last()));
        }
        assert(u.push(s.last()) =~= s);
    }
}

/// Ranking is idempotent: ranking an already ranked list, with the same two
/// keys, gives back the same list.
pub proof fn lemma_rank_idempotent(s: Seq<SpinCandidate>)
    ensures
        spin_ranking(spin_ranking(s)) == spin_ranking(s),
{
    let c = spin_clears(s);
    lemma_spin_clears_all(s);
    lemma_ranked_keeps(c, |y: SpinCandidate| first_clear_spun(y.moves@));
    lemma_spin_clears_of_clears(ranked(c));
    lemma_ranked_order(c);
    lemma_ranked_of_ordered(ranked(c));
}

} // verus!
