//! The order in which suggestions are given: closest first, then by kind
//! and name.

use vstd::prelude::*;
use crate::problems::ModuleSuggestion;

verus! {

/// Text order: by character codes, a prefix before its extensions.
pub open spec fn text_lt(a: Seq<char>, b: Seq<char>) -> bool
    decreases a.len(),
{
    if a.len() == 0 {
        b.len() > 0
    } else if b.len() == 0 {
        false
    } else if a[0] != b[0] {
        (a[0] as int) < (b[0] as int)
    } else {
        text_lt(a.drop_first(), b.drop_first())
    }
}

proof fn lemma_text_lt_trans(a: Seq<char>, b: Seq<char>, c: Seq<char>)
    requires
        text_lt(a, b),
        text_lt(b, c),
    ensures
        text_lt(a, c),
    decreases a.len(),
{
    if a.len() > 0 && b.len() > 0 && c.len() > 0 && a[0] == b[0] && b[0] == c[0] {
        lemma_text_lt_trans(a.drop_first(), b.drop_first(), c.drop_first());
    }
}

proof fn lemma_text_lt_total(a: Seq<char>, b: Seq<char>)
    ensures
        a == b || text_lt(a, b) || text_lt(b, a),
    decreases a.len(),
{
    if a.len() > 0 && b.len() > 0 {
        if a[0] == b[0] {
            lemma_text_lt_total(a.drop_first(), b.drop_first());
            if a.drop_first() == b.drop_first() {
                assert(a =~= seq![a[0]] + a.drop_first());
                assert(b =~= seq![b[0]] + b.drop_first());
            }
        } else {
            assert(a[0] as int != b[0] as int);
        }
    } else if a.len() == 0 && b.len() == 0 {
        assert(a =~= b);
    }
}

/// Whether `a` comes before `b`.
pub fn text_less(a: &str, b: &str) -> (r: bool)
    ensures
        r == text_lt(a@, b@),
{
    let na = a.unicode_len();
    let nb = b.unicode_len();
    let mut i: usize = 0;
    assert(a@.skip(0) =~= a@);
    assert(b@.skip(0) =~= b@);
    while i < na && i < nb
        invariant
            na == a@.len(),
            nb == b@.len(),
            i <= na,
            i <= nb,
            text_lt(a@, b@) == text_lt(a@.skip(i as int), b@.skip(i as int)),
        decreases na - i,
    {
        let ca = a.get_char(i);
        let cb = b.get_char(i);
        if ca != cb {
            let ua = ca as u32;
            let ub = cb as u32;
            assert(ua as int == ca as int);
            assert(ub as int == cb as int);
            return ua < ub;
        }
        assert(a@.skip(i as int).drop_first() =~= a@.skip(i + 1));
        assert(b@.skip(i as int).drop_first() =~= b@.skip(i + 1));
        i = i + 1;
    }
    i < nb && i == na
}

/// What orders a suggestion: its distance, its kind (importable modules
/// first), and its name.
pub type Rank = (nat, nat, Seq<char>);

pub open spec fn rank_lt(x: Rank, y: Rank) -> bool {
    x.0 < y.0 || (x.0 == y.0 && (x.1 < y.1 || (x.1 == y.1 && text_lt(x.2, y.2))))
}

pub proof fn lemma_rank_lt_trans(x: Rank, y: Rank, z: Rank)
    requires
        rank_lt(x, y),
        rank_lt(y, z),
    ensures
        rank_lt(x, z),
{
    if x.0 == y.0 && y.0 == z.0 && x.1 == y.1 && y.1 == z.1 {
        lemma_text_lt_trans(x.2, y.2, z.2);
    }
}

pub proof fn lemma_rank_lt_total(x: Rank, y: Rank)
    ensures
        x == y || rank_lt(x, y) || rank_lt(y, x),
{
    lemma_text_lt_total(x.2, y.2);
}

pub open spec fn kind_of(s: ModuleSuggestion) -> nat {
    match s {
        ModuleSuggestion::Importable(_) => 0,
        ModuleSuggestion::Imported(_) => 1,
    }
}

/// The rank of a suggestion at distance `d`.
pub open spec fn rank_of(s: ModuleSuggestion, d: nat) -> Rank {
    (d, kind_of(s), s.name())
}

/// The ranks of suggestions with their distances.
pub open spec fn ranks(v: Seq<(ModuleSuggestion, usize)>) -> Seq<Rank> {
    v.map_values(|e: (ModuleSuggestion, usize)| rank_of(e.0, e.1 as nat))
}

/// Strictly increasing.
pub open spec fn strictly_sorted(r: Seq<Rank>) -> bool {
    forall|i: int, j: int| 0 <= i < j < r.len() ==> rank_lt(#[trigger] r[i], #[trigger] r[j])
}

/// Whether suggestion `a` at distance `da` comes before `b` at `db`.
fn ranked_before(a: &ModuleSuggestion, da: usize, b: &ModuleSuggestion, db: usize) -> (r: bool)
    ensures
        r == rank_lt(rank_of(*a, da as nat), rank_of(*b, db as nat)),
{
    if da != db {
        return da < db;
    }
    match (a, b) {
        (ModuleSuggestion::Importable(x), ModuleSuggestion::Importable(y)) => text_less(x.as_str(), y.as_str()),
        (ModuleSuggestion::Imported(x), ModuleSuggestion::Imported(y)) => text_less(x.as_str(), y.as_str()),
        (ModuleSuggestion::Importable(_), ModuleSuggestion::Imported(_)) => true,
        (ModuleSuggestion::Imported(_), ModuleSuggestion::Importable(_)) => false,
    }
}

/// Insert `x` at its place in the sorted `v`, whose ranks it does not share.
pub fn insert_sorted(v: &mut Vec<(ModuleSuggestion, usize)>, x: (ModuleSuggestion, usize))
    requires
        strictly_sorted(ranks(old(v)@)),
        !ranks(old(v)@).contains(rank_of(x.0, x.1 as nat)),
    ensures
        strictly_sorted(ranks(final(v)@)),
        ranks(final(v)@).to_set() == ranks(old(v)@).to_set().insert(rank_of(x.0, x.1 as nat)),
        final(v)@.len() == old(v)@.len() + 1,
{
    let ghost rx = rank_of(x.0, x.1 as nat);
    let ghost r0 = ranks(v@);
    let n = v.len();
    let mut p: usize = 0;
    let mut found = false;
    while !found && p < n
        invariant
            n == v@.len(),
            v@ == old(v)@,
            r0 == ranks(v@),
            rx == rank_of(x.0, x.1 as nat),
            !r0.contains(rx),
            p <= n,
            forall|q: int| 0 <= q < p ==> rank_lt(#[trigger] r0[q], rx),
            found ==> p < n && rank_lt(rx, r0[p as int]),
        decreases n - p, if found { 0nat } else { 1nat },
    {
        proof {
            assert(r0[p as int] == rank_of(v@[p as int].0, v@[p as int].1 as nat));
        }
        let before = ranked_before(&x.0, x.1, &v[p].0, v[p].1);

        if before {
            found = true;
        } else {
            proof {
                lemma_rank_lt_total(r0[p as int], rx);
                if r0[p as int] == rx {
                    assert(r0.contains(rx));
                }
            }
            p = p + 1;
        }
    }
    assert(p < n ==> rank_lt(rx, r0[p as int]));
    v.insert(p, x);
    proof {
        let r1 = ranks(v@);
        assert(r1 =~= r0.insert(p as int, rx));
        assert forall|i: int, j: int| 0 <= i < j < r1.len() implies rank_lt(#[trigger] r1[i], #[trigger] r1[j]) by {
            if j < p {
            } else if i < p && j == p {
            } else if i < p {
                assert(r1[j] == r0[j - 1]);
            } else if i == p {
                assert(r1[j] == r0[j - 1]);
                if j - 1 > p {
                    lemma_rank_lt_trans(rx, r0[p as int], r0[j - 1]);
                }
            } else {
                assert(r1[i] == r0[i - 1] && r1[j] == r0[j - 1]);
            }
        }
        assert(r1.to_set() =~= r0.to_set().insert(rx)) by {
            assert forall|y: Rank| r1.to_set().contains(y) implies r0.to_set().insert(rx).contains(y) by {
                let i = choose|i: int| 0 <= i < r1.len() && r1[i] == y;
                if i < p {
                    assert(r0[i] == y);
                } else if i > p {
                    assert(r0[i - 1] == y);
                }
            }
            assert forall|y: Rank| r0.to_set().insert(rx).contains(y) implies r1.to_set().contains(y) by {
                if y == rx {
                    assert(r1[p as int] == y);
                } else {
                    let i = choose|i: int| 0 <= i < r0.len() && r0[i] == y;
                    if i < p {
                        assert(r1[i] == y);
                    } else {
                        assert(r1[i + 1] == y);
                    }
                }
            }
        }
    }
}

} // verus!
