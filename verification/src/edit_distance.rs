//! The edit distance between two names, used to suggest similar names.

use vstd::prelude::*;

verus! {

broadcast use vstd::std_specs::vec::axiom_spec_len;

pub open spec fn min2(x: nat, y: nat) -> nat {
    if x <= y {
        x
    } else {
        y
    }
}

/// The optimal string alignment distance between the first `i` characters
/// of `a` and the first `j` characters of `b`: the fewest insertions,
/// deletions, substitutions and transpositions of adjacent characters that
/// turn one into the other, no substring being edited twice.
pub open spec fn osa(a: Seq<char>, b: Seq<char>, i: nat, j: nat) -> nat
    decreases i + j,
{
    if i == 0 {
        j
    } else if j == 0 {
        i
    } else {
        let cost: nat = if a[i - 1] == b[j - 1] {
            0
        } else {
            1
        };
        let m = min2(
            osa(a, b, (i - 1) as nat, j) + 1,
            min2(osa(a, b, i, (j - 1) as nat) + 1, osa(a, b, (i - 1) as nat, (j - 1) as nat) + cost),
        );
        if i > 1 && j > 1 && a[i - 1] == b[j - 2] && a[i - 2] == b[j - 1] {
            min2(m, osa(a, b, (i - 2) as nat, (j - 2) as nat) + 1)
        } else {
            m
        }
    }
}

/// The edit distance between `a` and `b`.
pub open spec fn distance(a: Seq<char>, b: Seq<char>) -> nat {
    osa(a, b, a.len(), b.len())
}

proof fn lemma_osa_le_max(a: Seq<char>, b: Seq<char>, i: nat, j: nat)
    ensures
        osa(a, b, i, j) <= if i >= j {
            i
        } else {
            j
        },
    decreases i + j,
{
    if i > 0 && j > 0 {
        lemma_osa_le_max(a, b, (i - 1) as nat, (j - 1) as nat);
        lemma_osa_le_max(a, b, (i - 1) as nat, j);
        lemma_osa_le_max(a, b, i, (j - 1) as nat);
    }
}

fn chars_of(s: &str) -> (r: Vec<char>)
    ensures
        r@ == s@,
{
    let n = s.unicode_len();
    let mut r: Vec<char> = Vec::new();
    let mut i: usize = 0;
    while i < n
        invariant
            n == s@.len(),
            i <= n,
            r@ == s@.subrange(0, i as int),
        decreases n - i,
    {
        r.push(s.get_char(i));
        assert(r@ =~= s@.subrange(0, i + 1));
        i = i + 1;
    }
    assert(r@ =~= s@);
    r
}

fn min_wide(x: u128, y: u128) -> (r: u128)
    ensures
        r == min2(x as nat, y as nat),
{
    if x <= y {
        x
    } else {
        y
    }
}

/// The edit distance between `a` and `b`, if it is at most `limit`.
pub fn edit_distance(a: &str, b: &str, limit: usize) -> (r: Option<usize>)
    ensures
        match r {
            Some(d) => d == distance(a@, b@) && d <= limit,
            None => distance(a@, b@) > limit,
        },
{
    let a = chars_of(a);
    let b = chars_of(b);
    let n = a.len();
    let m = b.len();
    let ghost sa = a@;
    let ghost sb = b@;
    let mut prev_prev: Vec<usize> = Vec::new();
    let mut prev: Vec<usize> = Vec::new();
    let mut current: Vec<usize> = Vec::new();
    let mut j: usize = 0;
    while j <= m
        invariant
            m == sb.len(),
            j <= m + 1,
            prev_prev@.len() == j,
            current@.len() == j,
            prev@.len() == j,
            forall|k: int| 0 <= k < j ==> #[trigger] prev@[k] == osa(sa, sb, 0, k as nat),
        decreases m + 1 - j,
    {
        prev_prev.push(0);
        prev.push(j);
        current.push(0);
        assert(prev@.len() == prev.len());
        j = j + 1;
    }
    let mut row: usize = 0;
    while row < n
        invariant
            n == sa.len(),
            m == sb.len(),
            a@ == sa,
            b@ == sb,
            row <= n,
            prev_prev@.len() == m + 1,
            prev@.len() == m + 1,
            current@.len() == m + 1,
            forall|k: int| 0 <= k <= m ==> #[trigger] prev@[k] == osa(sa, sb, row as nat, k as nat),
            row >= 1 ==> forall|k: int| 0 <= k <= m ==> #[trigger] prev_prev@[k] == osa(sa, sb, (row - 1) as nat, k as nat),
        decreases n - row,
    {
        let i = row + 1;
        current.set(0, i);
        let mut j: usize = 1;
        while j <= m
            invariant
                n == sa.len(),
                m == sb.len(),
                a@ == sa,
                b@ == sb,
                1 <= i <= n,
                1 <= j <= m + 1,
                prev_prev@.len() == m + 1,
                prev@.len() == m + 1,
                current@.len() == m + 1,
                forall|k: int| 0 <= k <= m ==> #[trigger] prev@[k] == osa(sa, sb, (i - 1) as nat, k as nat),
                i >= 2 ==> forall|k: int| 0 <= k <= m ==> #[trigger] prev_prev@[k] == osa(sa, sb, (i - 2) as nat, k as nat),
                forall|k: int| 0 <= k < j ==> #[trigger] current@[k] == osa(sa, sb, i as nat, k as nat),
            decreases m + 1 - j,
        {
            proof {
                lemma_osa_le_max(sa, sb, (i - 1) as nat, j as nat);
                lemma_osa_le_max(sa, sb, i as nat, (j - 1) as nat);
                lemma_osa_le_max(sa, sb, (i - 1) as nat, (j - 1) as nat);
                if i >= 2 && j >= 2 {
                    lemma_osa_le_max(sa, sb, (i - 2) as nat, (j - 2) as nat);
                }
            }
            let cost: u128 = if a[i - 1] == b[j - 1] {
                0
            } else {
                1
            };
            let mut d = min_wide(
                prev[j] as u128 + 1,
                min_wide(current[j - 1] as u128 + 1, prev[j - 1] as u128 + cost),
            );
            if i > 1 && j > 1 && a[i - 1] == b[j - 2] && a[i - 2] == b[j - 1] {
                d = min_wide(d, prev_prev[j - 2] as u128 + 1);
            }
            proof {
                lemma_osa_le_max(sa, sb, i as nat, j as nat);
            }
            current.set(j, d as usize);
            assert(prev@.len() == prev.len());
            j = j + 1;
        }
        let done = prev_prev;
        prev_prev = prev;
        prev = current;
        current = done;
        row = row + 1;
    }
    let distance = prev[m];
    if distance <= limit {
        Some(distance)
    } else {
        None
    }
}

} // verus!
