//! Index enumerations shared by the set encodings: box corners and
//! generator sign patterns, vertex pairs, generator subsets, factorials.
use vstd::prelude::*;

use itertools::Itertools;
#[allow(unused_imports)]
use vstd::arithmetic::div_mod::{lemma_div_denominator, lemma_fundamental_div_mod_converse};

verus! {

/// `2^n`.
pub open spec fn two_to(n: nat) -> nat
    decreases n,
{
    if n == 0 {
        1
    } else {
        2 * two_to((n - 1) as nat)
    }
}

/// Bit `j` of `i`.
pub open spec fn bit(i: nat, j: nat) -> bool {
    (i / two_to(j)) % 2 == 1
}

/// `n!`.
pub open spec fn factorial(n: nat) -> nat
    decreases n,
{
    if n == 0 {
        1
    } else {
        n * factorial((n - 1) as nat)
    }
}

proof fn lemma_two_to_positive(n: nat)
    ensures
        two_to(n) > 0,
    decreases n,
{
    if n > 0 {
        lemma_two_to_positive((n - 1) as nat);
    }
}

proof fn lemma_bit_shift(i: nat, j: nat)
    ensures
        bit(i, j + 1) == bit(i / 2, j),
        i / two_to(j + 1) == (i / two_to(j)) / 2,
{
    lemma_two_to_positive(j);
    lemma_div_denominator(i as int, two_to(j) as int, 2);
    lemma_div_denominator(i as int, 2, two_to(j) as int);
    assert(two_to(j + 1) == two_to(j) * 2);
    assert(two_to(j) * 2 == 2 * two_to(j)) by (nonlinear_arith);
}

/// Two distinct numbers below `2^n` differ in one of their lowest `n` bits.
pub proof fn lemma_distinct_below_two_to(a: nat, b: nat, n: nat)
    requires
        a < two_to(n),
        b < two_to(n),
        a != b,
    ensures
        exists|j: nat| j < n && #[trigger] bit(a, j) != bit(b, j),
    decreases n,
{
    assert(two_to(0) == 1);
    if a % 2 != b % 2 {
        assert(bit(a, 0) != bit(b, 0));
    } else {
        let n1 = (n - 1) as nat;
        assert(a / 2 != b / 2) by {
            assert(a == 2 * (a / 2) + a % 2);
            assert(b == 2 * (b / 2) + b % 2);
        }
        assert(a / 2 < two_to(n1) && b / 2 < two_to(n1)) by {
            assert(two_to(n) == 2 * two_to(n1));
        }
        lemma_distinct_below_two_to(a / 2, b / 2, n1);
        let j = choose|j: nat| j < n1 && #[trigger] bit(a / 2, j) != bit(b / 2, j);
        lemma_bit_shift(a, j);
        lemma_bit_shift(b, j);
        assert(j + 1 < n && bit(a, j + 1) != bit(b, j + 1));
    }
}

/// The number of corners of a box in `dim` dimensions, `2^dim`.
pub fn corner_count(dim: usize) -> (r: usize)
    requires
        two_to(dim as nat) <= usize::MAX,
    ensures
        r == two_to(dim as nat),
{
    let mut r: usize = 1;
    let mut k: usize = 0;
    while k < dim
        invariant
            k <= dim,
            r == two_to(k as nat),
            two_to(dim as nat) <= usize::MAX,
        decreases dim - k,
    {
        proof {
            lemma_two_to_monotone((k + 1) as nat, dim as nat);
        }
        r = r * 2;
        k = k + 1;
    }
    r
}

proof fn lemma_two_to_monotone(a: nat, b: nat)
    requires
        a <= b,
    ensures
        two_to(a) <= two_to(b),
    decreases b - a,
{
    if a < b {
        lemma_two_to_monotone(a, (b - 1) as nat);
        lemma_two_to_positive((b - 1) as nat);
    }
}

/// The corners of a box in `dim` dimensions, as bit patterns: row `i` takes
/// the upper end in coordinate `j` exactly when bit `j` of `i` is set. The
/// same table gives a zonotope's candidate vertices, where a set bit `j`
/// subtracts generator `j` and a clear one adds it. The `2^dim` rows are
/// pairwise distinct.
pub fn corner_pattern(dim: usize) -> (r: Vec<Vec<bool>>)
    requires
        two_to(dim as nat) <= usize::MAX,
    ensures
        r@.len() == two_to(dim as nat),
        forall|i: int| 0 <= i < r@.len() ==> #[trigger] r@[i]@.len() == dim,
        forall|i: int, j: int|
            0 <= i < r@.len() && 0 <= j < dim ==> #[trigger] r@[i]@[j] == bit(i as nat, j as nat),
        forall|a: int, b: int|
            0 <= a < r@.len() && 0 <= b < r@.len() && a != b ==> #[trigger] r@[a]@ != #[trigger] r@[b]@,
{
    let count: usize = corner_count(dim);
    let mut rows: Vec<Vec<bool>> = Vec::new();
    let mut i: usize = 0;
    while i < count
        invariant
            i <= count,
            count == two_to(dim as nat),
            rows@.len() == i,
            forall|a: int| 0 <= a < i ==> #[trigger] rows@[a]@.len() == dim,
            forall|a: int, j: int|
                0 <= a < i && 0 <= j < dim ==> #[trigger] rows@[a]@[j] == bit(a as nat, j as nat),
        decreases count - i,
    {
        let mut row: Vec<bool> = Vec::new();
        let mut rem: usize = i;
        let mut j: usize = 0;
        proof {
            assert(two_to(0) == 1);
        }
        while j < dim
            invariant
                j <= dim,
                row@.len() == j,
                rem == i as nat / two_to(j as nat),
                forall|jj: int| 0 <= jj < j ==> #[trigger] row@[jj] == bit(i as nat, jj as nat),
            decreases dim - j,
        {
            proof {
                lemma_bit_shift(i as nat, j as nat);
            }
            row.push(rem % 2 == 1);
            rem = rem / 2;
            j = j + 1;
        }
        rows.push(row);
        i = i + 1;
    }
    proof {
        assert forall|a: int, b: int|
            0 <= a < rows@.len() && 0 <= b < rows@.len() && a != b implies #[trigger] rows@[a]@
            != #[trigger] rows@[b]@ by {
            lemma_distinct_below_two_to(a as nat, b as nat, dim as nat);
            let j = choose|j: nat| j < dim && #[trigger] bit(a as nat, j) != bit(b as nat, j);
            assert(rows@[a]@[j as int] != rows@[b]@[j as int]);
        }
    }
    rows
}


/// The vertex pairs of a Cartesian sum of `k1` and `k2` points, in the order
/// of a double loop: row `i * k2 + j` holds the pair `(i, j)`.
pub fn vertex_pairs(k1: usize, k2: usize) -> (r: Vec<(usize, usize)>)
    requires
        k1 * k2 <= usize::MAX,
    ensures
        r@.len() == k1 * k2,
        forall|i: int, j: int|
            0 <= i < k1 && 0 <= j < k2 ==> #[trigger] r@[i * k2 + j] == (i as usize, j as usize),
{
    let mut r: Vec<(usize, usize)> = Vec::new();
    let mut i: usize = 0;
    while i < k1
        invariant
            i <= k1,
            k1 * k2 <= usize::MAX,
            r@.len() == i * k2,
            forall|a: int| 0 <= a < r@.len() ==> #[trigger] r@[a] == ((a / k2 as int) as usize, (a % k2 as int) as usize),
        decreases k1 - i,
    {
        let mut j: usize = 0;
        while j < k2
            invariant
                i < k1,
                j <= k2,
                k1 * k2 <= usize::MAX,
                r@.len() == i * k2 + j,
                forall|a: int| 0 <= a < r@.len() ==> #[trigger] r@[a] == ((a / k2 as int) as usize, (a % k2 as int) as usize),
            decreases k2 - j,
        {
            proof {
                assert(i * k2 + j < k1 * k2) by (nonlinear_arith)
                    requires i < k1, j < k2;
                lemma_fundamental_div_mod_converse((i * k2 + j) as int, k2 as int, i as int, j as int);
            }
            r.push((i, j));
            j = j + 1;
        }
        proof {
            assert((i + 1) * k2 == i * k2 + k2) by (nonlinear_arith);
        }
        i = i + 1;
    }
    proof {
        assert forall|i: int, j: int| 0 <= i < k1 && 0 <= j < k2 implies #[trigger] r@[i * k2 + j] == (i as usize, j as usize) by {
            assert(0 <= i * k2 + j < k1 * k2) by (nonlinear_arith)
                requires 0 <= i < k1, 0 <= j < k2;
            lemma_fundamental_div_mod_converse(i * k2 + j, k2 as int, i, j);
        }
    }
    r
}

proof fn lemma_factorial_monotone(a: nat, b: nat)
    requires
        a <= b,
    ensures
        1 <= factorial(a) <= factorial(b),
    decreases b,
{
    if b > 0 {
        if a < b {
            lemma_factorial_monotone(a, (b - 1) as nat);
        } else {
            lemma_factorial_monotone((b - 1) as nat, (b - 1) as nat);
        }
        let f = factorial((b - 1) as nat);
        assert(f <= b * f) by (nonlinear_arith)
            requires b >= 1, f >= 1;
    }
}

/// `n!` where it fits in a `usize`, `None` where it does not. The volume of
/// a simplex spanned by `n` edge vectors is the edge matrix's absolute
/// determinant divided by this.
pub fn checked_factorial(n: usize) -> (r: Option<usize>)
    ensures
        factorial(n as nat) <= usize::MAX ==> r == Some(factorial(n as nat) as usize),
        factorial(n as nat) > usize::MAX ==> r is None,
{
    let mut acc: usize = 1;
    let mut k: usize = 0;
    while k < n
        invariant
            k <= n,
            acc == factorial(k as nat),
        decreases n - k,
    {
        let next: usize = k + 1;
        proof {
            assert(factorial(next as nat) == next * factorial(k as nat));
        }
        match acc.checked_mul(next) {
            Some(v) => {
                acc = v;
            },
            None => {
                proof {
                    lemma_factorial_monotone(next as nat, n as nat);
                }
                return None;
            },
        }
        k = next;
    }
    Some(acc)
}


/// `s` lists `k` distinct indices below `m` in increasing order: one
/// `k`-subset of `0..m`.
pub open spec fn is_combination(s: Seq<usize>, m: nat, k: nat) -> bool {
    &&& s.len() == k
    &&& forall|i: int| 0 <= i < s.len() ==> (#[trigger] s[i] as nat) < m
    &&& forall|i: int, j: int| 0 <= i < j < s.len() ==> #[trigger] s[i] < #[trigger] s[j]
}

/// `a` comes before `b` in lexicographic order.
pub open spec fn lex_less(a: Seq<usize>, b: Seq<usize>) -> bool {
    exists|p: int|
        0 <= p < a.len() && p < b.len() && #[trigger] a[p] < b[p] && forall|q: int|
            0 <= q < p ==> #[trigger] a[q] == b[q]
}

/// `r` lists every `k`-subset of `0..m` once, in lexicographic order.
pub open spec fn all_combinations(r: Seq<Seq<usize>>, m: nat, k: nat) -> bool {
    &&& forall|i: int| 0 <= i < r.len() ==> is_combination(#[trigger] r[i], m, k)
    &&& forall|i: int, j: int| 0 <= i < j < r.len() ==> lex_less(#[trigger] r[i], #[trigger] r[j])
    &&& forall|s: Seq<usize>|
        is_combination(s, m, k) ==> exists|i: int| 0 <= i < r.len() && #[trigger] r[i] == s
}

/// The index sequence `0, 1, ..., k - 1`.
pub open spec fn first_indices(k: nat) -> Seq<usize> {
    Seq::new(k, |i: int| i as usize)
}

/// Relies on itertools' `Itertools::combinations`, applied to the range
/// `0..m`: it yields each strictly increasing `k`-length sequence of the
/// range's items once, in lexicographic order.
#[verifier::external_body]
pub(crate) fn index_combinations(m: usize, k: usize) -> (r: Vec<Vec<usize>>)
    ensures
        all_combinations(r@.map_values(|v: Vec<usize>| v@), m as nat, k as nat),
{
    (0..m).combinations(k).collect()
}

/// A `k`-subset of `0..k` holds all of `0..k`.
pub proof fn lemma_full_subset(s: Seq<usize>, k: nat)
    requires
        is_combination(s, k, k),
    ensures
        s == first_indices(k),
{
    assert forall|i: int| 0 <= i < k implies s[i] as int >= i by {
        lemma_increasing_lower(s, k, i);
    }
    assert forall|i: int| 0 <= i < k implies s[i] as int <= i by {
        lemma_increasing_upper(s, k, i);
    }
    assert(s =~= first_indices(k));
}

proof fn lemma_increasing_lower(s: Seq<usize>, k: nat, i: int)
    requires
        is_combination(s, k, k),
        0 <= i < k,
    ensures
        s[i] as int >= i,
    decreases i,
{
    if i > 0 {
        lemma_increasing_lower(s, k, i - 1);
        assert(s[i - 1] < s[i]);
    }
}

proof fn lemma_increasing_upper(s: Seq<usize>, k: nat, i: int)
    requires
        is_combination(s, k, k),
        0 <= i < k,
    ensures
        s[i] as int <= i,
    decreases k - i,
{
    if i + 1 < k {
        lemma_increasing_upper(s, k, i + 1);
        assert(s[i] < s[i + 1]);
    } else {
        assert((s[i] as nat) < k);
    }
}

/// The `k`-subsets of `0..k` are one: all of `0..k`.
pub proof fn lemma_single_full_subset(r: Seq<Seq<usize>>, k: nat)
    requires
        all_combinations(r, k, k),
        k <= usize::MAX,
    ensures
        r.len() == 1,
        r[0] == first_indices(k),
{
    let f = first_indices(k);
    assert forall|i: int| 0 <= i < f.len() implies (#[trigger] f[i] as nat) < k && f[i] as int == i by {}
    assert(is_combination(f, k, k));
    let i = choose|i: int| 0 <= i < r.len() && #[trigger] r[i] == f;
    if r.len() > 1 {
        assert(is_combination(r[0], k, k));
        assert(is_combination(r[1], k, k));
        lemma_full_subset(r[0], k);
        lemma_full_subset(r[1], k);
        assert(lex_less(r[0], r[1]));
        let p = choose|p: int|
            0 <= p < r[0].len() && p < r[1].len() && #[trigger] r[0][p] < r[1][p] && forall|q: int|
                0 <= q < p ==> #[trigger] r[0][q] == r[1][q];
        assert(false);
    }
    assert(is_combination(r[0], k, k));
    lemma_full_subset(r[0], k);
}


/// The corners of the box `[lb, ub]`, in the order of [`corner_pattern`]:
/// row `i` takes `ub[j]` in coordinate `j` exactly when bit `j` of `i` is
/// set, and `lb[j]` otherwise. Where no coordinate has `lb[j] == ub[j]`,
/// the `2^dim` corners are pairwise distinct.
pub fn box_corners<T: Copy>(lb: &Vec<T>, ub: &Vec<T>) -> (r: Vec<Vec<T>>)
    requires
        lb@.len() == ub@.len(),
        two_to(lb@.len()) <= usize::MAX,
    ensures
        r@.len() == two_to(lb@.len()),
        forall|i: int| 0 <= i < r@.len() ==> #[trigger] r@[i]@.len() == lb@.len(),
        forall|i: int, j: int|
            0 <= i < r@.len() && 0 <= j < lb@.len() ==> #[trigger] r@[i]@[j] == if bit(
                i as nat,
                j as nat,
            ) {
                ub@[j]
            } else {
                lb@[j]
            },
        (forall|j: int| 0 <= j < lb@.len() ==> #[trigger] lb@[j] != ub@[j]) ==> forall|a: int, b: int|
            0 <= a < r@.len() && 0 <= b < r@.len() && a != b ==> #[trigger] r@[a]@ != #[trigger] r@[b]@,
{
    let dim: usize = lb.len();
    let pattern = corner_pattern(dim);
    let mut rows: Vec<Vec<T>> = Vec::new();
    let mut i: usize = 0;
    while i < pattern.len()
        invariant
            dim == lb@.len() == ub@.len(),
            pattern@.len() == two_to(dim as nat),
            forall|a: int| 0 <= a < pattern@.len() ==> #[trigger] pattern@[a]@.len() == dim,
            forall|a: int, j: int|
                0 <= a < pattern@.len() && 0 <= j < dim ==> #[trigger] pattern@[a]@[j] == bit(
                    a as nat,
                    j as nat,
                ),
            i <= pattern@.len(),
            rows@.len() == i,
            forall|a: int| 0 <= a < i ==> #[trigger] rows@[a]@.len() == dim,
            forall|a: int, j: int|
                0 <= a < i && 0 <= j < dim ==> #[trigger] rows@[a]@[j] == if bit(a as nat, j as nat) {
                    ub@[j]
                } else {
                    lb@[j]
                },
        decreases pattern@.len() - i,
    {
        let mut row: Vec<T> = Vec::new();
        let mut j: usize = 0;
        while j < dim
            invariant
                dim == lb@.len() == ub@.len(),
                i < pattern@.len(),
                pattern@[i as int]@.len() == dim,
                forall|jj: int| 0 <= jj < dim ==> #[trigger] pattern@[i as int]@[jj] == bit(i as nat, jj as nat),
                j <= dim,
                row@.len() == j,
                forall|jj: int| 0 <= jj < j ==> #[trigger] row@[jj] == if bit(i as nat, jj as nat) {
                    ub@[jj]
                } else {
                    lb@[jj]
                },
            decreases dim - j,
        {
            if pattern[i][j] {
                row.push(ub[j]);
            } else {
                row.push(lb[j]);
            }
            j = j + 1;
        }
        rows.push(row);
        i = i + 1;
    }
    proof {
        if forall|j: int| 0 <= j < dim ==> #[trigger] lb@[j] != ub@[j] {
            assert forall|a: int, b: int|
                0 <= a < rows@.len() && 0 <= b < rows@.len() && a != b implies #[trigger] rows@[a]@
                != #[trigger] rows@[b]@ by {
                lemma_distinct_below_two_to(a as nat, b as nat, dim as nat);
                let j = choose|j: nat| j < dim && #[trigger] bit(a as nat, j) != bit(b as nat, j);
                assert(rows@[a]@[j as int] != rows@[b]@[j as int]);
            }
        }
    }
    rows
}

} // verus!
