use vstd::prelude::*;
use vstd::set_lib::{lemma_int_range, lemma_subset_equality, set_int_range};

verus! {

/// Position at which fold `f` starts when `n` rows are split into `k` folds:
/// every fold holds `n / k` rows and the first `n % k` folds one more.
pub open spec fn fold_start(n: nat, k: nat, f: nat) -> nat
    recommends
        k > 0,
{
    f * (n / k) + if f < n % k {
        f
    } else {
        n % k
    }
}

/// Whether position `p` lies in the held-out part of fold `f`.
pub open spec fn in_fold(n: nat, k: nat, f: nat, p: nat) -> bool {
    fold_start(n, k, f) <= p < fold_start(n, k, f + 1)
}

/// `order` lists every row below `n` exactly once.
pub open spec fn is_row_order(order: Seq<usize>, n: nat) -> bool {
    &&& order.len() == n
    &&& forall|i: int| 0 <= i < order.len() ==> (#[trigger] order[i]) < n
    &&& forall|i: int, j: int|
        0 <= i < j < order.len() ==> (#[trigger] order[i]) != (#[trigger] order[j])
}

/// One split of cross-validation: the rows to train on and the held-out rows
/// to predict.
#[derive(Clone, Debug)]
pub struct Fold {
    pub train: Vec<usize>,
    pub test: Vec<usize>,
}

/// The held-out rows of fold `f`.
pub open spec fn fold_test(order: Seq<usize>, k: nat, f: nat) -> Seq<usize> {
    order.subrange(
        fold_start(order.len(), k, f) as int,
        fold_start(order.len(), k, f + 1) as int,
    )
}

/// The training rows of fold `f`: every row that fold `f` does not hold out.
pub open spec fn fold_train(order: Seq<usize>, k: nat, f: nat) -> Seq<usize> {
    order.subrange(0, fold_start(order.len(), k, f) as int) + order.subrange(
        fold_start(order.len(), k, f + 1) as int,
        order.len() as int,
    )
}

proof fn lemma_fold_start_mono(n: nat, k: nat, f: nat, g: nat)
    requires
        k > 0,
        f <= g,
    ensures
        fold_start(n, k, f) <= fold_start(n, k, g),
{
    let q = n / k;
    assert(f * q <= g * q) by (nonlinear_arith)
        requires
            f <= g,
    ;
}

proof fn lemma_fold_start_bounds(n: nat, k: nat, f: nat)
    requires
        k > 0,
        f <= k,
    ensures
        fold_start(n, k, f) <= n,
        f == k ==> fold_start(n, k, f) == n,
        f < k ==> fold_start(n, k, f) <= fold_start(n, k, f + 1),
{
    let q = n / k;
    let r = n % k;
    assert(n == k * q + r) by (nonlinear_arith)
        requires
            k > 0,
            q == n / k,
            r == n % k,
    ;
    assert(f * q <= k * q) by (nonlinear_arith)
        requires
            f <= k,
    ;
    assert((f + 1) * q == f * q + q) by (nonlinear_arith);
    assert(r < k);
}

/// Start and end of the held-out part of fold `f`.
pub fn fold_bounds(n: usize, k: usize, f: usize) -> (r: (usize, usize))
    requires
        1 <= k <= n,
        f < k,
    ensures
        r.0 == fold_start(n as nat, k as nat, f as nat),
        r.1 == fold_start(n as nat, k as nat, (f + 1) as nat),
        r.0 <= r.1 <= n,
{
    proof {
        lemma_fold_start_bounds(n as nat, k as nat, f as nat);
        lemma_fold_start_bounds(n as nat, k as nat, (f + 1) as nat);
    }
    let q = n / k;
    let rem = n % k;
    proof {
        assert(f * q <= n) by (nonlinear_arith)
            requires
                f < k,
                q == n / k,
                k > 0,
        ;
        assert((f + 1) * q <= n) by (nonlinear_arith)
            requires
                f < k,
                q == n / k,
                k > 0,
        ;
    }
    let start = f * q + if f < rem {
        f
    } else {
        rem
    };
    let end = (f + 1) * q + if f + 1 < rem {
        f + 1
    } else {
        rem
    };
    (start, end)
}

/// Every position below `n` lies in the held-out part of exactly one of the
/// `k` folds: the folds cover the rows completely and do not overlap.
pub proof fn folds_partition_positions(n: nat, k: nat, p: nat)
    requires
        2 <= k <= n,
        p < n,
    ensures
        exists|f: nat| f < k && #[trigger] in_fold(n, k, f, p),
        forall|f: nat, g: nat|
            f < k && g < k && #[trigger] in_fold(n, k, f, p) && #[trigger] in_fold(n, k, g, p)
                ==> f == g,
{
    if forall|f: nat| f < k ==> !#[trigger] in_fold(n, k, f, p) {
        lemma_start_below(n, k, p, k);
        lemma_fold_start_bounds(n, k, k);
    }
    assert forall|f: nat, g: nat|
        f < k && g < k && #[trigger] in_fold(n, k, f, p) && #[trigger] in_fold(n, k, g, p)
            implies f == g by {
        if f < g {
            lemma_fold_start_mono(n, k, f + 1, g);
        } else if g < f {
            lemma_fold_start_mono(n, k, g + 1, f);
        }
    }
}

proof fn lemma_start_below(n: nat, k: nat, p: nat, f: nat)
    requires
        2 <= k,
        f <= k,
        forall|g: nat| g < k ==> !#[trigger] in_fold(n, k, g, p),
    ensures
        fold_start(n, k, f) <= p,
    decreases f,
{
    if f > 0 {
        lemma_start_below(n, k, p, (f - 1) as nat);
        assert(!in_fold(n, k, (f - 1) as nat, p));
    }
}

/// An order of `n` distinct rows, each below `n`, holds every row below `n`.
pub proof fn row_order_holds_every_row(order: Seq<usize>, n: nat, row: usize)
    requires
        is_row_order(order, n),
        row < n,
    ensures
        order.contains(row),
{
    let ints = order.map_values(|x: usize| x as int);
    assert(ints.no_duplicates()) by {
        assert forall|i: int, j: int|
            0 <= i < ints.len() && 0 <= j < ints.len() && i != j implies ints[i] != ints[j] by {
            if i < j {
                assert(order[i] != order[j]);
            } else {
                assert(order[j] != order[i]);
            }
        }
    }
    ints.unique_seq_to_set();
    lemma_int_range(0, n as int);
    assert(ints.to_set().subset_of(set_int_range(0, n as int))) by {
        assert forall|x: int| ints.to_set().contains(x) implies set_int_range(0, n as int).contains(
            x,
        ) by {
            let i = choose|i: int| 0 <= i < ints.len() && ints[i] == x;
            assert(order[i] < n);
        }
    }
    lemma_subset_equality(ints.to_set(), set_int_range(0, n as int));
    assert(set_int_range(0, n as int).contains(row as int));
    assert(ints.to_set().contains(row as int));
    let i = choose|i: int| 0 <= i < ints.len() && ints[i] == row as int;
    assert(order[i] == row);
}

/// Every row below `n` lies in the held-out rows of exactly one of the `k`
/// folds, when `order` lists each of the `n` rows once.
pub proof fn folds_cover_every_row(order: Seq<usize>, k: nat, row: usize)
    requires
        2 <= k <= order.len(),
        is_row_order(order, order.len()),
        row < order.len(),
    ensures
        exists|f: nat| f < k && #[trigger] fold_test(order, k, f).contains(row),
        forall|f: nat, g: nat|
            f < k && g < k && #[trigger] fold_test(order, k, f).contains(row)
                && #[trigger] fold_test(order, k, g).contains(row) ==> f == g,
{
    row_order_holds_every_row(order, order.len(), row);
    folds_partition_rows(order, k, row);
}

/// Every row of `order` lies in the held-out rows of exactly one fold, when
/// `order` lists each row once.
pub proof fn folds_partition_rows(order: Seq<usize>, k: nat, row: usize)
    requires
        2 <= k <= order.len(),
        is_row_order(order, order.len()),
        order.contains(row),
    ensures
        exists|f: nat| f < k && #[trigger] fold_test(order, k, f).contains(row),
        forall|f: nat, g: nat|
            f < k && g < k && #[trigger] fold_test(order, k, f).contains(row)
                && #[trigger] fold_test(order, k, g).contains(row) ==> f == g,
{
    let n = order.len();
    let p = choose|p: int| 0 <= p < n && order[p] == row;
    folds_partition_positions(n, k, p as nat);
    let f0 = choose|f: nat| f < k && #[trigger] in_fold(n, k, f, p as nat);
    lemma_fold_start_bounds(n, k, f0);
    lemma_fold_start_bounds(n, k, f0 + 1);
    let s0 = fold_start(n, k, f0) as int;
    assert(in_fold(n, k, f0, p as nat));
    assert(s0 <= p < fold_start(n, k, f0 + 1));
    assert(fold_test(order, k, f0).len() == fold_start(n, k, f0 + 1) - s0);
    assert(fold_test(order, k, f0)[p - s0] == row);
    assert(fold_test(order, k, f0).contains(row));
    assert forall|f: nat, g: nat|
        f < k && g < k && #[trigger] fold_test(order, k, f).contains(row)
            && #[trigger] fold_test(order, k, g).contains(row) implies f == g by {
        lemma_fold_start_bounds(n, k, f);
        lemma_fold_start_bounds(n, k, f + 1);
        lemma_fold_start_bounds(n, k, g);
        lemma_fold_start_bounds(n, k, g + 1);
        let i = choose|i: int|
            0 <= i < fold_test(order, k, f).len() && fold_test(order, k, f)[i] == row;
        let j = choose|j: int|
            0 <= j < fold_test(order, k, g).len() && fold_test(order, k, g)[j] == row;
        let pf = fold_start(n, k, f) + i;
        let pg = fold_start(n, k, g) + j;
        assert(order[pf] == row);
        assert(order[pg] == row);
        assert(pf == p);
        assert(pg == p);
        assert(in_fold(n, k, f, p as nat));
        assert(in_fold(n, k, g, p as nat));
    }
}

/// Whether `order` lists every row below `n` exactly once.
pub fn check_row_order(order: &Vec<usize>, n: usize) -> (r: bool)
    ensures
        r == is_row_order(order@, n as nat),
{
    if order.len() != n {
        return false;
    }
    let mut seen: Vec<bool> = Vec::new();
    let mut j: usize = 0;
    while j < n
        invariant
            j <= n,
            seen@.len() == j,
            forall|x: int| 0 <= x < j ==> !seen@[x],
        decreases n - j,
    {
        seen.push(false);
        j = j + 1;
    }
    let mut i: usize = 0;
    while i < n
        invariant
            order@.len() == n,
            seen@.len() == n,
            i <= n,
            forall|a: int| 0 <= a < i ==> (#[trigger] order@[a]) < n,
            forall|a: int, b: int| 0 <= a < b < i ==> (#[trigger] order@[a]) != (#[trigger] order@[b]),
            forall|x: int|
                0 <= x < n ==> (#[trigger] seen@[x] <==> exists|a: int|
                    0 <= a < i && order@[a] == x),
        decreases n - i,
    {
        let v = order[i];
        if v >= n {
            return false;
        }
        if seen[v] {
            proof {
                let a = choose|a: int| 0 <= a < i && order@[a] == v;
                assert(order@[a] == order@[i as int]);
            }
            return false;
        }
        let ghost seen0 = seen@;
        seen.set(v, true);
        proof {
            assert forall|x: int|
                0 <= x < n implies (#[trigger] seen@[x] <==> exists|a: int|
                    0 <= a < i + 1 && order@[a] == x) by {
                if x == v {
                    assert(order@[i as int] == x);
                } else if seen@[x] {
                    let a = choose|a: int| 0 <= a < i && order@[a] == x;
                    assert(0 <= a < i + 1 && order@[a] == x);
                }
            }
            assert forall|a: int, b: int| 0 <= a < b < i + 1 implies (#[trigger] order@[a])
                != (#[trigger] order@[b]) by {
                if b == i && order@[a] == order@[b] {
                    assert(seen0[v as int]);
                }
            }
        }
        i = i + 1;
    }
    true
}

/// Next state of the generator that shuffles rows: a linear congruential
/// generator modulo 2^64.
pub open spec fn next_state(x: u64) -> u64 {
    ((6364136223846793005 * (x as nat) + 1442695040888963407) % 0x1_0000_0000_0000_0000) as u64
}

fn step(x: u64) -> (r: u64)
    ensures
        r == next_state(x),
{
    let wide = x as u128;
    proof {
        assert(6364136223846793005u128 * wide <= 6364136223846793005u128 * 0xffff_ffff_ffff_ffffu128)
            by (nonlinear_arith)
            requires
                wide <= 0xffff_ffff_ffff_ffffu128,
        ;
    }
    ((6364136223846793005u128 * wide + 1442695040888963407u128) % 0x1_0000_0000_0000_0000u128) as u64
}

/// The order in which rows are split into folds: rows `0..n` in turn, or,
/// when `shuffle` is set, shuffled once by a generator started from `seed`,
/// so that the same seed gives the same order.
pub fn row_order(n: usize, shuffle: bool, seed: u64) -> (r: Vec<usize>)
    ensures
        is_row_order(r@, n as nat),
        !shuffle ==> forall|i: int| 0 <= i < n ==> r@[i] == i,
{
    let mut order: Vec<usize> = Vec::new();
    let mut i: usize = 0;
    while i < n
        invariant
            i <= n,
            order@.len() == i,
            forall|p: int| 0 <= p < i ==> order@[p] == p,
        decreases n - i,
    {
        order.push(i);
        i = i + 1;
    }
    if !shuffle {
        return order;
    }
    let mut state: u64 = seed;
    let mut i: usize = n;
    while i > 1
        invariant
            i <= n,
            is_row_order(order@, n as nat),
        decreases i,
    {
        let last = i - 1;
        state = step(state);
        let j = (state % (i as u64)) as usize;
        let a = order[last];
        let b = order[j];
        let ghost before = order@;
        order.set(last, b);
        order.set(j, a);
        proof {
            assert forall|p: int, q: int|
                0 <= p < q < order@.len() implies (#[trigger] order@[p]) != (#[trigger] order@[q]) by {
                let op = if p == j { last as int } else if p == last { j as int } else { p };
                let oq = if q == j { last as int } else if q == last { j as int } else { q };
                assert(order@[p] == before[op]);
                assert(order@[q] == before[oq]);
                assert(op != oq);
                if op < oq {
                    assert(before[op] != before[oq]);
                } else {
                    assert(before[oq] != before[op]);
                }
            }
            assert forall|p: int| 0 <= p < order@.len() implies (#[trigger] order@[p]) < n by {
                let op = if p == j { last as int } else if p == last { j as int } else { p };
                assert(order@[p] == before[op]);
            }
        }
        i = last;
    }
    order
}

} // verus!
