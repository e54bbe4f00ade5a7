//! What holds of every disk sample set: containment, completeness, order, and
//! that a smaller disk can be cut out of a larger one on the same grid.

use vstd::prelude::*;
use crate::sampler::{Site, within, in_disk, in_grid, grid_row, grid_rows, grid, disk};

verus! {

/// Row-major order on sites: the lower row first, within a row the lower `x`.
pub open spec fn precedes(a: Site, b: Site) -> bool {
    a.y < b.y || (a.y == b.y && a.x < b.x)
}

/// Whether `s` lists its sites in strictly ascending row-major order.
pub open spec fn ascending(s: Seq<Site>) -> bool {
    forall|i: int, j: int| 0 <= i < j < s.len() ==> precedes(#[trigger] s[i], #[trigger] s[j])
}

/// A site within `n` steps of the origin is a point of the square grid of
/// half-width `n`: the disk is inscribed in the grid.
pub proof fn lemma_disk_in_grid(s: Site, n: nat)
    requires
        within(s, n as int),
    ensures
        in_grid(s, n as int),
{
    let (x, y, r) = (s.x, s.y, n as int);
    assert(-r <= x <= r && -r <= y <= r) by (nonlinear_arith)
        requires
            x * x + y * y <= r * r,
            0 <= r,
    ;
}

proof fn lemma_within_monotone(s: Site, m: nat, n: nat)
    requires
        m <= n,
        within(s, m as int),
    ensures
        within(s, n as int),
{
    assert(m * m <= n * n) by (nonlinear_arith)
        requires
            m <= n,
    ;
}

/// The first `count` rows of the grid are in ascending order and hold exactly
/// the sites of those rows.
proof fn lemma_grid_rows(n: nat, count: nat)
    ensures
        ascending(grid_rows(n, count)),
        forall|s: Site| #[trigger]
            grid_rows(n, count).contains(s) <==> (-n <= s.x <= n && -n <= s.y < count - n),
    decreases count,
{
    let rows = grid_rows(n, count);
    if count > 0 {
        let head = grid_rows(n, (count - 1) as nat);
        let y = count - 1 - n;
        let row = grid_row(n, y);
        lemma_grid_rows(n, (count - 1) as nat);
        assert(rows == head + row);
        assert forall|s: Site| #[trigger]
            rows.contains(s) <==> (-n <= s.x <= n && -n <= s.y < count - n) by {
            if rows.contains(s) {
                let k = choose|k: int| 0 <= k < rows.len() && rows[k] == s;
                if k < head.len() {
                    assert(head.contains(head[k]));
                } else {
                    assert(s == row[k - head.len()]);
                }
            }
            if -n <= s.x <= n && -n <= s.y < count - n {
                if s.y < y {
                    assert(head.contains(s));
                    let k = choose|k: int| 0 <= k < head.len() && head[k] == s;
                    assert(rows[k] == s);
                } else {
                    assert(row[s.x + n] == s);
                    assert(rows[head.len() + s.x + n] == s);
                }
            }
        }
        assert forall|i: int, j: int| 0 <= i < j < rows.len() implies precedes(
            #[trigger] rows[i],
            #[trigger] rows[j],
        ) by {
            if j < head.len() {
                assert(precedes(head[i], head[j]));
            } else if i < head.len() {
                assert(head.contains(head[i]));
                assert(rows[j] == row[j - head.len()]);
            } else {
                assert(rows[i] == row[i - head.len()]);
                assert(rows[j] == row[j - head.len()]);
            }
        }
    }
}

/// A site is kept by a filter exactly when it was there and meets the predicate.
proof fn lemma_filter_members(s: Seq<Site>, pred: spec_fn(Site) -> bool)
    ensures
        forall|e: Site| #[trigger] s.filter(pred).contains(e) <==> (s.contains(e) && pred(e)),
{
    assert forall|e: Site| #[trigger] s.filter(pred).contains(e) <==> (s.contains(e) && pred(
        e,
    )) by {
        if s.filter(pred).contains(e) {
            s.lemma_filter_contains_rev(pred, e);
            let k = choose|k: int| 0 <= k < s.filter(pred).len() && s.filter(pred)[k] == e;
            s.lemma_filter_pred(pred, k);
        }
        if s.contains(e) && pred(e) {
            let k = choose|k: int| 0 <= k < s.len() && s[k] == e;
            s.lemma_filter_contains(pred, k);
        }
    }
}

/// Filtering keeps ascending order.
proof fn lemma_filter_ascending(s: Seq<Site>, pred: spec_fn(Site) -> bool)
    requires
        ascending(s),
    ensures
        ascending(s.filter(pred)),
    decreases s.len(),
{
    reveal(Seq::filter);
    if s.len() > 0 {
        let front = s.drop_last();
        let kept = front.filter(pred);
        assert forall|i: int, j: int| 0 <= i < j < front.len() implies precedes(
            #[trigger] front[i],
            #[trigger] front[j],
        ) by {
            assert(front[i] == s[i] && front[j] == s[j]);
        }
        lemma_filter_ascending(front, pred);
        if pred(s.last()) {
            let out = kept.push(s.last());
            assert forall|i: int, j: int| 0 <= i < j < out.len() implies precedes(
                #[trigger] out[i],
                #[trigger] out[j],
            ) by {
                if j < kept.len() {
                    assert(precedes(kept[i], kept[j]));
                } else {
                    assert(kept.contains(kept[i]));
                    front.lemma_filter_contains_rev(pred, kept[i]);
                    let k = choose|k: int| 0 <= k < front.len() && front[k] == kept[i];
                    assert(precedes(s[k], s[s.len() - 1]));
                }
            }
        }
    }
}

/// Two ascending sequences with the same sites are the same sequence.
proof fn lemma_ascending_unique(a: Seq<Site>, b: Seq<Site>)
    requires
        ascending(a),
        ascending(b),
        forall|e: Site| a.contains(e) <==> b.contains(e),
    ensures
        a == b,
    decreases a.len(),
{
    if a.len() == 0 {
        if b.len() > 0 {
            assert(b.contains(b[0]));
        }
        assert(a =~= b);
    } else {
        let top = a.last();
        assert(a.contains(top));
        assert(b.contains(top));
        let jb = choose|j: int| 0 <= j < b.len() && b[j] == top;
        let last_b = b.last();
        assert(b.contains(last_b));
        let ia = choose|i: int| 0 <= i < a.len() && a[i] == last_b;
        if jb < b.len() - 1 {
            assert(precedes(b[jb], b[b.len() - 1]));
            if ia < a.len() - 1 {
                assert(precedes(a[ia], a[a.len() - 1]));
            }
        }
        assert(last_b == top);
        let fa = a.drop_last();
        let fb = b.drop_last();
        assert forall|e: Site| fa.contains(e) <==> fb.contains(e) by {
            if fa.contains(e) {
                let k = choose|k: int| 0 <= k < fa.len() && fa[k] == e;
                assert(precedes(a[k], a[a.len() - 1]));
                assert(a.contains(e));
                let m = choose|m: int| 0 <= m < b.len() && b[m] == e;
                assert(fb[m] == e);
            }
            if fb.contains(e) {
                let k = choose|k: int| 0 <= k < fb.len() && fb[k] == e;
                assert(precedes(b[k], b[b.len() - 1]));
                assert(b.contains(e));
                let m = choose|m: int| 0 <= m < a.len() && a[m] == e;
                assert(fa[m] == e);
            }
        }
        assert(ascending(fa)) by {
            assert forall|i: int, j: int| 0 <= i < j < fa.len() implies precedes(
                #[trigger] fa[i],
                #[trigger] fa[j],
            ) by {
                assert(fa[i] == a[i] && fa[j] == a[j]);
            }
        }
        assert(ascending(fb)) by {
            assert forall|i: int, j: int| 0 <= i < j < fb.len() implies precedes(
                #[trigger] fb[i],
                #[trigger] fb[j],
            ) by {
                assert(fb[i] == b[i] && fb[j] == b[j]);
            }
        }
        lemma_ascending_unique(fa, fb);
        assert(a =~= fa.push(top));
        assert(b =~= fb.push(top));
    }
}

/// A site belongs to the disk sample set at resolution `n` exactly when it
/// lies within `n` steps of the origin: no sample lies outside the disk, and
/// no lattice point of the disk is left out.
pub proof fn lemma_disk_members(n: nat)
    ensures
        forall|i: int| 0 <= i < disk(n).len() ==> within(#[trigger] disk(n)[i], n as int),
        forall|s: Site| #[trigger] disk(n).contains(s) <==> within(s, n as int),
{
    lemma_grid_rows(n, 2 * n + 1);
    lemma_filter_members(grid(n), in_disk(n as int));
    assert forall|s: Site| #[trigger] disk(n).contains(s) <==> within(s, n as int) by {
        if within(s, n as int) {
            lemma_disk_in_grid(s, n);
            assert(grid(n).contains(s));
        }
    }
    assert forall|i: int| 0 <= i < disk(n).len() implies within(
        #[trigger] disk(n)[i],
        n as int,
    ) by {
        assert(disk(n).contains(disk(n)[i]));
    }
}

/// The disk sample set is in strictly ascending row-major order, so no site
/// occurs in it twice.
pub proof fn lemma_disk_ascending(n: nat)
    ensures
        ascending(disk(n)),
        disk(n).no_duplicates(),
{
    lemma_grid_rows(n, 2 * n + 1);
    lemma_filter_ascending(grid(n), in_disk(n as int));
}

/// Cutting the sample set of a disk down to a radius of `m` steps gives the
/// sample set that resolution `m` produces directly, provided `m` does not
/// exceed the resolution the larger set was made with.
pub proof fn lemma_sub_disk(n_max: nat, m: nat)
    requires
        m <= n_max,
    ensures
        disk(n_max).filter(in_disk(m as int)) == disk(m),
{
    let cut = disk(n_max).filter(in_disk(m as int));
    lemma_disk_ascending(n_max);
    lemma_filter_ascending(disk(n_max), in_disk(m as int));
    lemma_disk_ascending(m);
    lemma_disk_members(n_max);
    lemma_disk_members(m);
    lemma_filter_members(disk(n_max), in_disk(m as int));
    assert forall|e: Site| cut.contains(e) <==> disk(m).contains(e) by {
        if within(e, m as int) {
            lemma_within_monotone(e, m, n_max);
        }
    }
    lemma_ascending_unique(cut, disk(m));
}

/// A cut of a disk sample set is never empty, whatever the radius: the origin
/// belongs to every disk.
pub proof fn lemma_sub_disk_nonempty(n: nat, m: nat)
    ensures
        disk(n).filter(in_disk(m as int)).len() > 0,
{
    let origin = Site { x: 0, y: 0 };
    assert(0 <= n * n && 0 <= m * m) by (nonlinear_arith);
    assert(within(origin, n as int) && within(origin, m as int));
    lemma_disk_members(n);
    lemma_filter_members(disk(n), in_disk(m as int));
    assert(disk(n).filter(in_disk(m as int)).contains(origin));
}

} // verus!
