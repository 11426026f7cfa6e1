//! Stable sorting of table rows.
//!
//! Every tabular widget sorts its rows by one of its columns, ascending or
//! descending. Each column induces a total preorder on rows; sorting must be
//! stable, so that rows with equal sort keys keep their relative input order
//! and consecutive ingests do not visually jitter.

use vstd::prelude::*;
use vstd::relations::{sorted_by, strongly_connected, transitive};

verus! {

/// A row of a sortable table. Each column index induces a total preorder on
/// rows (`col_le`), and each cell has a rendered width.
pub trait TableRow: Sized {
    /// Whether `self` sorts at-or-before `other` under column `col`,
    /// ascending.
    spec fn col_le(self, col: int, other: Self) -> bool;

    /// Rendered width of this row's cell in column `col`.
    spec fn width_spec(self, col: int) -> nat;

    /// The per-column order relates every pair of rows.
    proof fn lemma_col_le_total(a: Self, b: Self, col: int)
        ensures
            a.col_le(col, b) || b.col_le(col, a),
    ;

    /// The per-column order is transitive.
    proof fn lemma_col_le_trans(a: Self, b: Self, c: Self, col: int)
        requires
            a.col_le(col, b),
            b.col_le(col, c),
        ensures
            a.col_le(col, c),
    ;

    /// Executable comparison, agreeing with `col_le`.
    fn le(&self, col: usize, other: &Self) -> (r: bool)
        ensures
            r == self.col_le(col as int, *other),
    ;

    /// Executable cell width.
    fn cell_width(&self, col: usize) -> (w: usize)
        ensures
            w as nat == self.width_spec(col as int),
    ;
}

/// Direction-adjusted order on rows: ascending uses the column order as is,
/// descending flips its arguments. Ties relate both ways in either
/// direction, so stability is direction-independent.
pub open spec fn dir_le<R: TableRow>(col: int, descending: bool) -> spec_fn(R, R) -> bool {
    if descending {
        |a: R, b: R| b.col_le(col, a)
    } else {
        |a: R, b: R| a.col_le(col, b)
    }
}

/// The direction-adjusted order is total and transitive, inherited from the
/// column order.
pub proof fn lemma_dir_le_properties<R: TableRow>(col: int, descending: bool)
    ensures
        strongly_connected(dir_le::<R>(col, descending)),
        transitive(dir_le::<R>(col, descending)),
{
    let leq = dir_le::<R>(col, descending);
    assert forall|a: R, b: R| #[trigger] leq(a, b) || #[trigger] leq(b, a) by {
        R::lemma_col_le_total(a, b, col);
    }
    assert forall|a: R, b: R, c: R| #[trigger] leq(a, b) && #[trigger] leq(b, c) implies leq(
        a,
        c,
    ) by {
        if descending {
            R::lemma_col_le_trans(c, b, a, col);
        } else {
            R::lemma_col_le_trans(a, b, c, col);
        }
    }
}

/// Where a stable insertion places `x` in the already-sorted `s`: after
/// every element that sorts at-or-before `x`, so a new element lands behind
/// its ties.
pub open spec fn insert_row<R>(x: R, s: Seq<R>, leq: spec_fn(R, R) -> bool) -> Seq<R>
    decreases s.len(),
{
    if s.len() == 0 {
        seq![x]
    } else if leq(s[0], x) {
        seq![s[0]] + insert_row(x, s.drop_first(), leq)
    } else {
        seq![x] + s
    }
}

/// Stable sort: insert each element, in input order, into the sorted run of
/// everything before it.
pub open spec fn stable_sort<R>(s: Seq<R>, leq: spec_fn(R, R) -> bool) -> Seq<R>
    decreases s.len(),
{
    if s.len() == 0 {
        s
    } else {
        insert_row(s.last(), stable_sort(s.drop_last(), leq), leq)
    }
}

pub proof fn lemma_insert_row_len<R>(x: R, s: Seq<R>, leq: spec_fn(R, R) -> bool)
    ensures
        insert_row(x, s, leq).len() == s.len() + 1,
    decreases s.len(),
{
    if s.len() > 0 && leq(s[0], x) {
        lemma_insert_row_len(x, s.drop_first(), leq);
    }
}

/// Inserting contributes exactly the new element: the result is a
/// permutation of the input plus `x`.
pub proof fn lemma_insert_row_multiset<R>(x: R, s: Seq<R>, leq: spec_fn(R, R) -> bool)
    ensures
        insert_row(x, s, leq).to_multiset() == s.to_multiset().insert(x),
    decreases s.len(),
{
    broadcast use vstd::multiset::group_multiset_axioms;

    if s.len() == 0 {
        assert(insert_row(x, s, leq) =~= s.insert(0, x));
        vstd::seq_lib::to_multiset_insert(s, 0, x);
    } else if leq(s[0], x) {
        lemma_insert_row_multiset(x, s.drop_first(), leq);
        let rest = insert_row(x, s.drop_first(), leq);
        assert(insert_row(x, s, leq) =~= rest.insert(0, s[0]));
        vstd::seq_lib::to_multiset_insert(rest, 0, s[0]);
        assert(s =~= s.drop_first().insert(0, s[0]));
        vstd::seq_lib::to_multiset_insert(s.drop_first(), 0, s[0]);
        assert(s.drop_first().to_multiset().insert(x).insert(s[0])
            =~= s.drop_first().to_multiset().insert(s[0]).insert(x));
    } else {
        assert(insert_row(x, s, leq) =~= s.insert(0, x));
        vstd::seq_lib::to_multiset_insert(s, 0, x);
    }
}

/// Inserting into a sorted sequence keeps it sorted.
pub proof fn lemma_insert_row_sorted<R>(x: R, s: Seq<R>, leq: spec_fn(R, R) -> bool)
    requires
        sorted_by(s, leq),
        strongly_connected(leq),
        transitive(leq),
    ensures
        sorted_by(insert_row(x, s, leq), leq),
    decreases s.len(),
{
    lemma_insert_row_len(x, s, leq);
    if s.len() == 0 {
    } else if leq(s[0], x) {
        let rest = insert_row(x, s.drop_first(), leq);
        assert forall|i: int, j: int|
            0 <= i < j < s.drop_first().len() implies #[trigger] leq(
            s.drop_first()[i],
            s.drop_first()[j],
        ) by {
            assert(leq(s[i + 1], s[j + 1]));
        }
        lemma_insert_row_sorted(x, s.drop_first(), leq);
        lemma_insert_row_contents(x, s.drop_first(), leq);
        let r = insert_row(x, s, leq);
        assert forall|i: int, j: int| 0 <= i < j < r.len() implies #[trigger] leq(r[i], r[j]) by {
            if i == 0 {
                // r[0] == s[0]; r[j] is either x or some element of s.
                let e = r[j];
                assert(rest[j - 1] == e);
                if e == x {
                    assert(leq(s[0], x));
                } else {
                }
            } else {
                assert(r[i] == rest[i - 1]);
                assert(r[j] == rest[j - 1]);
            }
        }
    } else {
        let r = insert_row(x, s, leq);
        assert forall|i: int, j: int| 0 <= i < j < r.len() implies #[trigger] leq(r[i], r[j]) by {
            if i == 0 {
                // x goes first: x is at-or-before s[0], and s[0] before the rest.
                assert(leq(x, s[0]));
                if j > 1 {
                    assert(leq(s[0], s[j - 1]));
                }
            } else {
                assert(r[i] == s[i - 1]);
                assert(r[j] == s[j - 1]);
            }
        }
    }
}

/// Every element of an insertion's result is the new element or one of the
/// old ones, tagged with enough position information for the sortedness
/// proof: an old element keeps its sorted neighbours.
proof fn lemma_insert_row_contents<R>(x: R, s: Seq<R>, leq: spec_fn(R, R) -> bool)
    requires
        sorted_by(s, leq),
        strongly_connected(leq),
        transitive(leq),
    ensures
        forall|j: int|
            0 <= j < insert_row(x, s, leq).len() ==> (#[trigger] insert_row(x, s, leq)[j] == x || (
            exists|k: int| 0 <= k < s.len() && insert_row(x, s, leq)[j] == s[k])),
    decreases s.len(),
{
    lemma_insert_row_len(x, s, leq);
    if s.len() == 0 {
    } else if leq(s[0], x) {
        lemma_insert_row_contents(x, s.drop_first(), leq);
        let rest = insert_row(x, s.drop_first(), leq);
        let r = insert_row(x, s, leq);
        assert forall|j: int|
            0 <= j < r.len() implies (#[trigger] r[j] == x || (exists|k: int|
            0 <= k < s.len() && r[j] == s[k])) by {
            if j == 0 {
                assert(r[0] == s[0]);
            } else {
                assert(r[j] == rest[j - 1]);
                if rest[j - 1] != x {
                    let k = choose|k: int|
                        0 <= k < s.drop_first().len() && rest[j - 1] == s.drop_first()[k];
                    assert(r[j] == s[k + 1]);
                }
            }
        }
    } else {
    }
}

/// A sorted sequence is left exactly as it is by a stable sort.
pub proof fn lemma_stable_sort_of_sorted<R>(s: Seq<R>, leq: spec_fn(R, R) -> bool)
    requires
        sorted_by(s, leq),
        strongly_connected(leq),
        transitive(leq),
    ensures
        stable_sort(s, leq) == s,
    decreases s.len(),
{
    if s.len() > 0 {
        let front = s.drop_last();
        assert forall|i: int, j: int|
            0 <= i < j < front.len() implies #[trigger] leq(front[i], front[j]) by {
            assert(leq(s[i], s[j]));
        }
        lemma_stable_sort_of_sorted(front, leq);
        lemma_insert_at_end(s.last(), front, leq);
        assert(front.push(s.last()) =~= s);
    }
}

/// Inserting an element that everything sorts at-or-before appends it.
pub proof fn lemma_insert_at_end<R>(x: R, s: Seq<R>, leq: spec_fn(R, R) -> bool)
    requires
        forall|k: int| 0 <= k < s.len() ==> leq(#[trigger] s[k], x),
    ensures
        insert_row(x, s, leq) == s.push(x),
    decreases s.len(),
{
    if s.len() == 0 {
        assert(insert_row(x, s, leq) =~= s.push(x));
    } else {
        assert forall|k: int| 0 <= k < s.drop_first().len() implies leq(
            #[trigger] s.drop_first()[k],
            x,
        ) by {
            assert(s[k + 1] == s.drop_first()[k]);
        }
        lemma_insert_at_end(x, s.drop_first(), leq);
        assert(insert_row(x, s, leq) =~= seq![s[0]] + s.drop_first().push(x));
        assert(seq![s[0]] + s.drop_first().push(x) =~= s.push(x));
    }
}

/// The characterization the executable sort uses: if everything before
/// position `p` sorts at-or-before `x` and position `p` (when it exists)
/// does not, then a stable insertion places `x` exactly at `p`.
pub proof fn lemma_insert_row_at<R>(x: R, s: Seq<R>, leq: spec_fn(R, R) -> bool, p: int)
    requires
        0 <= p <= s.len(),
        forall|k: int| 0 <= k < p ==> leq(#[trigger] s[k], x),
        p < s.len() ==> !leq(s[p], x),
    ensures
        insert_row(x, s, leq) == s.take(p) + seq![x] + s.skip(p),
    decreases s.len(),
{
    if s.len() == 0 {
        assert(insert_row(x, s, leq) =~= s.take(p) + seq![x] + s.skip(p));
    } else if p == 0 {
        assert(!leq(s[0], x));
        assert(insert_row(x, s, leq) =~= s.take(0) + seq![x] + s.skip(0));
    } else {
        assert(leq(s[0], x));
        assert forall|k: int| 0 <= k < p - 1 implies leq(#[trigger] s.drop_first()[k], x) by {
            assert(s.drop_first()[k] == s[k + 1]);
        }
        if p - 1 < s.drop_first().len() {
            assert(s.drop_first()[p - 1] == s[p]);
        }
        lemma_insert_row_at(x, s.drop_first(), leq, p - 1);
        assert(insert_row(x, s, leq) =~= seq![s[0]] + (s.drop_first().take(p - 1) + seq![x]
            + s.drop_first().skip(p - 1)));
        assert(seq![s[0]] + (s.drop_first().take(p - 1) + seq![x] + s.drop_first().skip(p - 1))
            =~= s.take(p) + seq![x] + s.skip(p));
    }
}

/// The stable sort sorts: its result is ordered and is a permutation of its
/// input.
pub proof fn lemma_stable_sort_ensures<R>(s: Seq<R>, leq: spec_fn(R, R) -> bool)
    requires
        strongly_connected(leq),
        transitive(leq),
    ensures
        sorted_by(stable_sort(s, leq), leq),
        stable_sort(s, leq).to_multiset() == s.to_multiset(),
        stable_sort(s, leq).len() == s.len(),
    decreases s.len(),
{
    broadcast use vstd::seq_lib::group_to_multiset_ensures;

    if s.len() > 0 {
        lemma_stable_sort_ensures(s.drop_last(), leq);
        lemma_insert_row_sorted(s.last(), stable_sort(s.drop_last(), leq), leq);
        lemma_insert_row_multiset(s.last(), stable_sort(s.drop_last(), leq), leq);
        lemma_insert_row_len(s.last(), stable_sort(s.drop_last(), leq), leq);
        assert(s =~= s.drop_last().push(s.last()));
        assert(s.drop_last().push(s.last()).to_multiset() =~= s.drop_last().to_multiset().insert(
            s.last(),
        ));
    }
}

/// Sorting what is already stably sorted changes nothing: re-ingesting rows
/// that are already in display order keeps them exactly where they are, so
/// ties never jitter.
pub proof fn lemma_stable_sort_idempotent<R>(s: Seq<R>, leq: spec_fn(R, R) -> bool)
    requires
        strongly_connected(leq),
        transitive(leq),
    ensures
        stable_sort(stable_sort(s, leq), leq) == stable_sort(s, leq),
{
    lemma_stable_sort_ensures(s, leq);
    lemma_stable_sort_of_sorted(stable_sort(s, leq), leq);
}

/// Rows tied with `x` under `leq`: they sort both at-or-before and
/// at-or-after it, so the order alone cannot tell them apart.
pub open spec fn tied_with<R>(x: R, leq: spec_fn(R, R) -> bool) -> spec_fn(R) -> bool {
    |e: R| leq(e, x) && leq(x, e)
}

proof fn lemma_filter_all_false<R>(s: Seq<R>, pred: spec_fn(R) -> bool)
    requires
        forall|i: int| 0 <= i < s.len() ==> !pred(#[trigger] s[i]),
    ensures
        s.filter(pred) == Seq::<R>::empty(),
    decreases s.len(),
{
    reveal(Seq::filter);
    if s.len() > 0 {
        assert forall|i: int| 0 <= i < s.drop_last().len() implies !pred(
            #[trigger] s.drop_last()[i],
        ) by {
            assert(s.drop_last()[i] == s[i]);
        }
        lemma_filter_all_false(s.drop_last(), pred);
    }
}

/// A stable insertion puts the new row behind every row tied with it: the
/// tie class gains the new row at its back and is otherwise untouched.
proof fn lemma_insert_row_filter<R>(y: R, s: Seq<R>, leq: spec_fn(R, R) -> bool, x: R)
    requires
        sorted_by(s, leq),
        strongly_connected(leq),
        transitive(leq),
    ensures
        insert_row(y, s, leq).filter(tied_with(x, leq)) == (if tied_with(x, leq)(y) {
            s.filter(tied_with(x, leq)).push(y)
        } else {
            s.filter(tied_with(x, leq))
        }),
    decreases s.len(),
{
    reveal(Seq::filter);
    broadcast use vstd::seq_lib::group_filter_ensures;

    let cls = tied_with(x, leq);
    if s.len() == 0 {
        assert(insert_row(y, s, leq) =~= seq![y]);
        assert(seq![y].drop_last() =~= Seq::<R>::empty());
        assert(Seq::<R>::empty().filter(cls) == Seq::<R>::empty());
        if cls(y) {
            assert(seq![y].filter(cls) =~= s.filter(cls).push(y));
        } else {
            lemma_filter_all_false(seq![y], cls);
            assert(seq![y].filter(cls) =~= s.filter(cls));
        }
    } else if leq(s[0], y) {
        assert forall|i: int, j: int|
            0 <= i < j < s.drop_first().len() implies #[trigger] leq(
            s.drop_first()[i],
            s.drop_first()[j],
        ) by {
            assert(leq(s[i + 1], s[j + 1]));
        }
        lemma_insert_row_filter(y, s.drop_first(), leq, x);
        let rest = insert_row(y, s.drop_first(), leq);
        assert(insert_row(y, s, leq) =~= seq![s[0]] + rest);
        Seq::filter_distributes_over_add(seq![s[0]], rest, cls);
        Seq::filter_distributes_over_add(seq![s[0]], s.drop_first(), cls);
        assert(s =~= seq![s[0]] + s.drop_first());
        if cls(y) {
            assert(seq![s[0]].filter(cls) + s.drop_first().filter(cls).push(y) =~= (seq![
                s[0],
            ].filter(cls) + s.drop_first().filter(cls)).push(y));
        }
    } else {
        // The new row goes in front: nothing behind it can be tied with it,
        // or with anything it is tied with.
        assert(insert_row(y, s, leq) =~= seq![y] + s);
        Seq::filter_distributes_over_add(seq![y], s, cls);
        if cls(y) {
            assert forall|i: int| 0 <= i < s.len() implies !cls(#[trigger] s[i]) by {
                if cls(s[i]) {
                    // s[i] tied with x and y tied with x: so s[i] sorts
                    // at-or-before y, yet s[0] sorts at-or-before s[i],
                    // contradicting that s[0] does not sort at-or-before y.
                    assert(leq(s[i], x) && leq(x, y));
                    assert(leq(s[i], y));
                    if i > 0 {
                        assert(leq(s[0], s[i]));
                        assert(leq(s[0], y));
                    }
                }
            }
            lemma_filter_all_false(s, cls);
            assert(seq![y].drop_last() =~= Seq::<R>::empty());
            assert(Seq::<R>::empty().filter(cls) == Seq::<R>::empty());
            assert((seq![y] + s).filter(cls) =~= s.filter(cls).push(y));
        } else {
            lemma_filter_all_false(seq![y], cls);
            assert((seq![y] + s).filter(cls) =~= s.filter(cls));
        }
    }
}

/// Sort stability: rows with equal sort keys keep their relative input
/// order. The rows tied with any given row come out of the sort exactly as
/// they went in.
pub proof fn lemma_stable_sort_ties_keep_order<R>(s: Seq<R>, leq: spec_fn(R, R) -> bool, x: R)
    requires
        strongly_connected(leq),
        transitive(leq),
    ensures
        stable_sort(s, leq).filter(tied_with(x, leq)) == s.filter(tied_with(x, leq)),
    decreases s.len(),
{
    reveal(Seq::filter);
    let cls = tied_with(x, leq);
    if s.len() > 0 {
        lemma_stable_sort_ties_keep_order(s.drop_last(), leq, x);
        lemma_stable_sort_ensures(s.drop_last(), leq);
        lemma_insert_row_filter(s.last(), stable_sort(s.drop_last(), leq), leq, x);
    }
}

/// When the order only reads an abstraction of each row (its view), a
/// stable insertion commutes with mapping rows to that abstraction.
pub proof fn lemma_insert_row_map<R, V>(
    x: R,
    s: Seq<R>,
    leq: spec_fn(R, R) -> bool,
    vleq: spec_fn(V, V) -> bool,
    f: spec_fn(R) -> V,
)
    requires
        forall|a: R, b: R| #[trigger] leq(a, b) == vleq(f(a), f(b)),
    ensures
        insert_row(x, s, leq).map_values(f) == insert_row(f(x), s.map_values(f), vleq),
    decreases s.len(),
{
    if s.len() == 0 {
        assert(insert_row(x, s, leq).map_values(f) =~= insert_row(f(x), s.map_values(f), vleq));
    } else {
        let vs = s.map_values(f);
        assert(vs[0] == f(s[0]));
        assert(s.drop_first().map_values(f) =~= vs.drop_first());
        if leq(s[0], x) {
            lemma_insert_row_map(x, s.drop_first(), leq, vleq, f);
            assert(insert_row(x, s, leq).map_values(f) =~= seq![f(s[0])] + insert_row(
                x,
                s.drop_first(),
                leq,
            ).map_values(f));
        } else {
            assert(insert_row(x, s, leq).map_values(f) =~= seq![f(x)] + vs);
        }
    }
}

/// A stable sort commutes with mapping rows to the abstraction the order
/// reads: sorting and then abstracting gives the same sequence as
/// abstracting and then sorting.
pub proof fn lemma_stable_sort_map<R, V>(
    s: Seq<R>,
    leq: spec_fn(R, R) -> bool,
    vleq: spec_fn(V, V) -> bool,
    f: spec_fn(R) -> V,
)
    requires
        forall|a: R, b: R| #[trigger] leq(a, b) == vleq(f(a), f(b)),
    ensures
        stable_sort(s, leq).map_values(f) == stable_sort(s.map_values(f), vleq),
    decreases s.len(),
{
    if s.len() == 0 {
        assert(s.map_values(f) =~= Seq::<V>::empty());
    } else {
        let vs = s.map_values(f);
        assert(vs.len() == s.len());
        assert(vs.last() == f(s.last()));
        assert(s.drop_last().map_values(f) =~= vs.drop_last());
        lemma_stable_sort_map(s.drop_last(), leq, vleq, f);
        lemma_insert_row_map(s.last(), stable_sort(s.drop_last(), leq), leq, vleq, f);
    }
}

/// Executable comparison under the direction-adjusted order.
fn dir_le_exec<R: TableRow>(a: &R, b: &R, col: usize, descending: bool) -> (r: bool)
    ensures
        r == dir_le::<R>(col as int, descending)(*a, *b),
{
    if descending {
        b.le(col, a)
    } else {
        a.le(col, b)
    }
}

/// Stably sorts rows in place by the given column and direction: an
/// insertion sort that moves each row backwards past exactly the rows it
/// strictly precedes, so ties keep their input order.
pub fn sort_rows<R: TableRow>(v: &mut Vec<R>, col: usize, descending: bool)
    ensures
        final(v)@ == stable_sort(old(v)@, dir_le::<R>(col as int, descending)),
        final(v)@.len() == old(v)@.len(),
{
    let ghost leq = dir_le::<R>(col as int, descending);
    proof {
        lemma_dir_le_properties::<R>(col as int, descending);
        lemma_stable_sort_ensures(old(v)@, leq);
    }
    let n = v.len();
    if n == 0 {
        return ;
    }
    let mut i: usize = 1;
    proof {
        lemma_stable_sort_of_sorted(old(v)@.take(1), leq);
        assert(v@.take(1) =~= old(v)@.take(1));
        assert(v@.skip(1) =~= old(v)@.skip(1));
    }
    while i < n
        invariant
            1 <= i <= n,
            n == v@.len(),
            v@.len() == old(v)@.len(),
            leq == dir_le::<R>(col as int, descending),
            strongly_connected(leq),
            transitive(leq),
            v@.take(i as int) == stable_sort(old(v)@.take(i as int), leq),
            v@.skip(i as int) == old(v)@.skip(i as int),
        decreases n - i,
    {
        let ghost sorted_i = v@.take(i as int);
        let ghost x_spec = v@[i as int];
        proof {
            lemma_stable_sort_ensures(old(v)@.take(i as int), leq);
            assert(v@.skip(i as int)[0] == old(v)@.skip(i as int)[0]);
        }
        // Scan backwards over the sorted prefix for the insertion point:
        // the first position whose element does not sort at-or-before the
        // new row.
        let mut p: usize = i;
        loop
            invariant
                0 <= p <= i < n,
                n == v@.len(),
                sorted_i == v@.take(i as int),
                x_spec == v@[i as int],
                sorted_by(sorted_i, leq),
                leq == dir_le::<R>(col as int, descending),
                strongly_connected(leq),
                transitive(leq),
                forall|k: int| p <= k < i ==> !leq(#[trigger] sorted_i[k], x_spec),
            ensures
                0 <= p <= i,
                forall|k: int| p <= k < i ==> !leq(#[trigger] sorted_i[k], x_spec),
                p > 0 ==> leq(sorted_i[p - 1], x_spec),
            decreases p,
        {
            if p == 0 {
                break ;
            }
            let at_or_before = dir_le_exec(&v[p - 1], &v[i], col, descending);
            proof {
                assert(v@.take(i as int)[p - 1] == v@[p - 1]);
            }
            if at_or_before {
                break ;
            }
            p = p - 1;
        }
        proof {
            // Everything before `p` sorts at-or-before the new row.
            assert forall|k: int| 0 <= k < p implies leq(#[trigger] sorted_i[k], x_spec) by {
                if k < p - 1 {
                    assert(leq(sorted_i[k], sorted_i[p - 1]));
                }
            }
            lemma_insert_row_at(x_spec, sorted_i, leq, p as int);
        }
        let ghost before = v@;
        if p < i {
            let x = v.remove(i);
            v.insert(p, x);
        }
        proof {
            // The prefix one longer is now the stable sort of one more row.
            assert(old(v)@.take(i + 1).drop_last() =~= old(v)@.take(i as int));
            assert(old(v)@.take(i + 1).last() == old(v)@[i as int]);
            assert(x_spec == old(v)@[i as int]);
            assert forall|k: int| i <= k < before.len() implies before[k] == old(v)@[k] by {
                assert(before.skip(i as int)[k - i] == old(v)@.skip(i as int)[k - i]);
            }
            if p < i {
                let c_seq = before.remove(i as int);
                assert(before[i as int] == x_spec);
                assert(v@ == c_seq.insert(p as int, x_spec));
                assert forall|k: int| 0 <= k < v@.len() implies v@[k] == (if k < p {
                    sorted_i[k]
                } else if k == p {
                    x_spec
                } else if k <= i {
                    sorted_i[k - 1]
                } else {
                    old(v)@[k]
                }) by {
                    if k < p {
                        assert(c_seq[k] == before[k]);
                        assert(before.take(i as int)[k] == before[k]);
                    } else if k == p {
                    } else if k <= i {
                        assert(c_seq[k - 1] == before[k - 1]);
                        assert(before.take(i as int)[k - 1] == before[k - 1]);
                    } else {
                        assert(c_seq[k - 1] == before[k]);
                    }
                }
            }
            assert(v@.take(i + 1) =~= sorted_i.take(p as int) + seq![x_spec] + sorted_i.skip(
                p as int,
            ));
            assert(v@.take(i + 1) == stable_sort(old(v)@.take(i + 1), leq));
            assert(v@.skip(i + 1) =~= old(v)@.skip(i + 1));
        }
        i = i + 1;
    }
    proof {
        assert(old(v)@.take(n as int) =~= old(v)@);
        assert(v@.take(n as int) =~= v@);
    }
}

} // verus!
