//! The two orders in which rows are shown, and sorting by them.

use vstd::prelude::*;
use crate::stat::{FileStat, FileStatView, stat_views};
use crate::text::{
    lemma_text_before_irreflexive, lemma_text_before_total, lemma_text_before_transitive,
    text_before, text_precedes,
};

verus! {

/// The key by which rows are ordered.
#[derive(Clone, Copy, Debug, PartialEq, Eq)]
pub enum SortBy {
    /// By path, ascending.
    Path,
    /// By token count, descending; rows with the same count by path, ascending.
    Tokens,
}

/// Whether row `a` has to stand strictly before row `b` under the key `by`.
pub open spec fn comes_before(by: SortBy, a: FileStatView, b: FileStatView) -> bool {
    match by {
        SortBy::Path => text_before(a.path, b.path),
        SortBy::Tokens => a.tokens > b.tokens || (a.tokens == b.tokens && text_before(
            a.path,
            b.path,
        )),
    }
}

/// Whether the key `by` leaves the order of `a` and `b` open.
pub open spec fn ties(by: SortBy, a: FileStatView, b: FileStatView) -> bool {
    !comes_before(by, a, b) && !comes_before(by, b, a)
}

/// The test for the rows that tie with `k`.
pub open spec fn tied_with(by: SortBy, k: FileStatView) -> spec_fn(FileStatView) -> bool {
    |x: FileStatView| ties(by, x, k)
}

/// The rows of `rows` that tie with `k`, in the order they have in `rows`.
pub open spec fn tied_rows(rows: Seq<FileStatView>, by: SortBy, k: FileStatView) -> Seq<
    FileStatView,
> {
    rows.filter(tied_with(by, k))
}

/// Whether `out` holds the rows of `rows` in the order of `by`, with rows
/// that tie in the order they have in `rows`: no row of `out` stands behind
/// one that it has to come before, and for every row the rows that tie with
/// it are the same in `out` as in `rows`, in the same order.
pub open spec fn is_stable_ordering(out: Seq<FileStatView>, rows: Seq<FileStatView>, by: SortBy) -> bool {
    &&& is_ordered(out, by)
    &&& forall|k: FileStatView| #[trigger] tied_rows(out, by, k) == tied_rows(rows, by, k)
}

/// Whether no row of `rows` stands behind one that it has to come before.
pub open spec fn is_ordered(rows: Seq<FileStatView>, by: SortBy) -> bool {
    forall|i: int, j: int|
        0 <= i < j < rows.len() ==> !comes_before(by, #[trigger] rows[j], #[trigger] rows[i])
}

/// Where a new row `x` goes into the ordered `rows`: in front of the run of
/// rows at the end that it comes before, and so behind every row it ties with.
pub open spec fn insert_point(rows: Seq<FileStatView>, x: FileStatView, by: SortBy) -> nat
    decreases rows.len(),
{
    if rows.len() > 0 && comes_before(by, x, rows.last()) {
        insert_point(rows.drop_last(), x, by)
    } else {
        rows.len()
    }
}

/// The rows of `rows` in the order of `by`, rows that tie keeping the order
/// they had in `rows`.
pub open spec fn sorted_stats(rows: Seq<FileStatView>, by: SortBy) -> Seq<FileStatView>
    decreases rows.len(),
{
    if rows.len() == 0 {
        rows
    } else {
        let front = sorted_stats(rows.drop_last(), by);
        front.insert(insert_point(front, rows.last(), by) as int, rows.last())
    }
}

/// No row comes before itself.
pub proof fn lemma_comes_before_irreflexive(by: SortBy, a: FileStatView)
    ensures
        !comes_before(by, a, a),
{
    lemma_text_before_irreflexive(a.path);
}

/// Coming before is transitive.
pub proof fn lemma_comes_before_transitive(
    by: SortBy,
    a: FileStatView,
    b: FileStatView,
    c: FileStatView,
)
    requires
        comes_before(by, a, b),
        comes_before(by, b, c),
    ensures
        comes_before(by, a, c),
{
    if text_before(a.path, b.path) && text_before(b.path, c.path) {
        lemma_text_before_transitive(a.path, b.path, c.path);
    }
}

/// A row that does not come before a second one, which in turn does not come
/// before a third, does not come before the third.
pub proof fn lemma_not_before_transitive(
    by: SortBy,
    a: FileStatView,
    b: FileStatView,
    c: FileStatView,
)
    requires
        !comes_before(by, a, b),
        !comes_before(by, b, c),
    ensures
        !comes_before(by, a, c),
{
    lemma_text_before_total(a.path, b.path);
    lemma_text_before_total(b.path, c.path);
    lemma_text_before_irreflexive(a.path);
    lemma_text_before_irreflexive(b.path);
    if text_before(b.path, a.path) && text_before(a.path, c.path) {
        lemma_text_before_transitive(b.path, a.path, c.path);
    }
    if text_before(a.path, c.path) && text_before(c.path, b.path) {
        lemma_text_before_transitive(a.path, c.path, b.path);
    }
}

/// The insertion point lies within the rows; `x` comes before every row
/// from it on, and not before the row in front of it.
pub proof fn lemma_insert_point(rows: Seq<FileStatView>, x: FileStatView, by: SortBy)
    ensures
        insert_point(rows, x, by) <= rows.len(),
        forall|j: int|
            insert_point(rows, x, by) <= j < rows.len() ==> comes_before(by, x, #[trigger] rows[j]),
        insert_point(rows, x, by) > 0 ==> !comes_before(
            by,
            x,
            rows[insert_point(rows, x, by) - 1],
        ),
    decreases rows.len(),
{
    if rows.len() > 0 && comes_before(by, x, rows.last()) {
        lemma_insert_point(rows.drop_last(), x, by);
        let p = insert_point(rows, x, by);
        assert forall|j: int| p <= j < rows.len() implies comes_before(
            by,
            x,
            #[trigger] rows[j],
        ) by {
            if j < rows.len() - 1 {
                assert(rows.drop_last()[j] == rows[j]);
            }
        }
        if p > 0 {
            assert(rows.drop_last()[p - 1] == rows[p - 1]);
        }
    }
}

/// Putting a row in at its insertion point keeps ordered rows ordered.
pub proof fn lemma_insert_keeps_order(rows: Seq<FileStatView>, x: FileStatView, by: SortBy)
    requires
        is_ordered(rows, by),
    ensures
        is_ordered(rows.insert(insert_point(rows, x, by) as int, x), by),
{
    let p = insert_point(rows, x, by) as int;
    let out = rows.insert(p, x);
    lemma_insert_point(rows, x, by);
    assert forall|i: int, j: int| 0 <= i < j < out.len() implies !comes_before(
        by,
        #[trigger] out[j],
        #[trigger] out[i],
    ) by {
        if j == p {
            // out[j] is x, out[i] is a row in front of the insertion point
            assert(out[i] == rows[i]);
            if i < p - 1 {
                assert(!comes_before(by, rows[p - 1], rows[i]));
            } else {
                lemma_comes_before_irreflexive(by, rows[i]);
            }
            lemma_not_before_transitive(by, x, rows[p - 1], rows[i]);
        } else if i == p {
            assert(out[j] == rows[j - 1]);
            assert(comes_before(by, x, rows[j - 1]));
            if comes_before(by, rows[j - 1], x) {
                lemma_comes_before_transitive(by, x, rows[j - 1], x);
                lemma_comes_before_irreflexive(by, x);
            }
        } else {
            let i0 = if i < p { i } else { i - 1 };
            let j0 = if j < p { j } else { j - 1 };
            assert(out[i] == rows[i0]);
            assert(out[j] == rows[j0]);
        }
    }
}

/// Sorted rows are ordered.
pub proof fn lemma_sorted_stats_ordered(rows: Seq<FileStatView>, by: SortBy)
    ensures
        is_ordered(sorted_stats(rows, by), by),
        sorted_stats(rows, by).len() == rows.len(),
    decreases rows.len(),
{
    if rows.len() > 0 {
        let front = sorted_stats(rows.drop_last(), by);
        lemma_sorted_stats_ordered(rows.drop_last(), by);
        lemma_insert_point(front, rows.last(), by);
        lemma_insert_keeps_order(front, rows.last(), by);
    }
}

/// Sorting leaves ordered rows as they are.
pub proof fn lemma_sorted_stats_of_ordered(rows: Seq<FileStatView>, by: SortBy)
    requires
        is_ordered(rows, by),
    ensures
        sorted_stats(rows, by) == rows,
    decreases rows.len(),
{
    if rows.len() > 0 {
        let front = rows.drop_last();
        assert forall|i: int, j: int| 0 <= i < j < front.len() implies !comes_before(
            by,
            #[trigger] front[j],
            #[trigger] front[i],
        ) by {
            assert(front[i] == rows[i]);
            assert(front[j] == rows[j]);
        }
        lemma_sorted_stats_of_ordered(front, by);
        if front.len() > 0 {
            assert(front.last() == rows[rows.len() - 2]);
            assert(rows.last() == rows[rows.len() - 1]);
            assert(!comes_before(by, rows.last(), front.last()));
        }
        assert(insert_point(front, rows.last(), by) == front.len());
        assert(front.insert(front.len() as int, rows.last()) =~= rows);
    }
}

/// Sorting neither adds nor drops a row: the sorted rows and the given rows
/// hold every row equally often.
pub proof fn lemma_sorted_stats_permutes(rows: Seq<FileStatView>, by: SortBy)
    ensures
        sorted_stats(rows, by).to_multiset() == rows.to_multiset(),
    decreases rows.len(),
{
    if rows.len() > 0 {
        let front = sorted_stats(rows.drop_last(), by);
        lemma_sorted_stats_permutes(rows.drop_last(), by);
        lemma_insert_point(front, rows.last(), by);
        vstd::seq_lib::to_multiset_insert(
            front,
            insert_point(front, rows.last(), by) as int,
            rows.last(),
        );
        vstd::seq_lib::to_multiset_build(rows.drop_last(), rows.last());
        assert(rows.drop_last().push(rows.last()) =~= rows);
    } else {
        assert(sorted_stats(rows, by) =~= rows);
    }
}

/// Sorting is stable: the rows that tie with any given row stand in the
/// sorted rows in the order in which they stood in the given ones.
pub proof fn lemma_sorted_stats_stable(rows: Seq<FileStatView>, by: SortBy, k: FileStatView)
    ensures
        tied_rows(sorted_stats(rows, by), by, k) == tied_rows(rows, by, k),
    decreases rows.len(),
{
    let pred = tied_with(by, k);
    if rows.len() > 0 {
        let front = sorted_stats(rows.drop_last(), by);
        let x = rows.last();
        let p = insert_point(front, x, by) as int;
        lemma_sorted_stats_stable(rows.drop_last(), by, k);
        lemma_insert_point(front, x, by);
        let head = front.take(p);
        let tail = front.skip(p);
        assert(front =~= head + tail);
        assert(front.insert(p, x) =~= head.push(x) + tail);
        Seq::filter_distributes_over_add(head, tail, pred);
        Seq::filter_distributes_over_add(head.push(x), tail, pred);
        Seq::lemma_filter_push(head, x, pred);
        Seq::lemma_filter_push(rows.drop_last(), x, pred);
        assert(rows.drop_last().push(x) =~= rows);
        if pred(x) {
            // no row behind the insertion point ties with k
            assert forall|j: int| 0 <= j < tail.len() implies !pred(#[trigger] tail[j]) by {
                assert(tail[j] == front[p + j]);
                assert(comes_before(by, x, front[p + j]));
                if pred(tail[j]) {
                    lemma_not_before_transitive(by, x, k, tail[j]);
                }
            }
            lemma_filter_none(tail, pred);
            assert(head.filter(pred).push(x) + Seq::<FileStatView>::empty() =~= (head.filter(pred)
                + tail.filter(pred)).push(x));
        }
    }
}

/// The sorted rows are a stable ordering of the given rows.
pub proof fn lemma_sorted_stats_is_stable_ordering(rows: Seq<FileStatView>, by: SortBy)
    ensures
        is_stable_ordering(sorted_stats(rows, by), rows, by),
{
    lemma_sorted_stats_ordered(rows, by);
    assert forall|k: FileStatView| #[trigger]
        tied_rows(sorted_stats(rows, by), by, k) == tied_rows(rows, by, k) by {
        lemma_sorted_stats_stable(rows, by, k);
    }
}

/// Rows have one stable ordering only: whatever is ordered and keeps the
/// rows that tie in the order they had is the sorted rows.
pub proof fn lemma_stable_ordering_is_sorted_stats(
    out: Seq<FileStatView>,
    rows: Seq<FileStatView>,
    by: SortBy,
)
    requires
        is_stable_ordering(out, rows, by),
    ensures
        out == sorted_stats(rows, by),
{
    let sorted = sorted_stats(rows, by);
    lemma_sorted_stats_is_stable_ordering(rows, by);
    assert forall|k: FileStatView| #[trigger] tied_rows(out, by, k) == tied_rows(sorted, by, k) by {
        assert(tied_rows(out, by, k) == tied_rows(rows, by, k));
        assert(tied_rows(sorted, by, k) == tied_rows(rows, by, k));
    }
    lemma_same_ties_same_order(out, sorted, by);
}

/// Two ordered sequences of rows in which the rows that tie with any given
/// row are the same, in the same order, are equal.
pub proof fn lemma_same_ties_same_order(a: Seq<FileStatView>, b: Seq<FileStatView>, by: SortBy)
    requires
        is_ordered(a, by),
        is_ordered(b, by),
        forall|k: FileStatView| #[trigger] tied_rows(a, by, k) == tied_rows(b, by, k),
    ensures
        a == b,
    decreases a.len() + b.len(),
{
    if a.len() == 0 || b.len() == 0 {
        if a.len() > 0 {
            lemma_row_is_among_its_ties(a, by, 0);
            lemma_filter_none(b, tied_with(by, a[0]));
            assert(tied_rows(a, by, a[0]) == tied_rows(b, by, a[0]));
        }
        if b.len() > 0 {
            lemma_row_is_among_its_ties(b, by, 0);
            lemma_filter_none(a, tied_with(by, b[0]));
            assert(tied_rows(a, by, b[0]) == tied_rows(b, by, b[0]));
        }
        assert(a =~= b);
    } else {
        let x = a.last();
        let y = b.last();
        let front_a = a.drop_last();
        let front_b = b.drop_last();
        assert(a =~= front_a.push(x));
        assert(b =~= front_b.push(y));
        lemma_comes_before_irreflexive(by, x);
        lemma_comes_before_irreflexive(by, y);
        // the last rows are the same row
        Seq::lemma_filter_push(front_a, x, tied_with(by, x));
        Seq::lemma_filter_push(front_b, y, tied_with(by, x));
        assert(tied_rows(a, by, x) == tied_rows(b, by, x));
        assert(tied_rows(a, by, x).last() == x);
        if !ties(by, y, x) {
            // x stands in b, in front of y, and y stands in a, in front of x
            assert(tied_rows(b, by, x).contains(x)) by {
                let tied = tied_rows(a, by, x);
                assert(tied[tied.len() - 1] == x);
            }
            b.lemma_filter_contains_rev(tied_with(by, x), x);
            let j = choose|j: int| 0 <= j < b.len() && b[j] == x;
            assert(j < b.len() - 1);
            assert(!comes_before(by, b[b.len() - 1], b[j]));
            Seq::lemma_filter_push(front_a, x, tied_with(by, y));
            Seq::lemma_filter_push(front_b, y, tied_with(by, y));
            assert(tied_rows(a, by, y) == tied_rows(b, by, y));
            assert(tied_rows(a, by, y).contains(y)) by {
                let tied = tied_rows(b, by, y);
                assert(tied[tied.len() - 1] == y);
            }
            a.lemma_filter_contains_rev(tied_with(by, y), y);
            let i = choose|i: int| 0 <= i < a.len() && a[i] == y;
            assert(i < a.len() - 1);
            assert(!comes_before(by, a[a.len() - 1], a[i]));
            assert(false);
        }
        assert(x == y);
        // and what stands in front of them falls under the same claim
        assert forall|i: int, j: int| 0 <= i < j < front_a.len() implies !comes_before(
            by,
            #[trigger] front_a[j],
            #[trigger] front_a[i],
        ) by {
            assert(front_a[i] == a[i]);
            assert(front_a[j] == a[j]);
        }
        assert forall|i: int, j: int| 0 <= i < j < front_b.len() implies !comes_before(
            by,
            #[trigger] front_b[j],
            #[trigger] front_b[i],
        ) by {
            assert(front_b[i] == b[i]);
            assert(front_b[j] == b[j]);
        }
        assert forall|k: FileStatView| #[trigger]
            tied_rows(front_a, by, k) == tied_rows(front_b, by, k) by {
            Seq::lemma_filter_push(front_a, x, tied_with(by, k));
            Seq::lemma_filter_push(front_b, x, tied_with(by, k));
            assert(tied_rows(a, by, k) == tied_rows(b, by, k));
            if ties(by, x, k) {
                assert(tied_rows(front_a, by, k).push(x).drop_last() =~= tied_rows(front_a, by, k));
                assert(tied_rows(front_b, by, k).push(x).drop_last() =~= tied_rows(front_b, by, k));
            }
        }
        lemma_same_ties_same_order(front_a, front_b, by);
    }
}

/// A row is among the rows that tie with it.
proof fn lemma_row_is_among_its_ties(rows: Seq<FileStatView>, by: SortBy, i: int)
    requires
        0 <= i < rows.len(),
    ensures
        tied_rows(rows, by, rows[i]).len() > 0,
{
    lemma_comes_before_irreflexive(by, rows[i]);
    rows.lemma_filter_contains(tied_with(by, rows[i]), i);
}

/// A filter that no row passes leaves nothing.
proof fn lemma_filter_none(rows: Seq<FileStatView>, pred: spec_fn(FileStatView) -> bool)
    requires
        forall|j: int| 0 <= j < rows.len() ==> !pred(#[trigger] rows[j]),
    ensures
        rows.filter(pred) == Seq::<FileStatView>::empty(),
    decreases rows.len(),
{
    reveal(Seq::filter);
    if rows.len() > 0 {
        lemma_filter_none(rows.drop_last(), pred);
    }
}

/// Whether `a` has to stand strictly before `b` under the key `by`.
pub fn precedes(by: SortBy, a: &FileStat, b: &FileStat) -> (r: bool)
    ensures
        r == comes_before(by, a@, b@),
{
    match by {
        SortBy::Path => text_precedes(a.path.as_str(), b.path.as_str()),
        SortBy::Tokens => a.tokens > b.tokens || (a.tokens == b.tokens && text_precedes(
            a.path.as_str(),
            b.path.as_str(),
        )),
    }
}

/// Sorts copies of `stats` by the key `by`; statistics that tie keep the
/// order they had in `stats`.
pub fn sort_stats(stats: &Vec<FileStat>, by: SortBy) -> (out: Vec<FileStat>)
    ensures
        stat_views(out@) == sorted_stats(stat_views(stats@), by),
        is_stable_ordering(stat_views(out@), stat_views(stats@), by),
        stat_views(out@).to_multiset() == stat_views(stats@).to_multiset(),
{
    proof {
        lemma_sorted_stats_is_stable_ordering(stat_views(stats@), by);
        lemma_sorted_stats_permutes(stat_views(stats@), by);
    }
    let mut out: Vec<FileStat> = Vec::new();
    let mut i: usize = 0;
    assert(stat_views(stats@).take(0) =~= Seq::<FileStatView>::empty());
    assert(stat_views(out@) =~= Seq::<FileStatView>::empty());
    while i < stats.len()
        invariant
            i <= stats.len(),
            out.len() == i,
            stat_views(out@) == sorted_stats(stat_views(stats@).take(i as int), by),
        decreases stats.len() - i,
    {
        let ghost rows = stat_views(out@);
        let ghost x = stats[i as int]@;
        let mut pos: usize = out.len();
        assert(rows.take(pos as int) =~= rows);
        while pos > 0 && precedes(by, &stats[i], &out[pos - 1])
            invariant
                pos <= out.len(),
                i < stats.len(),
                rows == stat_views(out@),
                x == stats[i as int]@,
                insert_point(rows, x, by) == insert_point(rows.take(pos as int), x, by),
            decreases pos,
        {
            assert(rows.take(pos as int).last() == out[pos - 1]@);
            assert(rows.take(pos as int).drop_last() =~= rows.take(pos as int - 1));
            pos = pos - 1;
        }
        assert(insert_point(rows, x, by) == pos) by {
            if pos > 0 {
                assert(rows.take(pos as int).last() == out[pos - 1]@);
            }
        }
        out.insert(pos, stats[i].copied());
        proof {
            let given = stat_views(stats@);
            assert(stat_views(out@) =~= rows.insert(pos as int, x));
            assert(given.take(i as int + 1).drop_last() =~= given.take(i as int));
            assert(given.take(i as int + 1).last() == x);
        }
        i = i + 1;
    }
    assert(stat_views(stats@).take(i as int) =~= stat_views(stats@));
    out
}

} // verus!
