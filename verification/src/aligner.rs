//! Side-by-side alignment of several editions of one liturgy.
//!
//! The reference document gives the rows. A child without tags fills one row
//! across the whole table. A child with tags gives one row for each tag: the
//! child itself, then what each comparison document holds under that tag.
//! Neighbouring cells of a row that hold the same content become one wider cell.

use vstd::prelude::*;
use crate::document::{
    bare, clone_doc, docs_view, same_content, series_or_single, Content, ContentView, Document,
    DocumentView,
};

verus! {

/// A cell of the table: a document and the number of columns it covers.
pub type CellView = (DocumentView, nat);

/// The cell that stands where a comparison document has nothing to show.
pub open spec fn placeholder() -> DocumentView {
    bare(ContentView::Empty)
}

/// What `comparison` shows under `tag`: its one child with that tag, a series
/// of them where there are several, the placeholder where there is none.
pub open spec fn counterpart(comparison: DocumentView, tag: Seq<char>) -> DocumentView {
    match series_or_single(comparison.children_with_tag(tag)) {
        Some(found) => found,
        None => placeholder(),
    }
}

/// The row for `tag` before merging: the reference child, then the
/// counterpart from each comparison document, one column each.
pub open spec fn tag_row(child: DocumentView, tag: Seq<char>, comparisons: Seq<DocumentView>) -> Seq<
    DocumentView,
> {
    seq![child] + Seq::new(comparisons.len(), |i: int| counterpart(comparisons[i], tag))
}

/// Whether column `i` begins a cell: it is the first column, or its content
/// differs from that of the column before it.
pub open spec fn starts_run(cells: Seq<DocumentView>, i: int) -> bool {
    i == 0 || cells[i].content != cells[i - 1].content
}

/// The length of the longest run of columns from `i` on that all hold the
/// content of column `i`.
pub open spec fn run_len(cells: Seq<DocumentView>, i: int) -> nat
    decreases cells.len() - i,
{
    if 0 <= i && i + 1 < cells.len() && cells[i + 1].content == cells[i].content {
        1 + run_len(cells, i + 1)
    } else {
        1
    }
}

/// The merged cells that begin in the first `n` columns.
pub open spec fn merged_upto(cells: Seq<DocumentView>, n: int) -> Seq<CellView>
    decreases n,
{
    if n <= 0 {
        Seq::empty()
    } else if starts_run(cells, n - 1) {
        merged_upto(cells, n - 1).push((cells[n - 1], run_len(cells, n - 1)))
    } else {
        merged_upto(cells, n - 1)
    }
}

/// A row after merging: one cell for each column that begins a run, as wide
/// as the run.
pub open spec fn merged(cells: Seq<DocumentView>) -> Seq<CellView> {
    merged_upto(cells, cells.len() as int)
}

/// The rows that one child of the reference document gives: one full-width
/// cell where it has no tags, else one merged row for each of its tags, in the
/// order of the tags.
pub open spec fn rows_for(child: DocumentView, comparisons: Seq<DocumentView>) -> Seq<
    Seq<CellView>,
> {
    if child.tags.len() == 0 {
        seq![seq![(child, (comparisons.len() + 1) as nat)]]
    } else {
        Seq::new(child.tags.len(), |t: int| merged(tag_row(child, child.tags[t], comparisons)))
    }
}

/// The rows that the first `n` children of the reference document give.
pub open spec fn table_upto(
    reference: DocumentView,
    comparisons: Seq<DocumentView>,
    n: int,
) -> Seq<Seq<CellView>>
    decreases n,
{
    if n <= 0 {
        Seq::empty()
    } else {
        table_upto(reference, comparisons, n - 1) + rows_for(
            reference.children()[n - 1],
            comparisons,
        )
    }
}

/// The whole table: the rows of every child of the reference document, in the
/// order of the children.
pub open spec fn table(reference: DocumentView, comparisons: Seq<DocumentView>) -> Seq<
    Seq<CellView>,
> {
    table_upto(reference, comparisons, reference.children().len() as int)
}

/// The value of a row of cells.
pub open spec fn row_view(row: Vec<(Document, usize)>) -> Seq<CellView> {
    Seq::new(row.len() as nat, |i: int| (row[i].0@, row[i].1 as nat))
}

/// The value of a table of rows.
pub open spec fn table_view(rows: Vec<Vec<(Document, usize)>>) -> Seq<Seq<CellView>> {
    Seq::new(rows.len() as nat, |i: int| row_view(rows[i]))
}

/// Merges the neighbouring cells of a row that hold the same content.
pub fn merge_row(cells: &Vec<Document>) -> (r: Vec<(Document, usize)>)
    ensures
        row_view(r) == merged(docs_view(*cells)),
{
    let ghost view = docs_view(*cells);
    let mut out: Vec<(Document, usize)> = Vec::new();
    let mut i: usize = 0;
    assert(row_view(out) =~= merged_upto(view, 0));
    while i < cells.len()
        invariant
            i <= cells.len(),
            view == docs_view(*cells),
            row_view(out) == merged_upto(view, i as int),
        decreases cells.len() - i,
    {
        let starts = i == 0 || !same_content(&cells[i - 1].content, &cells[i].content);
        assert(starts == starts_run(view, i as int));
        if starts {
            let mut width: usize = 1;
            let mut j: usize = i + 1;
            while j < cells.len() && same_content(&cells[j].content, &cells[i].content)
                invariant
                    i < j <= cells.len(),
                    view == docs_view(*cells),
                    width == j - i,
                    run_len(view, i as int) == (j - 1 - i) + run_len(view, j - 1),
                    forall|k: int| i <= k < j ==> view[k].content == view[i as int].content,
                decreases cells.len() - j,
            {
                assert(view[j as int].content == view[j - 1].content);
                width += 1;
                j += 1;
            }
            assert(run_len(view, j - 1) == 1);
            let ghost before = row_view(out);
            out.push((clone_doc(&cells[i]), width));
            assert(row_view(out) =~= before.push((view[i as int], width as nat)));
        }
        i += 1;
    }
    out
}

/// The number of columns that the cells of a row cover together.
pub open spec fn span_sum(row: Seq<CellView>) -> nat
    decreases row.len(),
{
    if row.len() == 0 {
        0
    } else {
        span_sum(row.drop_last()) + row.last().1
    }
}

/// The cells that begin in the first `n` columns cover those columns and the
/// rest of the run that column `n - 1` lies in.
pub proof fn lemma_span_sum_upto(cells: Seq<DocumentView>, n: int)
    requires
        0 < n <= cells.len(),
    ensures
        span_sum(merged_upto(cells, n)) == (n - 1) + run_len(cells, n - 1),
    decreases n,
{
    let last = (cells[n - 1], run_len(cells, n - 1));
    if n == 1 {
        assert(merged_upto(cells, 0) =~= Seq::<CellView>::empty());
        assert(merged_upto(cells, 1) =~= seq![last]);
        assert(merged_upto(cells, 1).drop_last() =~= Seq::<CellView>::empty());
        assert(span_sum(Seq::<CellView>::empty()) == 0);
    } else {
        lemma_span_sum_upto(cells, n - 1);
        let before = merged_upto(cells, n - 1);
        if starts_run(cells, n - 1) {
            assert(before.push(last).drop_last() =~= before);
        }
    }
}

/// A merged row covers exactly the columns of the row it was made from.
pub proof fn lemma_merged_covers(cells: Seq<DocumentView>)
    ensures
        span_sum(merged(cells)) == cells.len(),
{
    if cells.len() > 0 {
        lemma_span_sum_upto(cells, cells.len() as int);
    }
}

/// A run holds one content throughout, ends inside the row, and ends where
/// the row ends or the content changes.
pub proof fn lemma_run_is_maximal(cells: Seq<DocumentView>, i: int)
    requires
        0 <= i < cells.len(),
    ensures
        1 <= run_len(cells, i),
        i + run_len(cells, i) <= cells.len(),
        forall|j: int| i <= j < i + run_len(cells, i) ==> cells[j].content == cells[i].content,
        i + run_len(cells, i) < cells.len() ==> cells[i + run_len(cells, i)].content
            != cells[i].content,
    decreases cells.len() - i,
{
    if i + 1 < cells.len() && cells[i + 1].content == cells[i].content {
        lemma_run_is_maximal(cells, i + 1);
    }
}

/// The column at which cell `k` of a row begins: behind the cells before it.
pub open spec fn cell_start(row: Seq<CellView>, k: int) -> nat {
    span_sum(row.take(k))
}

/// Each of the cells that begin in the first `n` columns begins at a column
/// that starts a run, holds the document of that column, and is as wide as
/// the run.
pub proof fn lemma_merged_upto_cells(cells: Seq<DocumentView>, n: int, k: int)
    requires
        0 <= n <= cells.len(),
        0 <= k < merged_upto(cells, n).len(),
    ensures
        cell_start(merged_upto(cells, n), k) < n,
        starts_run(cells, cell_start(merged_upto(cells, n), k) as int),
        merged_upto(cells, n)[k] == (
            cells[cell_start(merged_upto(cells, n), k) as int],
            run_len(cells, cell_start(merged_upto(cells, n), k) as int),
        ),
    decreases n,
{
    let now = merged_upto(cells, n);
    let before = merged_upto(cells, n - 1);
    if k < before.len() {
        lemma_merged_upto_cells(cells, n - 1, k);
        assert(now.take(k) =~= before.take(k));
    } else {
        assert(starts_run(cells, n - 1));
        assert(now.take(k) =~= before);
        if n - 1 > 0 {
            lemma_span_sum_upto(cells, n - 1);
        } else {
            assert(before =~= Seq::<CellView>::empty());
        }
    }
}

/// The cells of a merged row are the runs of the row, one after another:
/// each cell begins where the cells before it end, holds the document of its
/// first column, covers columns of one content, and at either end borders on
/// the end of the row or on a column of another content.
pub proof fn law_merged_cells_are_runs(cells: Seq<DocumentView>, k: int)
    requires
        0 <= k < merged(cells).len(),
    ensures
        ({
            let start = cell_start(merged(cells), k) as int;
            let width = merged(cells)[k].1 as int;
            &&& 1 <= width
            &&& start + width <= cells.len()
            &&& merged(cells)[k].0 == cells[start]
            &&& forall|j: int| start <= j < start + width ==> cells[j].content == cells[start].content
            &&& start > 0 ==> cells[start - 1].content != cells[start].content
            &&& start + width < cells.len() ==> cells[start + width].content
                != cells[start].content
        }),
{
    lemma_merged_upto_cells(cells, cells.len() as int, k);
    lemma_run_is_maximal(cells, cell_start(merged(cells), k) as int);
}

/// Every row that a child of the reference document gives covers one column
/// for the reference and one for each comparison document.
pub proof fn lemma_rows_for_rectangular(
    child: DocumentView,
    comparisons: Seq<DocumentView>,
    r: int,
)
    requires
        0 <= r < rows_for(child, comparisons).len(),
    ensures
        span_sum(rows_for(child, comparisons)[r]) == comparisons.len() + 1,
{
    if child.tags.len() == 0 {
        let row = seq![(child, (comparisons.len() + 1) as nat)];
        assert(row.drop_last() =~= Seq::<CellView>::empty());
        assert(span_sum(Seq::<CellView>::empty()) == 0);
        assert(span_sum(row) == comparisons.len() + 1);
    } else {
        let cells = tag_row(child, child.tags[r], comparisons);
        assert(cells.len() == comparisons.len() + 1);
        lemma_merged_covers(cells);
    }
}

/// Every row of the table covers exactly `comparisons.len() + 1` columns: the
/// table is a rectangle without gaps or overlaps.
pub proof fn law_table_rectangular(
    reference: DocumentView,
    comparisons: Seq<DocumentView>,
    r: int,
)
    requires
        0 <= r < table(reference, comparisons).len(),
    ensures
        span_sum(table(reference, comparisons)[r]) == comparisons.len() + 1,
{
    lemma_table_upto_rectangular(reference, comparisons, reference.children().len() as int, r);
}

/// The rows of the first `n` children each cover `comparisons.len() + 1` columns.
pub proof fn lemma_table_upto_rectangular(
    reference: DocumentView,
    comparisons: Seq<DocumentView>,
    n: int,
    r: int,
)
    requires
        0 <= r < table_upto(reference, comparisons, n).len(),
    ensures
        span_sum(table_upto(reference, comparisons, n)[r]) == comparisons.len() + 1,
    decreases n,
{
    if n > 0 {
        let before = table_upto(reference, comparisons, n - 1);
        if r < before.len() {
            lemma_table_upto_rectangular(reference, comparisons, n - 1, r);
        } else {
            lemma_rows_for_rectangular(
                reference.children()[n - 1],
                comparisons,
                r - before.len(),
            );
        }
    }
}

/// A child without tags gives exactly one row, and that row is one cell that
/// holds the child and covers the whole width, whatever the comparison
/// documents hold.
pub proof fn law_untagged_child_indivisible(child: DocumentView, comparisons: Seq<DocumentView>)
    requires
        child.tags.len() == 0,
    ensures
        rows_for(child, comparisons).len() == 1,
        rows_for(child, comparisons)[0].len() == 1,
        rows_for(child, comparisons)[0][0] == (child, (comparisons.len() + 1) as nat),
{
}

/// A child with tags gives one row for each tag, in the order of the tags.
pub proof fn law_one_row_per_tag(child: DocumentView, comparisons: Seq<DocumentView>, t: int)
    requires
        0 <= t < child.tags.len(),
    ensures
        rows_for(child, comparisons).len() == child.tags.len(),
        rows_for(child, comparisons)[t] == merged(tag_row(child, child.tags[t], comparisons)),
{
}

/// Where a comparison document has no child that carries the tag, its column
/// of the row holds the placeholder: the row keeps its full length.
pub proof fn law_missing_counterpart_is_placeholder(
    child: DocumentView,
    tag: Seq<char>,
    comparisons: Seq<DocumentView>,
    i: int,
)
    requires
        0 <= i < comparisons.len(),
        forall|k: int|
            0 <= k < comparisons[i].children().len() ==> !comparisons[i].children()[k].has_tag(
                tag,
            ),
    ensures
        tag_row(child, tag, comparisons).len() == comparisons.len() + 1,
        tag_row(child, tag, comparisons)[i + 1] == placeholder(),
        placeholder().content == ContentView::Empty,
{
    lemma_none_carry_tag(comparisons[i].children(), tag);
}

/// Among documents of which none carries `tag`, the search for it finds none.
pub proof fn lemma_none_carry_tag(docs: Seq<DocumentView>, tag: Seq<char>)
    requires
        forall|k: int| 0 <= k < docs.len() ==> !docs[k].has_tag(tag),
    ensures
        docs.filter(|c: DocumentView| c.has_tag(tag)).len() == 0,
    decreases docs.len(),
{
    reveal(Seq::filter);
    if docs.len() > 0 {
        lemma_none_carry_tag(docs.drop_last(), tag);
    }
}

/// Cells that hold the same content merge only where they are neighbours: in
/// the row `a, a, b, a` the first two become one cell of width two, and the
/// last `a` stays a cell of its own behind `b`.
pub proof fn law_only_neighbours_merge(a: DocumentView, b: DocumentView)
    requires
        a.content != b.content,
    ensures
        merged(seq![a, a, b, a]) == seq![(a, 2nat), (b, 1nat), (a, 1nat)],
{
    let cells = seq![a, a, b, a];
    reveal_with_fuel(merged_upto, 5);
    reveal_with_fuel(run_len, 5);
    assert(merged(cells) =~= seq![(a, 2nat), (b, 1nat), (a, 1nat)]);
}

/// What `comparison` shows under `tag`.
pub fn find_counterpart(comparison: &Document, tag: &String) -> (r: Document)
    ensures
        r@ == counterpart(comparison@, tag@),
{
    match Document::series_or_document(comparison.children_with_tag(tag)) {
        Some(found) => found,
        None => Document::from_content(Content::Empty),
    }
}

/// The row for `tag` before merging.
pub fn build_tag_row(child: &Document, tag: &String, comparisons: &Vec<Document>) -> (r: Vec<
    Document,
>)
    ensures
        docs_view(r) == tag_row(child@, tag@, docs_view(*comparisons)),
{
    let ghost others = docs_view(*comparisons);
    let mut out: Vec<Document> = Vec::new();
    out.push(clone_doc(child));
    let mut i: usize = 0;
    while i < comparisons.len()
        invariant
            i <= comparisons.len(),
            others == docs_view(*comparisons),
            out.len() == i + 1,
            out[0]@ == child@,
            forall|k: int| 0 <= k < i ==> out[k + 1]@ == counterpart(others[k], tag@),
        decreases comparisons.len() - i,
    {
        let found = find_counterpart(&comparisons[i], tag);
        out.push(found);
        i += 1;
    }
    assert(docs_view(out) =~= tag_row(child@, tag@, others));
    out
}

/// The rows that one child of the reference document gives.
pub fn rows_for_child(child: &Document, comparisons: &Vec<Document>) -> (r: Vec<
    Vec<(Document, usize)>,
>)
    requires
        comparisons.len() < usize::MAX,
    ensures
        table_view(r) == rows_for(child@, docs_view(*comparisons)),
{
    let ghost others = docs_view(*comparisons);
    let mut out: Vec<Vec<(Document, usize)>> = Vec::new();
    if child.tags.len() == 0 {
        let mut row: Vec<(Document, usize)> = Vec::new();
        row.push((clone_doc(child), comparisons.len() + 1));
        assert(row_view(row) =~= seq![(child@, (others.len() + 1) as nat)]);
        out.push(row);
        assert(table_view(out) =~= rows_for(child@, others));
        return out;
    }
    let mut t: usize = 0;
    while t < child.tags.len()
        invariant
            t <= child.tags.len(),
            others == docs_view(*comparisons),
            out.len() == t,
            forall|k: int|
                0 <= k < t ==> row_view(#[trigger] out[k]) == merged(
                    tag_row(child@, child.tags[k]@, others),
                ),
        decreases child.tags.len() - t,
    {
        let cells = build_tag_row(child, &child.tags[t], comparisons);
        let row = merge_row(&cells);
        out.push(row);
        t += 1;
    }
    assert(table_view(out) =~= rows_for(child@, others));
    out
}

/// Lays the comparison documents beside the reference document.
///
/// The result has the rows of every child of `reference` in order; each row
/// holds the merged cells with their widths.
pub fn align(reference: &Document, comparisons: &Vec<Document>) -> (r: Vec<
    Vec<(Document, usize)>,
>)
    requires
        comparisons.len() < usize::MAX,
    ensures
        table_view(r) == table(reference@, docs_view(*comparisons)),
{
    let ghost others = docs_view(*comparisons);
    let mut out: Vec<Vec<(Document, usize)>> = Vec::new();
    let n = reference.child_count();
    let mut i: usize = 0;
    assert(table_view(out) =~= table_upto(reference@, others, 0));
    while i < n
        invariant
            i <= n,
            n == reference@.children().len(),
            others == docs_view(*comparisons),
            comparisons.len() < usize::MAX,
            table_view(out) == table_upto(reference@, others, i as int),
        decreases n - i,
    {
        let mut rows = rows_for_child(reference.child(i), comparisons);
        let ghost before = table_view(out);
        let ghost added = table_view(rows);
        out.append(&mut rows);
        assert(table_view(out) =~= before + added);
        i += 1;
    }
    out
}

} // verus!
