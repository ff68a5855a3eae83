//! The documents of a category as a tree: by category, by subcategory, and by
//! label.
//!
//! The first tag of a document names its category and the second its
//! subcategory. Documents that follow one another and share a key stand under
//! one heading.

use vstd::prelude::*;
use vstd::string::StringExecFns;
use crate::document::{
    clone_content, clone_doc, clone_opt_string, clone_strings, docs_view, opt_view, Document,
    DocumentView,
};
use crate::grouping::{
    is_grouping, is_run_partition, joined, key_runs, keys_view, lemma_runs_give_grouping,
    run_heads, run_parts,
};

verus! {

/// The documents that follow one another under one label.
#[derive(Debug)]
pub struct LabelGroup {
    pub label: Option<String>,
    pub documents: Vec<Document>,
}

/// The mathematical value of a [`LabelGroup`].
pub struct LabelGroupView {
    pub label: Option<Seq<char>>,
    pub documents: Seq<DocumentView>,
}

impl View for LabelGroup {
    type V = LabelGroupView;

    open spec fn view(&self) -> LabelGroupView {
        LabelGroupView { label: opt_view(self.label), documents: docs_view(self.documents) }
    }
}

/// The values of a list of label groups.
pub open spec fn label_groups_view(groups: Vec<LabelGroup>) -> Seq<LabelGroupView> {
    Seq::new(groups.len() as nat, |i: int| groups[i]@)
}

/// The labels that the groups stand under.
pub open spec fn label_heads(groups: Seq<LabelGroupView>) -> Seq<Option<Seq<char>>> {
    Seq::new(groups.len(), |g: int| groups[g].label)
}

/// The documents of each group.
pub open spec fn label_parts(groups: Seq<LabelGroupView>) -> Seq<Seq<DocumentView>> {
    Seq::new(groups.len(), |g: int| groups[g].documents)
}

/// Whether `groups` are `items` grouped by label.
pub open spec fn grouped_by_label(items: Seq<DocumentView>, groups: Seq<LabelGroupView>) -> bool {
    is_grouping(items, |d: DocumentView| d.label, label_heads(groups), label_parts(groups))
}

/// The tag of a document at position `i`, if it has that many tags.
pub open spec fn tag_at(doc: DocumentView, i: int) -> Option<Seq<char>> {
    if 0 <= i < doc.tags.len() {
        Some(doc.tags[i])
    } else {
        None
    }
}

/// The label groups that follow one another under one subcategory.
#[derive(Debug)]
pub struct SubcategoryGroup {
    pub subcategory: Option<String>,
    pub labels: Vec<LabelGroup>,
}

/// The mathematical value of a [`SubcategoryGroup`].
pub struct SubcategoryGroupView {
    pub subcategory: Option<Seq<char>>,
    pub labels: Seq<LabelGroupView>,
}

impl View for SubcategoryGroup {
    type V = SubcategoryGroupView;

    open spec fn view(&self) -> SubcategoryGroupView {
        SubcategoryGroupView {
            subcategory: opt_view(self.subcategory),
            labels: label_groups_view(self.labels),
        }
    }
}

impl SubcategoryGroupView {
    /// All documents of the subcategory, in order.
    pub open spec fn documents(self) -> Seq<DocumentView> {
        joined(label_parts(self.labels), self.labels.len() as int)
    }
}

/// The values of a list of subcategory groups.
pub open spec fn subcategory_groups_view(groups: Vec<SubcategoryGroup>) -> Seq<
    SubcategoryGroupView,
> {
    Seq::new(groups.len() as nat, |i: int| groups[i]@)
}

/// The subcategories that the groups stand under.
pub open spec fn subcategory_heads(groups: Seq<SubcategoryGroupView>) -> Seq<Option<Seq<char>>> {
    Seq::new(groups.len(), |g: int| groups[g].subcategory)
}

/// The documents of each group.
pub open spec fn subcategory_parts(groups: Seq<SubcategoryGroupView>) -> Seq<Seq<DocumentView>> {
    Seq::new(groups.len(), |g: int| groups[g].documents())
}

/// Whether `groups` are `items` grouped by subcategory, and the documents of
/// each group in turn by label.
pub open spec fn grouped_by_subcategory(
    items: Seq<DocumentView>,
    groups: Seq<SubcategoryGroupView>,
) -> bool {
    &&& is_grouping(
        items,
        |d: DocumentView| tag_at(d, 1),
        subcategory_heads(groups),
        subcategory_parts(groups),
    )
    &&& forall|g: int|
        0 <= g < groups.len() ==> grouped_by_label(
            (#[trigger] groups[g]).documents(),
            groups[g].labels,
        )
}

/// The subcategory groups that follow one another under one category.
#[derive(Debug)]
pub struct CategoryGroup {
    pub category: Option<String>,
    pub subcategories: Vec<SubcategoryGroup>,
}

/// The mathematical value of a [`CategoryGroup`].
pub struct CategoryGroupView {
    pub category: Option<Seq<char>>,
    pub subcategories: Seq<SubcategoryGroupView>,
}

impl View for CategoryGroup {
    type V = CategoryGroupView;

    open spec fn view(&self) -> CategoryGroupView {
        CategoryGroupView {
            category: opt_view(self.category),
            subcategories: subcategory_groups_view(self.subcategories),
        }
    }
}

impl CategoryGroupView {
    /// All documents of the category, in order.
    pub open spec fn documents(self) -> Seq<DocumentView> {
        joined(subcategory_parts(self.subcategories), self.subcategories.len() as int)
    }
}

/// The values of a list of category groups.
pub open spec fn category_groups_view(groups: Vec<CategoryGroup>) -> Seq<CategoryGroupView> {
    Seq::new(groups.len() as nat, |i: int| groups[i]@)
}

/// The categories that the groups stand under.
pub open spec fn category_heads(groups: Seq<CategoryGroupView>) -> Seq<Option<Seq<char>>> {
    Seq::new(groups.len(), |g: int| groups[g].category)
}

/// The documents of each group.
pub open spec fn category_parts(groups: Seq<CategoryGroupView>) -> Seq<Seq<DocumentView>> {
    Seq::new(groups.len(), |g: int| groups[g].documents())
}

/// Whether `tree` is `items` grouped by category, the documents of each
/// category by subcategory, and those of each subcategory by label.
pub open spec fn is_category_tree(items: Seq<DocumentView>, tree: Seq<CategoryGroupView>) -> bool {
    &&& is_grouping(
        items,
        |d: DocumentView| tag_at(d, 0),
        category_heads(tree),
        category_parts(tree),
    )
    &&& forall|g: int|
        0 <= g < tree.len() ==> grouped_by_subcategory(
            (#[trigger] tree[g]).documents(),
            tree[g].subcategories,
        )
}

/// A copy of the tag of a document at position `i`, if it has that many tags.
pub fn tag_of(doc: &Document, i: usize) -> (r: Option<String>)
    ensures
        opt_view(r) == tag_at(doc@, i as int),
{
    if i < doc.tags.len() {
        Some(doc.tags[i].clone())
    } else {
        None
    }
}

/// Copies of the documents from position `start` up to `end`.
pub fn clone_range(docs: &Vec<Document>, start: usize, end: usize) -> (r: Vec<Document>)
    requires
        start <= end <= docs.len(),
    ensures
        docs_view(r) == docs_view(*docs).subrange(start as int, end as int),
{
    let mut out: Vec<Document> = Vec::new();
    let mut i: usize = start;
    while i < end
        invariant
            start <= i <= end <= docs.len(),
            out.len() == i - start,
            forall|k: int| 0 <= k < i - start ==> out[k]@ == docs[start + k]@,
        decreases end - i,
    {
        out.push(clone_doc(&docs[i]));
        i += 1;
    }
    assert(docs_view(out) =~= docs_view(*docs).subrange(start as int, end as int));
    out
}

/// The documents from position `start` up to `end`, grouped by label.
pub fn label_groups(docs: &Vec<Document>, start: usize, end: usize) -> (r: Vec<LabelGroup>)
    requires
        start <= end <= docs.len(),
    ensures
        grouped_by_label(
            docs_view(*docs).subrange(start as int, end as int),
            label_groups_view(r),
        ),
{
    let ghost items = docs_view(*docs).subrange(start as int, end as int);
    let mut keys: Vec<Option<String>> = Vec::new();
    let mut i: usize = start;
    while i < end
        invariant
            start <= i <= end <= docs.len(),
            keys.len() == i - start,
            forall|k: int| 0 <= k < i - start ==> opt_view(keys[k]) == docs[start + k]@.label,
        decreases end - i,
    {
        keys.push(clone_opt_string(&docs[i].label));
        i += 1;
    }
    let runs = key_runs(&keys);
    let ghost kv = keys_view(keys@);
    let ghost key = |d: DocumentView| d.label;
    proof {
        lemma_runs_give_grouping(items, key, kv, runs@);
    }
    let mut groups: Vec<LabelGroup> = Vec::new();
    let mut g: usize = 0;
    while g < runs.len()
        invariant
            g <= runs.len(),
            groups.len() == g,
            start <= end <= docs.len(),
            keys.len() == end - start,
            items == docs_view(*docs).subrange(start as int, end as int),
            kv == keys_view(keys@),
            forall|k: int| 0 <= k < end - start ==> kv[k] == docs[start + k]@.label,
            is_run_partition(kv, runs@),
            forall|k: int|
                0 <= k < g ==> (#[trigger] groups[k])@.label == run_heads(kv, runs@)[k]
                    && groups[k]@.documents == run_parts(items, runs@)[k],
        decreases runs.len() - g,
    {
        let (first, last) = runs[g];
        assert(runs[g as int].0 < runs[g as int].1 <= keys.len());
        let label = clone_opt_string(&docs[start + first].label);
        let documents = clone_range(docs, start + first, start + last);
        assert(docs_view(documents) =~= items.subrange(first as int, last as int));
        groups.push(LabelGroup { label, documents });
        g += 1;
    }
    proof {
        let gv = label_groups_view(groups);
        assert(label_heads(gv) =~= run_heads(kv, runs@));
        assert(label_parts(gv) =~= run_parts(items, runs@));
    }
    groups
}

/// The documents from position `start` up to `end`, grouped by subcategory
/// and then by label.
pub fn subcategory_groups(docs: &Vec<Document>, start: usize, end: usize) -> (r: Vec<
    SubcategoryGroup,
>)
    requires
        start <= end <= docs.len(),
    ensures
        grouped_by_subcategory(
            docs_view(*docs).subrange(start as int, end as int),
            subcategory_groups_view(r),
        ),
{
    let ghost items = docs_view(*docs).subrange(start as int, end as int);
    let mut keys: Vec<Option<String>> = Vec::new();
    let mut i: usize = start;
    while i < end
        invariant
            start <= i <= end <= docs.len(),
            keys.len() == i - start,
            forall|k: int| 0 <= k < i - start ==> opt_view(keys[k]) == tag_at(docs[start + k]@, 1),
        decreases end - i,
    {
        keys.push(tag_of(&docs[i], 1));
        i += 1;
    }
    let runs = key_runs(&keys);
    let ghost kv = keys_view(keys@);
    let ghost key = |d: DocumentView| tag_at(d, 1);
    proof {
        lemma_runs_give_grouping(items, key, kv, runs@);
    }
    let mut groups: Vec<SubcategoryGroup> = Vec::new();
    let mut g: usize = 0;
    while g < runs.len()
        invariant
            g <= runs.len(),
            groups.len() == g,
            start <= end <= docs.len(),
            keys.len() == end - start,
            items == docs_view(*docs).subrange(start as int, end as int),
            kv == keys_view(keys@),
            forall|k: int| 0 <= k < end - start ==> kv[k] == tag_at(docs[start + k]@, 1),
            is_run_partition(kv, runs@),
            forall|k: int|
                0 <= k < g ==> (#[trigger] groups[k])@.subcategory == run_heads(kv, runs@)[k]
                    && groups[k]@.documents() == run_parts(items, runs@)[k] && grouped_by_label(
                    groups[k]@.documents(),
                    groups[k]@.labels,
                ),
        decreases runs.len() - g,
    {
        let (first, last) = runs[g];
        assert(runs[g as int].0 < runs[g as int].1 <= keys.len());
        let subcategory = tag_of(&docs[start + first], 1);
        let labels = label_groups(docs, start + first, start + last);
        assert(docs_view(*docs).subrange(start + first, start + last) =~= items.subrange(
            first as int,
            last as int,
        ));
        groups.push(SubcategoryGroup { subcategory, labels });
        g += 1;
    }
    proof {
        let gv = subcategory_groups_view(groups);
        assert(subcategory_heads(gv) =~= run_heads(kv, runs@));
        assert(subcategory_parts(gv) =~= run_parts(items, runs@));
    }
    groups
}

/// The documents of a category as a tree: grouped by category, then by
/// subcategory, then by label.
pub fn category_tree(docs: &Vec<Document>) -> (r: Vec<CategoryGroup>)
    ensures
        is_category_tree(docs_view(*docs), category_groups_view(r)),
{
    let ghost items = docs_view(*docs);
    let mut keys: Vec<Option<String>> = Vec::new();
    let mut i: usize = 0;
    while i < docs.len()
        invariant
            i <= docs.len(),
            keys.len() == i,
            forall|k: int| 0 <= k < i ==> opt_view(keys[k]) == tag_at(docs[k]@, 0),
        decreases docs.len() - i,
    {
        keys.push(tag_of(&docs[i], 0));
        i += 1;
    }
    let runs = key_runs(&keys);
    let ghost kv = keys_view(keys@);
    let ghost key = |d: DocumentView| tag_at(d, 0);
    proof {
        lemma_runs_give_grouping(items, key, kv, runs@);
    }
    let mut groups: Vec<CategoryGroup> = Vec::new();
    let mut g: usize = 0;
    while g < runs.len()
        invariant
            g <= runs.len(),
            groups.len() == g,
            keys.len() == docs.len(),
            items == docs_view(*docs),
            kv == keys_view(keys@),
            forall|k: int| 0 <= k < docs.len() ==> kv[k] == tag_at(docs[k]@, 0),
            is_run_partition(kv, runs@),
            forall|k: int|
                0 <= k < g ==> (#[trigger] groups[k])@.category == run_heads(kv, runs@)[k]
                    && groups[k]@.documents() == run_parts(items, runs@)[k]
                    && grouped_by_subcategory(groups[k]@.documents(), groups[k]@.subcategories),
        decreases runs.len() - g,
    {
        let (first, last) = runs[g];
        assert(runs[g as int].0 < runs[g as int].1 <= keys.len());
        let category = tag_of(&docs[first], 0);
        let subcategories = subcategory_groups(docs, first, last);
        groups.push(CategoryGroup { category, subcategories });
        g += 1;
    }
    proof {
        let gv = category_groups_view(groups);
        assert(category_heads(gv) =~= run_heads(kv, runs@));
        assert(category_parts(gv) =~= run_parts(items, runs@));
    }
    groups
}

/// Whether a list of groups is shown with a table of its headings: only
/// where it has more than one group.
pub fn lists_headings<T>(groups: &Vec<T>) -> (r: bool)
    ensures
        r == (groups.len() > 1),
{
    groups.len() > 1
}

/// The address of a heading within the page: a number sign and the heading,
/// or the number sign alone for a group without a heading.
pub open spec fn anchor_of(heading: Option<Seq<char>>) -> Seq<char> {
    match heading {
        Some(heading) => "#"@ + heading,
        None => "#"@,
    }
}

/// The address of a heading within the page.
pub fn anchor_href(heading: &Option<String>) -> (r: String)
    ensures
        r@ == anchor_of(opt_view(*heading)),
{
    let mut r = String::from_str("#");
    match heading {
        Some(heading) => r.append(heading.as_str()),
        None => {},
    }
    r
}

impl LabelGroupView {
    /// The subtitle that the group is shown with: that of its first document.
    pub open spec fn subtitle(self) -> Option<Seq<char>> {
        if self.documents.len() > 0 {
            self.documents[0].subtitle
        } else {
            None
        }
    }
}

impl LabelGroup {
    /// The subtitle that the group is shown with: that of its first document.
    pub fn subtitle(&self) -> (r: Option<String>)
        ensures
            opt_view(r) == self@.subtitle(),
    {
        if self.documents.len() > 0 {
            clone_opt_string(&self.documents[0].subtitle)
        } else {
            None
        }
    }
}

/// A copy of a document without its label and subtitle, for showing it under
/// a heading that names them already.
pub fn without_titles(doc: &Document) -> (r: Document)
    ensures
        r@ == (DocumentView { label: None, subtitle: None, ..doc@ }),
{
    Document {
        content: clone_content(&doc.content),
        tags: clone_strings(&doc.tags),
        label: None,
        subtitle: None,
        source: doc.source,
        version: doc.version,
        language: doc.language,
    }
}

} // verus!
