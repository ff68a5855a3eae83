//! Page resolution: from a request to the one page that answers it.

use vstd::prelude::*;
use crate::document::{
    clone_doc, clone_docs, clone_opt_string, docs_view, opt_view, Document, DocumentView,
    Reference,
};
use crate::toc::{pages_view, PageType, PageView, TableOfContents};
use crate::version::Version;

verus! {

/// A day of the civil calendar.
#[derive(Clone, Copy, Debug, PartialEq, Eq, Structural, Hash)]
pub struct Date {
    pub year: u16,
    pub month: u8,
    pub day: u8,
}

/// What a request asks for.
#[derive(Debug)]
pub struct DocumentPageParams {
    pub category: String,
    pub slug: Option<String>,
    pub version: Option<Version>,
    pub date: Option<Date>,
    pub calendar: Option<String>,
    /// The chosen preferences, serialized as a list of pairs.
    pub prefs: Option<String>,
    pub alternate: Option<String>,
}

/// The mathematical value of a [`DocumentPageParams`].
pub struct ParamsView {
    pub category: Seq<char>,
    pub slug: Option<Seq<char>>,
    pub version: Option<Version>,
    pub date: Option<Date>,
    pub calendar: Option<Seq<char>>,
    pub prefs: Option<Seq<char>>,
    pub alternate: Option<Seq<char>>,
}

impl View for DocumentPageParams {
    type V = ParamsView;

    open spec fn view(&self) -> ParamsView {
        ParamsView {
            category: self.category@,
            slug: opt_view(self.slug),
            version: self.version,
            date: self.date,
            calendar: opt_view(self.calendar),
            prefs: opt_view(self.prefs),
            alternate: opt_view(self.alternate),
        }
    }
}

/// A copy of a request.
pub fn clone_params(params: &DocumentPageParams) -> (r: DocumentPageParams)
    ensures
        r@ == params@,
{
    DocumentPageParams {
        category: params.category.clone(),
        slug: clone_opt_string(&params.slug),
        version: params.version,
        date: params.date,
        calendar: clone_opt_string(&params.calendar),
        prefs: clone_opt_string(&params.prefs),
        alternate: clone_opt_string(&params.alternate),
    }
}

/// One line of a listing of candidates: where the page comes from, its
/// edition, its slug if it has one, and its label.
pub type SummaryLineView = (Option<Reference>, Version, Option<Seq<char>>, Seq<char>);

/// The page that answers a request.
#[derive(Debug)]
pub enum DocumentPageType {
    /// One document, with the request that led to it.
    Document(DocumentPageParams, Box<Document>),
    /// A listing of documents: its label, its edition and the documents.
    Category(String, Version, Vec<Document>),
    /// Several pages answer the request: the label of the category, the
    /// category, and one line for each candidate.
    CategorySummary(String, String, Vec<(Option<Reference>, Version, Option<String>, String)>),
    /// A parallel set: its label, the reference document and the documents to
    /// lay beside it.
    Parallels(String, Document, Vec<Document>),
}

/// The mathematical value of a [`DocumentPageType`].
pub enum ResolvedView {
    Document(ParamsView, DocumentView),
    Category(Seq<char>, Version, Seq<DocumentView>),
    CategorySummary(Seq<char>, Seq<char>, Seq<SummaryLineView>),
    Parallels(Seq<char>, DocumentView, Seq<DocumentView>),
}

/// The value of one line of a listing.
pub open spec fn line_view(line: (Option<Reference>, Version, Option<String>, String)) -> SummaryLineView {
    (line.0, line.1, opt_view(line.2), line.3@)
}

/// The values of the lines of a listing.
pub open spec fn lines_view(
    lines: Vec<(Option<Reference>, Version, Option<String>, String)>,
) -> Seq<SummaryLineView> {
    Seq::new(lines.len() as nat, |i: int| line_view(lines[i]))
}

impl View for DocumentPageType {
    type V = ResolvedView;

    open spec fn view(&self) -> ResolvedView {
        match *self {
            DocumentPageType::Document(params, doc) => ResolvedView::Document(params@, (*doc)@),
            DocumentPageType::Category(label, version, docs) => ResolvedView::Category(
                label@,
                version,
                docs_view(docs),
            ),
            DocumentPageType::CategorySummary(label, category, lines) => {
                ResolvedView::CategorySummary(label@, category@, lines_view(lines))
            },
            DocumentPageType::Parallels(label, doc, docs) => ResolvedView::Parallels(
                label@,
                doc@,
                docs_view(docs),
            ),
        }
    }
}

/// A copy of a line of a listing.
pub fn clone_line(line: &(Option<Reference>, Version, Option<String>, String)) -> (r: (
    Option<Reference>,
    Version,
    Option<String>,
    String,
))
    ensures
        line_view(r) == line_view(*line),
{
    (line.0, line.1, clone_opt_string(&line.2), line.3.clone())
}

/// A copy of the lines of a listing.
pub fn clone_lines(lines: &Vec<(Option<Reference>, Version, Option<String>, String)>) -> (r: Vec<
    (Option<Reference>, Version, Option<String>, String),
>)
    ensures
        lines_view(r) == lines_view(*lines),
{
    let mut out: Vec<(Option<Reference>, Version, Option<String>, String)> = Vec::new();
    let mut i: usize = 0;
    while i < lines.len()
        invariant
            i <= lines.len(),
            out.len() == i,
            forall|k: int| 0 <= k < i ==> line_view(out[k]) == line_view(lines[k]),
        decreases lines.len() - i,
    {
        out.push(clone_line(&lines[i]));
        i += 1;
    }
    assert(lines_view(out) =~= lines_view(*lines));
    out
}

/// A copy of a resolved page, in depth.
pub fn clone_page_type(page: &DocumentPageType) -> (r: DocumentPageType)
    ensures
        r@ == page@,
{
    match page {
        DocumentPageType::Document(params, doc) => DocumentPageType::Document(
            clone_params(params),
            Box::new(clone_doc(doc)),
        ),
        DocumentPageType::Category(label, version, docs) => DocumentPageType::Category(
            label.clone(),
            *version,
            clone_docs(docs),
        ),
        DocumentPageType::CategorySummary(label, category, lines) => {
            DocumentPageType::CategorySummary(label.clone(), category.clone(), clone_lines(lines))
        },
        DocumentPageType::Parallels(label, doc, docs) => DocumentPageType::Parallels(
            label.clone(),
            clone_doc(doc),
            clone_docs(docs),
        ),
    }
}

/// The pages that a request may be answered from: the bucket of the category
/// under the requested edition, followed, where an edition was requested, by
/// the bucket of the category under no edition.
pub open spec fn candidates(
    index: TableOfContents,
    category: Seq<char>,
    version: Option<Version>,
) -> Seq<PageView> {
    if version.is_some() {
        index.bucket(category, version) + index.bucket(category, None)
    } else {
        index.bucket(category, None)
    }
}

/// Whether a page answers a request for `slug` and `version`.
pub open spec fn page_matches(
    page: PageView,
    slug: Option<Seq<char>>,
    version: Option<Version>,
) -> bool {
    match (slug, version) {
        (Some(slug), None) => match page {
            PageView::Document(s, _) => s == slug,
            PageView::Category(_, _, _) => true,
            PageView::Parallel(s, _, _, _) => s == slug,
        },
        (Some(slug), Some(version)) => match page {
            PageView::Document(s, doc) => s == slug && version.compatible_with(doc.version),
            PageView::Category(_, v, _) => version == v,
            PageView::Parallel(s, _, _, _) => s == slug,
        },
        (None, Some(version)) => match page {
            PageView::Document(_, doc) => version == doc.version,
            PageView::Category(_, v, _) => version.compatible_with(v),
            PageView::Parallel(_, _, _, _) => false,
        },
        (None, None) => true,
    }
}

/// The candidates that answer the request, in the order of the table.
pub open spec fn matching_pages(
    index: TableOfContents,
    category: Seq<char>,
    slug: Option<Seq<char>>,
    version: Option<Version>,
) -> Seq<PageView> {
    candidates(index, category, version).filter(|p: PageView| page_matches(p, slug, version))
}

/// The line that stands for a page in a listing of candidates.
pub open spec fn summary_line(page: PageView) -> SummaryLineView {
    match page {
        PageView::Document(slug, doc) => (
            doc.source,
            doc.version,
            Some(slug),
            match doc.label {
                Some(label) => label,
                None => slug,
            },
        ),
        PageView::Category(label, version, _) => (None, version, None, label),
        PageView::Parallel(slug, label, _, _) => (None, Version::Parallel, Some(slug), label),
    }
}

/// The answer that a single matching page gives.
pub open spec fn single_page(params: ParamsView, page: PageView) -> ResolvedView {
    match page {
        PageView::Document(_, doc) => ResolvedView::Document(params, doc),
        PageView::Category(label, version, docs) => ResolvedView::Category(label, version, docs),
        PageView::Parallel(_, label, doc, docs) => ResolvedView::Parallels(label, doc, docs),
    }
}

/// The answer to a request: nothing where no page matches, the page where
/// one matches, and a listing of the candidates where several do.
pub open spec fn resolved(
    index: TableOfContents,
    params: ParamsView,
    category: Seq<char>,
    slug: Option<Seq<char>>,
    version: Option<Version>,
    label: Seq<char>,
) -> Option<ResolvedView> {
    let found = matching_pages(index, category, slug, version);
    if found.len() == 0 {
        None
    } else if found.len() == 1 {
        Some(single_page(params, found[0]))
    } else {
        Some(
            ResolvedView::CategorySummary(
                label,
                category,
                Seq::new(found.len(), |i: int| summary_line(found[i])),
            ),
        )
    }
}

/// The answer depends on what the table holds and on the request, and on
/// nothing else: two tables with the same buckets give the same answer.
pub proof fn law_answer_is_determined(
    a: TableOfContents,
    b: TableOfContents,
    params: ParamsView,
    category: Seq<char>,
    slug: Option<Seq<char>>,
    version: Option<Version>,
    label: Seq<char>,
)
    requires
        a@ == b@,
    ensures
        resolved(a, params, category, slug, version, label) == resolved(
            b,
            params,
            category,
            slug,
            version,
            label,
        ),
{
}

/// A request that names an edition sees the pages of that edition and, behind
/// them, the pages that the category offers under no edition.
pub proof fn law_shared_pages_are_candidates(
    index: TableOfContents,
    category: Seq<char>,
    version: Version,
)
    ensures
        candidates(index, category, Some(version)).len() == index.bucket(
            category,
            Some(version),
        ).len() + index.bucket(category, None).len(),
        forall|i: int|
            0 <= i < index.bucket(category, Some(version)).len() ==> candidates(
                index,
                category,
                Some(version),
            )[i] == index.bucket(category, Some(version))[i],
        forall|j: int|
            0 <= j < index.bucket(category, None).len() ==> candidates(
                index,
                category,
                Some(version),
            )[index.bucket(category, Some(version)).len() + j] == index.bucket(category, None)[j],
{
}

/// A document under the requested slug answers a request for an edition
/// exactly where the two editions are the same or the requested one is part
/// of the document's. The marker for parallel pages is part of no edition.
pub proof fn law_subset_matching(slug: Seq<char>, doc: DocumentView, requested: Version)
    ensures
        page_matches(PageView::Document(slug, doc), Some(slug), Some(requested)) <==> (requested
            == doc.version || requested.subset_of(doc.version)),
        !Version::Parallel.subset_of(doc.version),
{
}

/// Where several pages match, the answer lists them all: one line for each
/// candidate, in the order of the table, with the candidate's own source,
/// edition, slug and label.
pub proof fn law_listing_is_complete(
    index: TableOfContents,
    params: ParamsView,
    category: Seq<char>,
    slug: Option<Seq<char>>,
    version: Option<Version>,
    label: Seq<char>,
)
    requires
        matching_pages(index, category, slug, version).len() > 1,
    ensures
        resolved(index, params, category, slug, version, label) matches Some(
            ResolvedView::CategorySummary(l, c, lines),
        ) && l == label && c == category && lines.len() == matching_pages(
            index,
            category,
            slug,
            version,
        ).len() && forall|i: int|
            0 <= i < lines.len() ==> lines[i] == summary_line(
                matching_pages(index, category, slug, version)[i],
            ),
{
}

/// Every page that the answer is made from is a candidate that matches the
/// request, and every such candidate is among them.
pub proof fn law_matching_pages_exact(
    index: TableOfContents,
    category: Seq<char>,
    slug: Option<Seq<char>>,
    version: Option<Version>,
)
    ensures
        forall|i: int|
            0 <= i < matching_pages(index, category, slug, version).len() ==> page_matches(
                #[trigger] matching_pages(index, category, slug, version)[i],
                slug,
                version,
            ),
        forall|i: int|
            0 <= i < candidates(index, category, version).len() && page_matches(
                candidates(index, category, version)[i],
                slug,
                version,
            ) ==> matching_pages(index, category, slug, version).contains(
                #[trigger] candidates(index, category, version)[i],
            ),
{
    broadcast use vstd::seq_lib::group_filter_ensures;

}

/// Whether a page answers a request for `slug` and `version`.
pub fn matches_request(page: &PageType, slug: &Option<String>, version: Option<Version>) -> (r:
    bool)
    ensures
        r == page_matches(page@, opt_view(*slug), version),
{
    match slug {
        Some(slug) => match page {
            PageType::Document(s, doc) => *s == *slug && match version {
                Some(version) => version.is_compatible_with(&doc.version),
                None => true,
            },
            PageType::Category(_, v, _) => match version {
                Some(version) => version == *v,
                None => true,
            },
            PageType::Parallel(s, _, _, _) => *s == *slug,
        },
        None => match version {
            Some(version) => match page {
                PageType::Document(_, doc) => version == doc.version,
                PageType::Category(_, v, _) => version.is_compatible_with(v),
                PageType::Parallel(_, _, _, _) => false,
            },
            None => true,
        },
    }
}

/// The line that stands for a page in a listing of candidates.
pub fn summary_line_of(page: &PageType) -> (r: (Option<Reference>, Version, Option<String>, String))
    ensures
        line_view(r) == summary_line(page@),
{
    match page {
        PageType::Document(slug, doc) => (
            doc.source,
            doc.version,
            Some(slug.clone()),
            match &doc.label {
                Some(label) => label.clone(),
                None => slug.clone(),
            },
        ),
        PageType::Category(label, version, _) => (None, *version, None, label.clone()),
        PageType::Parallel(slug, label, _, _) => (
            None,
            Version::Parallel,
            Some(slug.clone()),
            label.clone(),
        ),
    }
}

/// The answer that a single matching page gives to a request.
pub fn single_page_of(params: &DocumentPageParams, page: &PageType) -> (r: DocumentPageType)
    ensures
        r@ == single_page(params@, page@),
{
    match page {
        PageType::Document(_, doc) => DocumentPageType::Document(
            clone_params(params),
            Box::new(clone_doc(doc)),
        ),
        PageType::Category(label, version, docs) => DocumentPageType::Category(
            label.clone(),
            *version,
            clone_docs(docs),
        ),
        PageType::Parallel(_, label, doc, docs) => DocumentPageType::Parallels(
            label.clone(),
            clone_doc(doc),
            clone_docs(docs),
        ),
    }
}

/// Finds the page that answers a request.
///
/// The candidates are the pages of `category` under `version`, and, where an
/// edition was requested, those under no edition as well. Of these the ones
/// that match `slug` and `version` count. None gives no answer, one gives that
/// page, and several give a listing of them all under `label`, in the order
/// of the table.
pub fn find_page(
    index: &TableOfContents,
    params: &DocumentPageParams,
    category: &String,
    slug: &Option<String>,
    version: Option<Version>,
    label: &String,
) -> (r: Option<DocumentPageType>)
    ensures
        r.is_some() == resolved(
            *index,
            params@,
            category@,
            opt_view(*slug),
            version,
            label@,
        ).is_some(),
        r.is_some() ==> r.unwrap()@ == resolved(
            *index,
            params@,
            category@,
            opt_view(*slug),
            version,
            label@,
        ).unwrap(),
{
    let mut pages = index.lookup(category, version);
    if version.is_some() {
        let mut shared = index.lookup(category, None);
        let ghost first = pages_view(pages);
        let ghost second = pages_view(shared);
        pages.append(&mut shared);
        assert(pages_view(pages) =~= first + second);
    }
    let ghost all = candidates(*index, category@, version);
    let ghost wanted = |p: PageView| page_matches(p, opt_view(*slug), version);
    assert(pages_view(pages) == all);

    let mut found: Vec<usize> = Vec::new();
    let mut i: usize = 0;
    assert(all.take(0).filter(wanted) =~= Seq::empty()) by {
        reveal(Seq::filter);
    }
    while i < pages.len()
        invariant
            i <= pages.len(),
            pages_view(pages) == all,
            wanted == |p: PageView| page_matches(p, opt_view(*slug), version),
            found.len() == all.take(i as int).filter(wanted).len(),
            forall|k: int| 0 <= k < found.len() ==> found[k] < i,
            forall|k: int|
                0 <= k < found.len() ==> pages[found[k] as int]@ == all.take(i as int).filter(
                    wanted,
                )[k],
        decreases pages.len() - i,
    {
        proof {
            reveal(Seq::filter);
            assert(all.take(i + 1).drop_last() =~= all.take(i as int));
            assert(all.take(i + 1).last() == pages[i as int]@);
        }
        if matches_request(&pages[i], slug, version) {
            found.push(i);
        }
        i += 1;
    }
    assert(all.take(pages.len() as int) =~= all);
    let ghost kept = matching_pages(*index, category@, opt_view(*slug), version);
    assert(kept == all.filter(wanted));

    if found.len() > 1 {
        let mut lines: Vec<(Option<Reference>, Version, Option<String>, String)> = Vec::new();
        let mut k: usize = 0;
        while k < found.len()
            invariant
                k <= found.len(),
                found.len() == kept.len(),
                lines.len() == k,
                forall|j: int| 0 <= j < found.len() ==> found[j] < pages.len(),
                forall|j: int| 0 <= j < found.len() ==> pages[found[j] as int]@ == kept[j],
                forall|j: int| 0 <= j < k ==> line_view(lines[j]) == summary_line(kept[j]),
            decreases found.len() - k,
        {
            lines.push(summary_line_of(&pages[found[k]]));
            k += 1;
        }
        assert(lines_view(lines) =~= Seq::new(kept.len(), |i: int| summary_line(kept[i])));
        Some(DocumentPageType::CategorySummary(label.clone(), category.clone(), lines))
    } else if found.len() == 1 {
        Some(single_page_of(params, &pages[found[0]]))
    } else {
        None
    }
}

} // verus!
