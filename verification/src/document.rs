//! The document tree: a recursive value that holds liturgical text and structure.

use vstd::prelude::*;
use crate::version::Version;

verus! {

/// The book that a document was taken from.
#[derive(Clone, Copy, Debug, PartialEq, Eq, Structural, Hash)]
pub enum Source {
    BCP1979,
    EOW1,
    EOW2,
    LFF2018,
}

/// The language that a document is written in.
#[derive(Clone, Copy, Debug, PartialEq, Eq, Structural, Hash)]
pub enum Language {
    En,
    Es,
    Fr,
}

/// Where in its source a document is printed.
#[derive(Clone, Copy, Debug, PartialEq, Eq, Structural, Hash)]
pub struct Reference {
    pub source: Source,
    pub page: u16,
}

/// What a document holds.
#[derive(Debug)]
pub enum Content {
    /// Nothing: the placeholder for text that an edition lacks.
    Empty,
    /// A passage of text.
    Text(String),
    /// An instruction to the people who lead or attend the service.
    Rubric(String),
    /// Several documents in order.
    Series(Vec<Document>),
    /// A whole service: its parts in order, and whether it is an evening service.
    Liturgy(bool, Vec<Document>),
}

/// A node of the document tree.
#[derive(Debug)]
pub struct Document {
    pub content: Content,
    pub tags: Vec<String>,
    pub label: Option<String>,
    pub subtitle: Option<String>,
    pub source: Option<Reference>,
    pub version: Version,
    pub language: Language,
}

/// The mathematical value of a [`Content`].
pub enum ContentView {
    Empty,
    Text(Seq<char>),
    Rubric(Seq<char>),
    Series(Seq<DocumentView>),
    Liturgy(bool, Seq<DocumentView>),
}

/// The mathematical value of a [`Document`].
pub struct DocumentView {
    pub content: ContentView,
    pub tags: Seq<Seq<char>>,
    pub label: Option<Seq<char>>,
    pub subtitle: Option<Seq<char>>,
    pub source: Option<Reference>,
    pub version: Version,
    pub language: Language,
}

/// The value of an optional string.
pub open spec fn opt_view(s: Option<String>) -> Option<Seq<char>> {
    match s {
        Some(s) => Some(s@),
        None => None,
    }
}

/// The values of a list of strings.
pub open spec fn strings_view(v: Seq<String>) -> Seq<Seq<char>> {
    Seq::new(v.len(), |i: int| v[i]@)
}

/// The value of a document.
pub open spec fn doc_view(d: Document) -> DocumentView
    decreases d,
{
    DocumentView {
        content: content_view(d.content),
        tags: strings_view(d.tags@),
        label: opt_view(d.label),
        subtitle: opt_view(d.subtitle),
        source: d.source,
        version: d.version,
        language: d.language,
    }
}

/// The value of a content payload.
pub open spec fn content_view(c: Content) -> ContentView
    decreases c,
{
    match c {
        Content::Empty => ContentView::Empty,
        Content::Text(s) => ContentView::Text(s@),
        Content::Rubric(s) => ContentView::Rubric(s@),
        Content::Series(v) => ContentView::Series(docs_view(v)),
        Content::Liturgy(evening, v) => ContentView::Liturgy(evening, docs_view(v)),
    }
}

/// The values of a list of documents.
pub open spec fn docs_view(v: Vec<Document>) -> Seq<DocumentView>
    decreases v,
{
    Seq::new(v.len() as nat, |i: int| if 0 <= i < v.len() { doc_view(v[i]) } else { arbitrary() })
}

impl View for Document {
    type V = DocumentView;

    open spec fn view(&self) -> DocumentView {
        doc_view(*self)
    }
}

impl View for Content {
    type V = ContentView;

    open spec fn view(&self) -> ContentView {
        content_view(*self)
    }
}

impl DocumentView {
    /// The documents directly below this one: the parts of a series or of a
    /// liturgy, and none for any other content.
    pub open spec fn children(self) -> Seq<DocumentView> {
        match self.content {
            ContentView::Series(parts) => parts,
            ContentView::Liturgy(_, parts) => parts,
            _ => Seq::empty(),
        }
    }

    /// Whether the document carries `tag`.
    pub open spec fn has_tag(self, tag: Seq<char>) -> bool {
        self.tags.contains(tag)
    }

    /// The children that carry `tag`, in their order.
    pub open spec fn children_with_tag(self, tag: Seq<char>) -> Seq<DocumentView> {
        self.children().filter(|c: DocumentView| c.has_tag(tag))
    }
}

/// The document that holds `content` and nothing else: no tags, no titles, no
/// source, the default edition and language.
pub open spec fn bare(content: ContentView) -> DocumentView {
    DocumentView {
        content,
        tags: Seq::empty(),
        label: None,
        subtitle: None,
        source: None,
        version: Version::BCP1979,
        language: Language::En,
    }
}

/// What stands for a list of documents as one document: nothing for an empty
/// list, the document itself for a list of one, and otherwise a bare series of
/// them all.
pub open spec fn series_or_single(docs: Seq<DocumentView>) -> Option<DocumentView> {
    if docs.len() == 0 {
        None
    } else if docs.len() == 1 {
        Some(docs[0])
    } else {
        Some(bare(ContentView::Series(docs)))
    }
}

/// A copy of a list of strings.
pub fn clone_strings(v: &Vec<String>) -> (r: Vec<String>)
    ensures
        strings_view(r@) == strings_view(v@),
{
    let mut out: Vec<String> = Vec::new();
    let mut i: usize = 0;
    while i < v.len()
        invariant
            i <= v.len(),
            out.len() == i,
            forall|k: int| 0 <= k < i ==> out[k]@ == v[k]@,
        decreases v.len() - i,
    {
        out.push(v[i].clone());
        i += 1;
    }
    assert(strings_view(out@) =~= strings_view(v@));
    out
}

/// A copy of an optional string.
pub fn clone_opt_string(s: &Option<String>) -> (r: Option<String>)
    ensures
        opt_view(r) == opt_view(*s),
{
    match s {
        Some(t) => Some(t.clone()),
        None => None,
    }
}

/// A copy of a list of documents, each copied in depth.
pub fn clone_docs(v: &Vec<Document>) -> (r: Vec<Document>)
    ensures
        docs_view(r) == docs_view(*v),
    decreases *v,
{
    let mut out: Vec<Document> = Vec::new();
    let mut i: usize = 0;
    while i < v.len()
        invariant
            i <= v.len(),
            out.len() == i,
            forall|k: int| 0 <= k < i ==> doc_view(out[k]) == doc_view(v[k]),
        decreases v.len() - i,
    {
        let d = clone_doc(&v[i]);
        out.push(d);
        i += 1;
    }
    assert(docs_view(out) =~= docs_view(*v));
    out
}

/// A copy of a content payload, in depth.
pub fn clone_content(c: &Content) -> (r: Content)
    ensures
        content_view(r) == content_view(*c),
    decreases *c,
{
    match c {
        Content::Empty => Content::Empty,
        Content::Text(s) => Content::Text(s.clone()),
        Content::Rubric(s) => Content::Rubric(s.clone()),
        Content::Series(v) => Content::Series(clone_docs(v)),
        Content::Liturgy(evening, v) => Content::Liturgy(*evening, clone_docs(v)),
    }
}

/// A copy of a document, in depth: the copy shares nothing with the document
/// it was made from.
pub fn clone_doc(d: &Document) -> (r: Document)
    ensures
        doc_view(r) == doc_view(*d),
    decreases *d,
{
    Document {
        content: clone_content(&d.content),
        tags: clone_strings(&d.tags),
        label: clone_opt_string(&d.label),
        subtitle: clone_opt_string(&d.subtitle),
        source: d.source,
        version: d.version,
        language: d.language,
    }
}

/// Whether two lists of strings hold the same strings in the same order.
pub fn same_strings(a: &Vec<String>, b: &Vec<String>) -> (r: bool)
    ensures
        r == (strings_view(a@) == strings_view(b@)),
{
    if a.len() != b.len() {
        assert(strings_view(a@).len() != strings_view(b@).len());
        return false;
    }
    let mut i: usize = 0;
    while i < a.len()
        invariant
            i <= a.len(),
            a.len() == b.len(),
            forall|k: int| 0 <= k < i ==> a[k]@ == b[k]@,
        decreases a.len() - i,
    {
        if a[i] != b[i] {
            assert(strings_view(a@)[i as int] != strings_view(b@)[i as int]);
            return false;
        }
        i += 1;
    }
    assert(strings_view(a@) =~= strings_view(b@));
    true
}

/// Whether two optional strings are both absent or hold the same text.
pub fn same_opt_string(a: &Option<String>, b: &Option<String>) -> (r: bool)
    ensures
        r == (opt_view(*a) == opt_view(*b)),
{
    match (a, b) {
        (None, None) => true,
        (Some(x), Some(y)) => *x == *y,
        _ => false,
    }
}

/// Whether two lists of documents are equal in depth.
pub fn same_docs(a: &Vec<Document>, b: &Vec<Document>) -> (r: bool)
    ensures
        r == (docs_view(*a) == docs_view(*b)),
    decreases *a,
{
    if a.len() != b.len() {
        assert(docs_view(*a).len() != docs_view(*b).len());
        return false;
    }
    let mut i: usize = 0;
    while i < a.len()
        invariant
            i <= a.len(),
            a.len() == b.len(),
            forall|k: int| 0 <= k < i ==> doc_view(a[k]) == doc_view(b[k]),
        decreases a.len() - i,
    {
        if !same_doc(&a[i], &b[i]) {
            assert(docs_view(*a)[i as int] != docs_view(*b)[i as int]);
            return false;
        }
        i += 1;
    }
    assert(docs_view(*a) =~= docs_view(*b));
    true
}

/// Whether two content payloads are equal in depth.
pub fn same_content(a: &Content, b: &Content) -> (r: bool)
    ensures
        r == (content_view(*a) == content_view(*b)),
    decreases *a,
{
    match (a, b) {
        (Content::Empty, Content::Empty) => true,
        (Content::Text(x), Content::Text(y)) => *x == *y,
        (Content::Rubric(x), Content::Rubric(y)) => *x == *y,
        (Content::Series(x), Content::Series(y)) => same_docs(x, y),
        (Content::Liturgy(e, x), Content::Liturgy(f, y)) => *e == *f && same_docs(x, y),
        _ => false,
    }
}

/// Whether two documents are equal in depth: content, tags, titles and
/// provenance alike.
pub fn same_doc(a: &Document, b: &Document) -> (r: bool)
    ensures
        r == (doc_view(*a) == doc_view(*b)),
    decreases *a,
{
    same_content(&a.content, &b.content) && same_strings(&a.tags, &b.tags) && same_opt_string(
        &a.label,
        &b.label,
    ) && same_opt_string(&a.subtitle, &b.subtitle) && a.source == b.source && a.version
        == b.version && a.language == b.language
}

impl Document {
    /// The document that holds `content` and nothing else.
    pub fn from_content(content: Content) -> (r: Document)
        ensures
            r@ == bare(content@),
    {
        let r = Document {
            content,
            tags: Vec::new(),
            label: None,
            subtitle: None,
            source: None,
            version: Version::BCP1979,
            language: Language::En,
        };
        assert(strings_view(r.tags@) =~= Seq::empty());
        r
    }

    /// How many documents stand directly below this one.
    pub fn child_count(&self) -> (n: usize)
        ensures
            n == self@.children().len(),
    {
        match &self.content {
            Content::Series(parts) => parts.len(),
            Content::Liturgy(_, parts) => parts.len(),
            _ => 0,
        }
    }

    /// The child at position `i`.
    pub fn child(&self, i: usize) -> (r: &Document)
        requires
            i < self@.children().len(),
        ensures
            r@ == self@.children()[i as int],
    {
        match &self.content {
            Content::Series(parts) => &parts[i],
            Content::Liturgy(_, parts) => &parts[i],
            _ => {
                proof {
                    assert(false);
                }
                self
            },
        }
    }

    /// Whether the document carries `tag`.
    pub fn has_tag(&self, tag: &String) -> (r: bool)
        ensures
            r == self@.has_tag(tag@),
    {
        let mut i: usize = 0;
        while i < self.tags.len()
            invariant
                i <= self.tags.len(),
                forall|k: int| 0 <= k < i ==> self.tags[k]@ != tag@,
            decreases self.tags.len() - i,
        {
            if self.tags[i] == *tag {
                assert(self@.tags[i as int] == tag@);
                return true;
            }
            i += 1;
        }
        assert forall|k: int| 0 <= k < self@.tags.len() implies self@.tags[k] != tag@ by {
            assert(self@.tags[k] == self.tags[k]@);
        }
        false
    }

    /// Copies of the children that carry `tag`, in their order.
    pub fn children_with_tag(&self, tag: &String) -> (r: Vec<Document>)
        ensures
            docs_view(r) == self@.children_with_tag(tag@),
    {
        let ghost all = self@.children();
        let ghost wanted = |c: DocumentView| c.has_tag(tag@);
        let mut out: Vec<Document> = Vec::new();
        let n = self.child_count();
        let mut i: usize = 0;
        assert(docs_view(out) =~= all.take(0).filter(wanted)) by {
            reveal(Seq::filter);
        }
        while i < n
            invariant
                i <= n,
                n == all.len(),
                all == self@.children(),
                wanted == |c: DocumentView| c.has_tag(tag@),
                docs_view(out) == all.take(i as int).filter(wanted),
            decreases n - i,
        {
            let c = self.child(i);
            proof {
                reveal(Seq::filter);
                assert(all.take(i + 1).drop_last() =~= all.take(i as int));
            }
            if c.has_tag(tag) {
                let d = clone_doc(c);
                let ghost before = docs_view(out);
                out.push(d);
                assert(docs_view(out) =~= before.push(c@));
            }
            i += 1;
        }
        assert(all.take(n as int) =~= all);
        out
    }

    /// One document that stands for `docs`: none for an empty list, the
    /// document itself for a list of one, and otherwise a bare series of them.
    pub fn series_or_document(docs: Vec<Document>) -> (r: Option<Document>)
        ensures
            r.is_some() == series_or_single(docs_view(docs)).is_some(),
            r.is_some() ==> r.unwrap()@ == series_or_single(docs_view(docs)).unwrap(),
    {
        let mut docs = docs;
        let ghost given = docs_view(docs);
        if docs.len() == 0 {
            None
        } else if docs.len() == 1 {
            let d = docs.pop();
            assert(d.unwrap()@ == given[0]);
            d
        } else {
            Some(Document::from_content(Content::Series(docs)))
        }
    }
}

} // verus!
