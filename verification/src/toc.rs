//! The table of contents: which pages each category offers under each edition.

use vstd::prelude::*;
use crate::document::{
    clone_doc, clone_docs, docs_view, same_doc, same_docs, Document, DocumentView,
};
use crate::version::Version;

verus! {

/// An addressable unit of the table of contents.
#[derive(Debug)]
pub enum PageType {
    /// One document under its slug.
    Document(String, Document),
    /// A listing of documents: its label, its edition and the documents.
    Category(String, Version, Vec<Document>),
    /// A parallel set: its slug, its label, the reference document and the
    /// documents to lay beside it.
    Parallel(String, String, Document, Vec<Document>),
}

/// The mathematical value of a [`PageType`].
pub enum PageView {
    Document(Seq<char>, DocumentView),
    Category(Seq<char>, Version, Seq<DocumentView>),
    Parallel(Seq<char>, Seq<char>, DocumentView, Seq<DocumentView>),
}

impl View for PageType {
    type V = PageView;

    open spec fn view(&self) -> PageView {
        match *self {
            PageType::Document(slug, doc) => PageView::Document(slug@, doc@),
            PageType::Category(label, version, docs) => PageView::Category(
                label@,
                version,
                docs_view(docs),
            ),
            PageType::Parallel(slug, label, doc, docs) => PageView::Parallel(
                slug@,
                label@,
                doc@,
                docs_view(docs),
            ),
        }
    }
}

/// The values of a list of pages.
pub open spec fn pages_view(pages: Vec<PageType>) -> Seq<PageView> {
    Seq::new(pages.len() as nat, |i: int| pages[i]@)
}

/// A copy of a page, in depth.
pub fn clone_page(page: &PageType) -> (r: PageType)
    ensures
        r@ == page@,
{
    match page {
        PageType::Document(slug, doc) => PageType::Document(slug.clone(), clone_doc(doc)),
        PageType::Category(label, version, docs) => PageType::Category(
            label.clone(),
            *version,
            clone_docs(docs),
        ),
        PageType::Parallel(slug, label, doc, docs) => PageType::Parallel(
            slug.clone(),
            label.clone(),
            clone_doc(doc),
            clone_docs(docs),
        ),
    }
}

/// A copy of a list of pages, in depth.
pub fn clone_pages(pages: &Vec<PageType>) -> (r: Vec<PageType>)
    ensures
        pages_view(r) == pages_view(*pages),
{
    let mut out: Vec<PageType> = Vec::new();
    let mut i: usize = 0;
    while i < pages.len()
        invariant
            i <= pages.len(),
            out.len() == i,
            forall|k: int| 0 <= k < i ==> out[k]@ == pages[k]@,
        decreases pages.len() - i,
    {
        out.push(clone_page(&pages[i]));
        i += 1;
    }
    assert(pages_view(out) =~= pages_view(*pages));
    out
}

/// Whether two pages are equal in depth.
pub fn same_page(a: &PageType, b: &PageType) -> (r: bool)
    ensures
        r == (a@ == b@),
{
    match (a, b) {
        (PageType::Document(s, d), PageType::Document(t, e)) => *s == *t && same_doc(d, e),
        (PageType::Category(l, v, d), PageType::Category(m, w, e)) => *l == *m && *v == *w
            && same_docs(d, e),
        (PageType::Parallel(s, l, d, ds), PageType::Parallel(t, m, e, es)) => *s == *t && *l == *m
            && same_doc(d, e) && same_docs(ds, es),
        _ => false,
    }
}

/// The key of a bucket: a category and an edition, or no edition for pages
/// that every edition offers.
pub type TocKey = (Seq<char>, Option<Version>);

/// One bucket of the table: its key and its pages in order.
pub struct TocEntry {
    pub category: String,
    pub version: Option<Version>,
    pub pages: Vec<PageType>,
}

impl TocEntry {
    /// The key of the bucket.
    pub open spec fn key(self) -> TocKey {
        (self.category@, self.version)
    }
}

/// The buckets that the first `n` entries hold, by key.
pub open spec fn buckets_upto(entries: Seq<TocEntry>, n: int) -> Map<TocKey, Seq<PageView>>
    decreases n,
{
    if n <= 0 {
        Map::empty()
    } else {
        buckets_upto(entries, n - 1).insert(entries[n - 1].key(), pages_view(entries[n - 1].pages))
    }
}

/// The table of contents. No key has two buckets.
pub struct TableOfContents {
    entries: Vec<TocEntry>,
}

impl View for TableOfContents {
    type V = Map<TocKey, Seq<PageView>>;

    closed spec fn view(&self) -> Map<TocKey, Seq<PageView>> {
        buckets_upto(self.entries@, self.entries.len() as int)
    }
}

/// A key outside the first `n` entries has no bucket among them; the key of
/// one of them has that entry's pages, where no key occurs twice.
proof fn lemma_buckets_upto(entries: Seq<TocEntry>, n: int, key: TocKey)
    requires
        0 <= n <= entries.len(),
        forall|i: int, j: int| 0 <= i < j < entries.len() ==> entries[i].key() != entries[j].key(),
    ensures
        (forall|i: int| 0 <= i < n ==> entries[i].key() != key) ==> !buckets_upto(
            entries,
            n,
        ).dom().contains(key),
        forall|i: int|
            0 <= i < n && entries[i].key() == key ==> buckets_upto(entries, n).dom().contains(key)
                && buckets_upto(entries, n)[key] == pages_view(entries[i].pages),
    decreases n,
{
    if n > 0 {
        lemma_buckets_upto(entries, n - 1, key);
    }
}

/// The pages that the first `n` lines of a listing put under `key`, in the
/// order of the lines.
pub open spec fn listed_under(
    listing: Seq<(String, Option<Version>, PageType)>,
    key: TocKey,
    n: int,
) -> Seq<PageView>
    decreases n,
{
    if n <= 0 {
        Seq::empty()
    } else if (listing[n - 1].0@, listing[n - 1].1) == key {
        listed_under(listing, key, n - 1).push(listing[n - 1].2@)
    } else {
        listed_under(listing, key, n - 1)
    }
}

/// The buckets of the first `n` entries depend on those entries alone.
proof fn lemma_buckets_prefix(a: Seq<TocEntry>, b: Seq<TocEntry>, n: int)
    requires
        0 <= n <= a.len(),
        n <= b.len(),
        forall|i: int| 0 <= i < n ==> a[i] == b[i],
    ensures
        buckets_upto(a, n) == buckets_upto(b, n),
    decreases n,
{
    if n > 0 {
        lemma_buckets_prefix(a, b, n - 1);
    }
}

/// Which keys have a bucket, and what each bucket holds, where no key occurs
/// twice.
proof fn lemma_buckets(entries: Seq<TocEntry>)
    requires
        forall|i: int, j: int| 0 <= i < j < entries.len() ==> entries[i].key() != entries[j].key(),
    ensures
        forall|key: TocKey|
            #![trigger buckets_upto(entries, entries.len() as int).dom().contains(key)]
            buckets_upto(entries, entries.len() as int).dom().contains(key) <==> exists|i: int|
                0 <= i < entries.len() && #[trigger] entries[i].key() == key,
        forall|i: int|
            0 <= i < entries.len() ==> buckets_upto(entries, entries.len() as int)[#[trigger] entries[i].key()]
                == pages_view(entries[i].pages),
{
    let n = entries.len() as int;
    assert forall|key: TocKey|
        #![trigger buckets_upto(entries, n).dom().contains(key)]
        buckets_upto(entries, n).dom().contains(key) <==> exists|i: int|
            0 <= i < entries.len() && #[trigger] entries[i].key() == key by {
        lemma_buckets_upto(entries, n, key);
    }
    assert forall|i: int| 0 <= i < entries.len() implies buckets_upto(entries, n)[#[trigger] entries[i].key()]
        == pages_view(entries[i].pages) by {
        lemma_buckets_upto(entries, n, entries[i].key());
    }
}

impl TableOfContents {
    #[verifier::type_invariant]
    spec fn no_key_twice(self) -> bool {
        forall|i: int, j: int|
            0 <= i < j < self.entries.len() ==> self.entries[i].key() != self.entries[j].key()
    }

    /// The pages under a key: those of its bucket, and none where the table
    /// has no such bucket.
    pub open spec fn bucket(self, category: Seq<char>, version: Option<Version>) -> Seq<PageView> {
        if self@.dom().contains((category, version)) {
            self@[(category, version)]
        } else {
            Seq::empty()
        }
    }

    /// The empty table.
    pub fn new() -> (r: TableOfContents)
        ensures
            r@ == Map::<TocKey, Seq<PageView>>::empty(),
    {
        TableOfContents { entries: Vec::new() }
    }

    /// The table with `page` put at the end of the bucket with the given key,
    /// which is made where the table has none.
    pub fn with_page(self, category: String, version: Option<Version>, page: PageType) -> (r:
        TableOfContents)
        ensures
            r@ == self@.insert(
                (category@, version),
                self.bucket(category@, version).push(page@),
            ),
    {
        let ghost key = (category@, version);
        let ghost before = self.entries@;
        proof {
            use_type_invariant(&self);
            lemma_buckets(before);
        }
        let found = self.position(&category, version);
        let mut entries = self.entries;
        match found {
            Some(i) => {
                let ghost pages_before = pages_view(entries[i as int].pages);
                entries[i].pages.push(page);
                proof {
                    let after = entries@;
                    assert(pages_view(after[i as int].pages) =~= pages_before.push(page@));
                    assert(forall|k: int|
                        0 <= k < after.len() ==> after[k].key() == before[k].key());
                    assert(forall|k: int|
                        0 <= k < after.len() && k != i ==> after[k].pages == before[k].pages);
                    lemma_buckets(after);
                    assert(buckets_upto(after, after.len() as int) =~= buckets_upto(
                        before,
                        before.len() as int,
                    ).insert(key, pages_before.push(page@)));
                }
            },
            None => {
                let mut pages: Vec<PageType> = Vec::new();
                pages.push(page);
                assert(pages_view(pages) =~= Seq::<PageView>::empty().push(page@));
                entries.push(TocEntry { category, version, pages });
                assert(entries@.drop_last() =~= before);
                assert(buckets_upto(entries@, entries.len() - 1) == buckets_upto(
                    before,
                    before.len() as int,
                )) by {
                    lemma_buckets_prefix(entries@, before, before.len() as int);
                }
            },
        }
        TableOfContents { entries }
    }

    /// The table that a listing describes. Each line names a category, an
    /// edition or none, and a page; a bucket holds the pages of its lines in
    /// the order of the listing.
    pub fn build(listing: &Vec<(String, Option<Version>, PageType)>) -> (r: TableOfContents)
        ensures
            forall|category: Seq<char>, version: Option<Version>|
                #[trigger] r.bucket(category, version) == listed_under(
                    listing@,
                    (category, version),
                    listing.len() as int,
                ),
    {
        let mut toc = TableOfContents::new();
        let mut i: usize = 0;
        while i < listing.len()
            invariant
                i <= listing.len(),
                forall|category: Seq<char>, version: Option<Version>|
                    #[trigger] toc.bucket(category, version) == listed_under(
                        listing@,
                        (category, version),
                        i as int,
                    ),
            decreases listing.len() - i,
        {
            let ghost before = toc;
            let line = &listing[i];
            toc = toc.with_page(line.0.clone(), line.1, clone_page(&line.2));
            proof {
                assert forall|category: Seq<char>, version: Option<Version>|
                    #[trigger] toc.bucket(category, version) == listed_under(
                        listing@,
                        (category, version),
                        i + 1,
                    ) by {
                    assert(before.bucket(category, version) == listed_under(
                        listing@,
                        (category, version),
                        i as int,
                    ));
                }
            }
            i += 1;
        }
        toc
    }

    /// The position of the bucket with the given key.
    fn position(&self, category: &String, version: Option<Version>) -> (r: Option<usize>)
        ensures
            match r {
                Some(i) => i < self.entries.len() && self.entries[i as int].key() == (
                    category@,
                    version,
                ),
                None => forall|i: int|
                    0 <= i < self.entries.len() ==> self.entries[i].key() != (category@, version),
            },
    {
        let mut i: usize = 0;
        while i < self.entries.len()
            invariant
                i <= self.entries.len(),
                forall|k: int| 0 <= k < i ==> self.entries[k].key() != (category@, version),
            decreases self.entries.len() - i,
        {
            if self.entries[i].category == *category && self.entries[i].version == version {
                return Some(i);
            }
            i += 1;
        }
        None
    }

    /// Copies of the pages under a key, in their order; none where the table
    /// has no such bucket.
    pub fn lookup(&self, category: &String, version: Option<Version>) -> (r: Vec<PageType>)
        ensures
            pages_view(r) == self.bucket(category@, version),
    {
        proof {
            use_type_invariant(self);
            lemma_buckets_upto(
                self.entries@,
                self.entries.len() as int,
                (category@, version),
            );
        }
        match self.position(category, version) {
            Some(i) => clone_pages(&self.entries[i].pages),
            None => {
                let r: Vec<PageType> = Vec::new();
                assert(pages_view(r) =~= Seq::empty());
                r
            },
        }
    }
}

} // verus!
