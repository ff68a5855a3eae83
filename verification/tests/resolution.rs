use liturgy_pages::document::{Content, Document, Reference, Source};
use liturgy_pages::resolver::{find_page, matches_request, DocumentPageParams, DocumentPageType};
use liturgy_pages::toc::{PageType, TableOfContents};
use liturgy_pages::version::Version;

fn doc(label: &str, version: Version) -> Document {
    let mut d = Document::from_content(Content::Text(label.to_string()));
    d.label = Some(label.to_string());
    d.version = version;
    d
}

fn params(category: &str, slug: Option<&str>, version: Option<Version>) -> DocumentPageParams {
    DocumentPageParams {
        category: category.to_string(),
        slug: slug.map(|s| s.to_string()),
        version,
        date: None,
        calendar: None,
        prefs: None,
        alternate: None,
    }
}

fn office_index() -> TableOfContents {
    TableOfContents::new()
        .with_page(
            "daily-office".to_string(),
            Some(Version::RiteII),
            PageType::Document("morning-prayer".to_string(), doc("Morning Prayer", Version::RiteII)),
        )
        .with_page(
            "daily-office".to_string(),
            Some(Version::RiteII),
            PageType::Document("evening-prayer".to_string(), doc("Evening Prayer", Version::RiteII)),
        )
        .with_page(
            "daily-office".to_string(),
            None,
            PageType::Document("compline".to_string(), doc("Compline", Version::BCP1979)),
        )
        .with_page(
            "daily-office".to_string(),
            None,
            PageType::Parallel(
                "morning-prayer-parallels".to_string(),
                "Morning Prayer in parallel".to_string(),
                doc("Morning Prayer", Version::RiteII),
                vec![doc("Morning Prayer", Version::RiteI)],
            ),
        )
}

fn resolve(
    index: &TableOfContents,
    category: &str,
    slug: Option<&str>,
    version: Option<Version>,
) -> Option<DocumentPageType> {
    let p = params(category, slug, version);
    find_page(index, &p, &p.category, &p.slug, p.version, &"Daily Office".to_string())
}

#[test]
fn matching_version_finds_the_document() {
    let index = office_index();
    match resolve(&index, "daily-office", Some("morning-prayer"), Some(Version::RiteII)) {
        Some(DocumentPageType::Document(p, d)) => {
            assert_eq!(p.category, "daily-office");
            assert_eq!(d.label, Some("Morning Prayer".to_string()));
            assert_eq!(d.version, Version::RiteII);
        }
        _ => panic!("expected a single document"),
    }
}

#[test]
fn parallel_marker_is_no_subset_of_rite_two() {
    let index = office_index();
    assert!(resolve(&index, "daily-office", Some("morning-prayer"), Some(Version::Parallel)).is_none());
    let page = PageType::Document("morning-prayer".to_string(), doc("Morning Prayer", Version::RiteII));
    assert!(matches_request(&page, &Some("morning-prayer".to_string()), Some(Version::RiteII)));
    assert!(!matches_request(&page, &Some("morning-prayer".to_string()), Some(Version::Parallel)));
    assert!(!matches_request(&page, &Some("morning-prayer".to_string()), Some(Version::RiteI)));
}

#[test]
fn narrower_request_matches_broader_document() {
    let page = PageType::Document("compline".to_string(), doc("Compline", Version::BCP1979));
    assert!(matches_request(&page, &Some("compline".to_string()), Some(Version::RiteII)));
    assert!(matches_request(&page, &Some("compline".to_string()), Some(Version::RiteI)));
    assert!(matches_request(&page, &Some("compline".to_string()), Some(Version::BCP1979)));
    assert!(!matches_request(&page, &Some("compline".to_string()), Some(Version::EOW)));
    assert!(matches_request(&page, &Some("compline".to_string()), None));
    assert!(!matches_request(&page, &Some("vespers".to_string()), None));
}

#[test]
fn versioned_request_sees_the_shared_bucket() {
    let index = office_index();
    // "compline" stands only in the bucket without an edition
    match resolve(&index, "daily-office", Some("compline"), Some(Version::RiteII)) {
        Some(DocumentPageType::Document(_, d)) => {
            assert_eq!(d.label, Some("Compline".to_string()));
        }
        _ => panic!("expected the shared document"),
    }
    let pages = index.lookup(&"daily-office".to_string(), Some(Version::RiteII));
    assert_eq!(pages.len(), 2);
    let shared = index.lookup(&"daily-office".to_string(), None);
    assert_eq!(shared.len(), 2);
}

#[test]
fn several_matches_give_a_listing() {
    let index = office_index();
    match resolve(&index, "daily-office", None, Some(Version::RiteII)) {
        Some(DocumentPageType::CategorySummary(label, category, lines)) => {
            assert_eq!(label, "Daily Office");
            assert_eq!(category, "daily-office");
            assert_eq!(lines.len(), 2);
            assert_eq!(
                lines[0],
                (None, Version::RiteII, Some("morning-prayer".to_string()), "Morning Prayer".to_string())
            );
            assert_eq!(
                lines[1],
                (None, Version::RiteII, Some("evening-prayer".to_string()), "Evening Prayer".to_string())
            );
        }
        _ => panic!("expected a listing"),
    }
}

#[test]
fn request_without_slug_and_version_lists_everything_shared() {
    let index = office_index();
    match resolve(&index, "daily-office", None, None) {
        Some(DocumentPageType::CategorySummary(_, _, lines)) => {
            assert_eq!(lines.len(), 2);
            assert_eq!(lines[0].2, Some("compline".to_string()));
            assert_eq!(lines[0].1, Version::BCP1979);
            assert_eq!(
                lines[1],
                (
                    None,
                    Version::Parallel,
                    Some("morning-prayer-parallels".to_string()),
                    "Morning Prayer in parallel".to_string()
                )
            );
        }
        _ => panic!("expected a listing"),
    }
}

#[test]
fn parallel_page_is_found_by_slug() {
    let index = office_index();
    match resolve(&index, "daily-office", Some("morning-prayer-parallels"), None) {
        Some(DocumentPageType::Parallels(label, reference, others)) => {
            assert_eq!(label, "Morning Prayer in parallel");
            assert_eq!(reference.version, Version::RiteII);
            assert_eq!(others.len(), 1);
            assert_eq!(others[0].version, Version::RiteI);
        }
        _ => panic!("expected a parallel set"),
    }
}

#[test]
fn parallel_page_does_not_match_a_version_alone() {
    let page = PageType::Parallel(
        "p".to_string(),
        "P".to_string(),
        doc("a", Version::RiteII),
        vec![],
    );
    assert!(!matches_request(&page, &None, Some(Version::Parallel)));
    assert!(!matches_request(&page, &None, Some(Version::RiteII)));
    assert!(matches_request(&page, &None, None));
}

#[test]
fn unknown_category_is_not_found() {
    let index = office_index();
    assert!(resolve(&index, "psalter", None, None).is_none());
    assert!(resolve(&index, "daily-office", Some("vespers"), None).is_none());
    assert!(index.lookup(&"psalter".to_string(), None).is_empty());
}

#[test]
fn category_page_matches_by_version() {
    let index = TableOfContents::new().with_page(
        "collects".to_string(),
        Some(Version::RiteI),
        PageType::Category(
            "Collects: Traditional".to_string(),
            Version::RiteI,
            vec![doc("First Sunday of Advent", Version::RiteI)],
        ),
    );
    match resolve(&index, "collects", None, Some(Version::RiteI)) {
        Some(DocumentPageType::Category(label, version, docs)) => {
            assert_eq!(label, "Collects: Traditional");
            assert_eq!(version, Version::RiteI);
            assert_eq!(docs.len(), 1);
        }
        _ => panic!("expected a category"),
    }
    let broad = PageType::Category("All".to_string(), Version::BCP1979, vec![]);
    assert!(matches_request(&broad, &None, Some(Version::RiteI)));
    assert!(!matches_request(&broad, &Some("x".to_string()), Some(Version::RiteI)));
    assert!(matches_request(&broad, &Some("x".to_string()), Some(Version::BCP1979)));
    assert!(matches_request(&broad, &Some("x".to_string()), None));
}

#[test]
fn listing_line_takes_source_and_falls_back_to_slug() {
    let mut d = Document::from_content(Content::Empty);
    d.source = Some(Reference { source: Source::EOW1, page: 18 });
    d.version = Version::EOW;
    let index = TableOfContents::new()
        .with_page("canticles".to_string(), None, PageType::Document("canticle-a".to_string(), d))
        .with_page(
            "canticles".to_string(),
            None,
            PageType::Document("canticle-b".to_string(), doc("Canticle B", Version::EOW)),
        );
    match resolve(&index, "canticles", None, None) {
        Some(DocumentPageType::CategorySummary(_, _, lines)) => {
            assert_eq!(
                lines[0],
                (
                    Some(Reference { source: Source::EOW1, page: 18 }),
                    Version::EOW,
                    Some("canticle-a".to_string()),
                    "canticle-a".to_string()
                )
            );
            assert_eq!(lines[1].3, "Canticle B");
        }
        _ => panic!("expected a listing"),
    }
}

#[test]
fn resolution_is_repeatable() {
    let index = office_index();
    let a = resolve(&index, "daily-office", Some("compline"), None);
    let b = resolve(&index, "daily-office", Some("compline"), None);
    match (a, b) {
        (Some(DocumentPageType::Document(_, x)), Some(DocumentPageType::Document(_, y))) => {
            assert!(*x == *y)
        }
        _ => panic!("expected the same document twice"),
    }
}

#[test]
fn build_keeps_the_order_of_the_listing() {
    let listing = vec![
        ("a".to_string(), None, PageType::Document("one".to_string(), doc("One", Version::RiteI))),
        ("b".to_string(), None, PageType::Document("two".to_string(), doc("Two", Version::RiteI))),
        ("a".to_string(), None, PageType::Document("three".to_string(), doc("Three", Version::RiteI))),
        (
            "a".to_string(),
            Some(Version::RiteI),
            PageType::Document("four".to_string(), doc("Four", Version::RiteI)),
        ),
    ];
    let index = TableOfContents::build(&listing);
    let a = index.lookup(&"a".to_string(), None);
    assert_eq!(a.len(), 2);
    match (&a[0], &a[1]) {
        (PageType::Document(s, _), PageType::Document(t, _)) => {
            assert_eq!(s, "one");
            assert_eq!(t, "three");
        }
        _ => panic!("expected two documents"),
    }
    assert_eq!(index.lookup(&"b".to_string(), None).len(), 1);
    assert_eq!(index.lookup(&"a".to_string(), Some(Version::RiteI)).len(), 1);
    assert_eq!(index.lookup(&"a".to_string(), Some(Version::RiteII)).len(), 0);
}

#[test]
fn copies_of_pages_are_equal_in_depth() {
    let page = PageType::Parallel(
        "p".to_string(),
        "P".to_string(),
        doc("a", Version::RiteII),
        vec![doc("b", Version::RiteI)],
    );
    let copy = page.clone();
    assert!(copy == page);
    let other = PageType::Parallel(
        "p".to_string(),
        "P".to_string(),
        doc("a", Version::RiteII),
        vec![doc("c", Version::RiteI)],
    );
    assert!(other != page);
    let p = params("office", Some("compline"), Some(Version::RiteII));
    let q = p.clone();
    assert_eq!(q.category, "office");
    assert_eq!(q.slug, Some("compline".to_string()));
    assert_eq!(q.version, Some(Version::RiteII));
    let resolved = DocumentPageType::CategorySummary(
        "L".to_string(),
        "c".to_string(),
        vec![(None, Version::EOW, None, "x".to_string())],
    );
    match resolved.clone() {
        DocumentPageType::CategorySummary(l, c, lines) => {
            assert_eq!(l, "L");
            assert_eq!(c, "c");
            assert_eq!(lines, vec![(None, Version::EOW, None, "x".to_string())]);
        }
        _ => panic!("expected a listing"),
    }
}
