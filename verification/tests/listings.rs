use liturgy_pages::category::{
    anchor_href, category_tree, label_groups, lists_headings, subcategory_groups, without_titles,
};
use liturgy_pages::document::{Content, Document, Reference, Source};
use liturgy_pages::grouping::key_runs;
use liturgy_pages::summary::{long_name, summary_groups};
use liturgy_pages::version::Version;

fn key(s: &str) -> Option<String> {
    Some(s.to_string())
}

fn doc(tags: &[&str], label: Option<&str>, text: &str) -> Document {
    let mut d = Document::from_content(Content::Text(text.to_string()));
    d.tags = tags.iter().map(|t| t.to_string()).collect();
    d.label = label.map(|l| l.to_string());
    d
}

fn line(source: Option<Source>, slug: &str) -> (Option<Reference>, Version, Option<String>, String) {
    (
        source.map(|source| Reference { source, page: 1 }),
        Version::RiteII,
        Some(slug.to_string()),
        slug.to_uppercase(),
    )
}

#[test]
fn runs_of_equal_neighbours() {
    let keys = vec![key("a"), key("a"), None, key("b"), key("b"), key("b"), key("a")];
    assert_eq!(key_runs(&keys), vec![(0, 2), (2, 3), (3, 6), (6, 7)]);
}

#[test]
fn runs_of_nothing() {
    assert_eq!(key_runs(&vec![]), vec![]);
}

#[test]
fn runs_of_one_key() {
    assert_eq!(key_runs(&vec![None, None, None]), vec![(0, 3)]);
    assert_eq!(key_runs(&vec![key("x")]), vec![(0, 1)]);
}

#[test]
fn runs_tell_an_absent_key_from_an_empty_one() {
    assert_eq!(key_runs(&vec![None, key(""), None]), vec![(0, 1), (1, 2), (2, 3)]);
}

#[test]
fn listing_is_grouped_by_source() {
    let lines = vec![
        line(Some(Source::BCP1979), "a"),
        line(Some(Source::BCP1979), "b"),
        line(Some(Source::EOW1), "c"),
        line(None, "d"),
        line(None, "e"),
        line(Some(Source::BCP1979), "f"),
    ];
    let groups = summary_groups(&lines);
    assert_eq!(groups.len(), 4);
    assert_eq!(groups[0].0, Some(Source::BCP1979));
    assert_eq!(groups[0].1, lines[0..2].to_vec());
    assert_eq!(groups[1].0, Some(Source::EOW1));
    assert_eq!(groups[1].1, lines[2..3].to_vec());
    assert_eq!(groups[2].0, None);
    assert_eq!(groups[2].1, lines[3..5].to_vec());
    // the same source again, but no neighbour of the first group
    assert_eq!(groups[3].0, Some(Source::BCP1979));
    assert_eq!(groups[3].1, lines[5..6].to_vec());
}

#[test]
fn listing_groups_ignore_the_page_of_the_reference() {
    let mut a = line(Some(Source::EOW2), "a");
    a.0 = Some(Reference { source: Source::EOW2, page: 10 });
    let mut b = line(Some(Source::EOW2), "b");
    b.0 = Some(Reference { source: Source::EOW2, page: 99 });
    let groups = summary_groups(&vec![a, b, line(Some(Source::EOW1), "c")]);
    assert_eq!(groups.len(), 2);
    assert_eq!(groups[0].1.len(), 2);
    assert_eq!(groups[1].0, Some(Source::EOW1));
}

#[test]
fn empty_listing_has_no_groups() {
    assert!(summary_groups(&vec![]).is_empty());
}

#[test]
fn sources_have_their_own_titles() {
    assert_eq!(long_name(Source::BCP1979), "The Book of Common Prayer (1979)");
    assert_eq!(long_name(Source::EOW1), "Enriching Our Worship 1");
    assert_eq!(long_name(Source::EOW2), "Enriching Our Worship 2");
    assert_eq!(long_name(Source::LFF2018), "Lesser Feasts and Fasts (2018)");
}

#[test]
fn documents_are_grouped_by_label() {
    let docs = vec![
        doc(&[], Some("Advent"), "1"),
        doc(&[], Some("Advent"), "2"),
        doc(&[], None, "3"),
        doc(&[], Some("Lent"), "4"),
    ];
    let groups = label_groups(&docs, 0, 4);
    assert_eq!(groups.len(), 3);
    assert_eq!(groups[0].label, Some("Advent".to_string()));
    assert_eq!(groups[0].documents.len(), 2);
    assert!(groups[0].documents[1] == docs[1]);
    assert_eq!(groups[1].label, None);
    assert_eq!(groups[2].label, Some("Lent".to_string()));
    // only the range that was asked for
    let inner = label_groups(&docs, 1, 3);
    assert_eq!(inner.len(), 2);
    assert_eq!(inner[0].documents.len(), 1);
    assert!(inner[0].documents[0] == docs[1]);
    assert!(label_groups(&docs, 2, 2).is_empty());
}

#[test]
fn documents_are_grouped_by_second_tag() {
    let docs = vec![
        doc(&["Seasons", "Advent"], Some("I"), "1"),
        doc(&["Seasons", "Advent"], Some("II"), "2"),
        doc(&["Seasons"], Some("III"), "3"),
        doc(&["Seasons", "Lent"], Some("IV"), "4"),
    ];
    let groups = subcategory_groups(&docs, 0, 4);
    assert_eq!(groups.len(), 3);
    assert_eq!(groups[0].subcategory, Some("Advent".to_string()));
    assert_eq!(groups[0].labels.len(), 2);
    assert_eq!(groups[1].subcategory, None);
    assert_eq!(groups[2].subcategory, Some("Lent".to_string()));
}

#[test]
fn category_tree_has_three_levels() {
    let docs = vec![
        doc(&["Seasons", "Advent"], Some("First Sunday"), "1"),
        doc(&["Seasons", "Advent"], Some("First Sunday"), "2"),
        doc(&["Seasons", "Advent"], Some("Second Sunday"), "3"),
        doc(&["Seasons", "Lent"], Some("Ash Wednesday"), "4"),
        doc(&["Holy Days"], Some("St. Andrew"), "5"),
        doc(&[], None, "6"),
        doc(&["Seasons", "Advent"], Some("First Sunday"), "7"),
    ];
    let tree = category_tree(&docs);
    assert_eq!(tree.len(), 4);
    assert_eq!(tree[0].category, Some("Seasons".to_string()));
    assert_eq!(tree[0].subcategories.len(), 2);
    let advent = &tree[0].subcategories[0];
    assert_eq!(advent.subcategory, Some("Advent".to_string()));
    assert_eq!(advent.labels.len(), 2);
    assert_eq!(advent.labels[0].label, Some("First Sunday".to_string()));
    assert_eq!(advent.labels[0].documents.len(), 2);
    assert!(advent.labels[0].documents[0] == docs[0]);
    assert!(advent.labels[0].documents[1] == docs[1]);
    assert_eq!(advent.labels[1].documents.len(), 1);
    assert!(advent.labels[1].documents[0] == docs[2]);
    let lent = &tree[0].subcategories[1];
    assert_eq!(lent.subcategory, Some("Lent".to_string()));
    assert!(lent.labels[0].documents[0] == docs[3]);
    assert_eq!(tree[1].category, Some("Holy Days".to_string()));
    assert_eq!(tree[1].subcategories[0].subcategory, None);
    assert_eq!(tree[2].category, None);
    assert_eq!(tree[2].subcategories[0].labels[0].label, None);
    assert_eq!(tree[3].category, Some("Seasons".to_string()));
    assert!(tree[3].subcategories[0].labels[0].documents[0] == docs[6]);
    let total: usize = tree
        .iter()
        .flat_map(|c| c.subcategories.iter())
        .flat_map(|s| s.labels.iter())
        .map(|l| l.documents.len())
        .sum();
    assert_eq!(total, docs.len());
}

#[test]
fn empty_category_has_an_empty_tree() {
    assert!(category_tree(&vec![]).is_empty());
}

#[test]
fn headings_are_listed_only_for_several_groups() {
    assert!(!lists_headings::<u8>(&vec![]));
    assert!(!lists_headings(&vec![1u8]));
    assert!(lists_headings(&vec![1u8, 2u8]));
}

#[test]
fn anchors() {
    assert_eq!(anchor_href(&Some("Advent".to_string())), "#Advent");
    assert_eq!(anchor_href(&None), "#");
}

#[test]
fn label_group_takes_the_subtitle_of_its_first_document() {
    let mut a = doc(&[], Some("Psalm 23"), "1");
    a.subtitle = Some("Dominus regit me".to_string());
    let mut b = doc(&[], Some("Psalm 23"), "2");
    b.subtitle = Some("other".to_string());
    let groups = label_groups(&vec![a, b], 0, 2);
    assert_eq!(groups.len(), 1);
    assert_eq!(groups[0].subtitle(), Some("Dominus regit me".to_string()));
    let plain = label_groups(&vec![doc(&[], None, "x")], 0, 1);
    assert_eq!(plain[0].subtitle(), None);
}

#[test]
fn titles_are_dropped_for_showing_under_a_heading() {
    let mut a = doc(&["t"], Some("Psalm 23"), "The Lord is my shepherd");
    a.subtitle = Some("Dominus regit me".to_string());
    a.version = Version::RiteI;
    let shown = without_titles(&a);
    assert_eq!(shown.label, None);
    assert_eq!(shown.subtitle, None);
    assert_eq!(shown.tags, a.tags);
    assert_eq!(shown.version, Version::RiteI);
    assert!(shown.content == a.content);
}
