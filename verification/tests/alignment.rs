use liturgy_pages::aligner::{align, build_tag_row, find_counterpart, merge_row};
use liturgy_pages::document::{Content, Document};
use liturgy_pages::version::Version;

fn text(s: &str) -> Document {
    Document::from_content(Content::Text(s.to_string()))
}

fn tagged(s: &str, tags: &[&str]) -> Document {
    let mut d = text(s);
    d.tags = tags.iter().map(|t| t.to_string()).collect();
    d
}

fn series(parts: Vec<Document>) -> Document {
    Document::from_content(Content::Series(parts))
}

fn spans(row: &[(Document, usize)]) -> Vec<usize> {
    row.iter().map(|cell| cell.1).collect()
}

#[test]
fn non_adjacent_equal_cells_stay_apart() {
    let a = text("A");
    let b = text("B");
    let row = vec![a.clone(), a.clone(), b.clone(), a.clone()];
    let merged = merge_row(&row);
    assert_eq!(merged.len(), 3);
    assert!(merged[0].0 == a);
    assert_eq!(merged[0].1, 2);
    assert!(merged[1].0 == b);
    assert_eq!(merged[1].1, 1);
    assert!(merged[2].0 == a);
    assert_eq!(merged[2].1, 1);
}

#[test]
fn merge_of_an_empty_row_is_empty() {
    assert!(merge_row(&vec![]).is_empty());
}

#[test]
fn merge_ignores_labels_and_provenance() {
    let mut a = text("Glory to God");
    a.label = Some("Gloria".to_string());
    a.version = Version::RiteI;
    let mut b = text("Glory to God");
    b.label = Some("Gloria in excelsis".to_string());
    b.version = Version::RiteII;
    let merged = merge_row(&vec![a.clone(), b]);
    assert_eq!(merged.len(), 1);
    assert_eq!(merged[0].1, 2);
    // the cell shows the first document of the run
    assert!(merged[0].0 == a);
}

#[test]
fn merge_of_identical_cells_gives_one_cell() {
    let a = text("Amen");
    let merged = merge_row(&vec![a.clone(), a.clone(), a.clone(), a.clone(), a.clone()]);
    assert_eq!(spans(&merged), vec![5]);
}

#[test]
fn merge_of_distinct_cells_keeps_them_all() {
    let merged = merge_row(&vec![text("a"), text("b"), text("c")]);
    assert_eq!(spans(&merged), vec![1, 1, 1]);
}

#[test]
fn untagged_child_fills_the_row() {
    let reference = series(vec![text("Rubric")]);
    let others = vec![text("x"), text("y")];
    let table = align(&reference, &others);
    assert_eq!(table.len(), 1);
    assert_eq!(table[0].len(), 1);
    assert_eq!(table[0][0].1, 3);
    assert!(table[0][0].0 == text("Rubric"));
}

#[test]
fn untagged_child_ignores_what_the_comparisons_hold() {
    let reference = series(vec![text("Rubric")]);
    let others = vec![series(vec![tagged("Rubric", &["rubric"])]), series(vec![])];
    let table = align(&reference, &others);
    assert_eq!(table.len(), 1);
    assert_eq!(spans(&table[0]), vec![3]);
}

#[test]
fn missing_counterpart_is_the_placeholder() {
    let reference = series(vec![tagged("Our Father", &["lords-prayer"])]);
    let with = series(vec![tagged("Padre nuestro", &["lords-prayer"])]);
    let without = series(vec![tagged("Gloria", &["gloria"])]);
    let table = align(&reference, &vec![without.clone(), with]);
    assert_eq!(table.len(), 1);
    assert_eq!(table[0].len(), 3);
    assert_eq!(spans(&table[0]), vec![1, 1, 1]);
    assert!(table[0][1].0 == Document::from_content(Content::Empty));
    assert!(table[0][2].0 == tagged("Padre nuestro", &["lords-prayer"]));
    assert!(find_counterpart(&without, &"lords-prayer".to_string()) == Document::from_content(Content::Empty));
}

#[test]
fn several_counterparts_become_a_series() {
    let cmp = series(vec![
        tagged("one", &["creed"]),
        tagged("other", &["gloria"]),
        tagged("two", &["creed"]),
    ]);
    let found = find_counterpart(&cmp, &"creed".to_string());
    assert!(found == series(vec![tagged("one", &["creed"]), tagged("two", &["creed"])]));
    assert!(found.tags.is_empty());
}

#[test]
fn each_tag_gives_a_row_in_the_order_of_the_tags() {
    let child = tagged("Kyrie", &["kyrie", "trisagion"]);
    let reference = series(vec![child.clone()]);
    let cmp = series(vec![tagged("Holy God", &["trisagion"]), tagged("Kyrie", &["kyrie"])]);
    let table = align(&reference, &vec![cmp]);
    assert_eq!(table.len(), 2);
    // under "kyrie" both columns hold the same text and merge
    assert_eq!(spans(&table[0]), vec![2]);
    assert!(table[0][0].0 == child);
    // under "trisagion" they differ
    assert_eq!(spans(&table[1]), vec![1, 1]);
    assert!(table[1][1].0 == tagged("Holy God", &["trisagion"]));
}

#[test]
fn rows_follow_the_children_of_the_reference() {
    let reference = series(vec![text("first"), tagged("second", &["t"]), text("third")]);
    let table = align(&reference, &vec![series(vec![]), series(vec![])]);
    assert_eq!(table.len(), 3);
    assert!(table[0][0].0 == text("first"));
    assert!(table[1][0].0 == tagged("second", &["t"]));
    assert!(table[2][0].0 == text("third"));
    // the two placeholders merge with each other, not with the reference
    assert_eq!(spans(&table[1]), vec![1, 2]);
}

#[test]
fn every_row_covers_the_width_for_up_to_five_comparisons() {
    let reference = series(vec![
        text("rubric"),
        tagged("a", &["x"]),
        tagged("b", &["x", "y"]),
        tagged("c", &["z"]),
    ]);
    let pool = vec![
        series(vec![tagged("a", &["x"])]),
        series(vec![tagged("a", &["x"]), tagged("b", &["y"])]),
        series(vec![]),
        series(vec![tagged("q", &["x"]), tagged("r", &["x"])]),
        series(vec![tagged("c", &["z"])]),
    ];
    for n in 0..=5 {
        let others: Vec<Document> = pool.iter().take(n).cloned().collect();
        let table = align(&reference, &others);
        assert_eq!(table.len(), 5);
        for row in table.iter() {
            assert_eq!(spans(row).iter().sum::<usize>(), n + 1);
            assert!(row.iter().all(|cell| cell.1 >= 1));
        }
    }
}

#[test]
fn a_document_without_children_gives_no_rows() {
    let table = align(&text("leaf"), &vec![text("x")]);
    assert!(table.is_empty());
}

#[test]
fn a_liturgy_is_aligned_by_its_parts() {
    let reference = Document::from_content(Content::Liturgy(true, vec![tagged("Phos hilaron", &["hymn"])]));
    let other = Document::from_content(Content::Liturgy(true, vec![tagged("O gracious Light", &["hymn"])]));
    let table = align(&reference, &vec![other]);
    assert_eq!(table.len(), 1);
    assert_eq!(spans(&table[0]), vec![1, 1]);
}

#[test]
fn tag_row_holds_the_child_and_one_cell_for_each_comparison() {
    let child = tagged("Sanctus", &["sanctus"]);
    let row = build_tag_row(
        &child,
        &"sanctus".to_string(),
        &vec![series(vec![tagged("Holy", &["sanctus"])]), series(vec![])],
    );
    assert_eq!(row.len(), 3);
    assert!(row[0] == child);
    assert!(row[1] == tagged("Holy", &["sanctus"]));
    assert!(row[2] == Document::from_content(Content::Empty));
}
