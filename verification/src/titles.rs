//! The titles that the pages are shown under.

use vstd::prelude::*;
use vstd::string::StringExecFns;
use crate::resolver::{DocumentPageType, ResolvedView};

verus! {

/// The label of a page: that of its document, which may have none, or that
/// of its listing.
pub open spec fn label_of(page: ResolvedView) -> Option<Seq<char>> {
    match page {
        ResolvedView::Document(_, doc) => doc.label,
        ResolvedView::Category(label, _, _) => Some(label),
        ResolvedView::CategorySummary(label, _, _) => Some(label),
        ResolvedView::Parallels(label, _, _) => Some(label),
    }
}

/// The label of a page.
pub fn page_label(page: &DocumentPageType) -> (r: Option<&String>)
    ensures
        match r {
            Some(label) => label_of(page@) == Some(label@),
            None => label_of(page@).is_none(),
        },
{
    match page {
        DocumentPageType::Document(_, doc) => match &doc.label {
            Some(label) => Some(label),
            None => None,
        },
        DocumentPageType::Category(label, _, _) => Some(label),
        DocumentPageType::CategorySummary(label, _, _) => Some(label),
        DocumentPageType::Parallels(label, _, _) => Some(label),
    }
}

/// The title in the head of a page: its label, a dash and the name of the
/// site, or the name of the site alone for a page without a label.
pub open spec fn head_title_of(page: ResolvedView, site: Seq<char>) -> Seq<char> {
    match label_of(page) {
        Some(label) => label + " \u{2013} "@ + site,
        None => site,
    }
}

/// The title in the head of a page.
pub fn head_title(page: &DocumentPageType, site: &str) -> (r: String)
    ensures
        r@ == head_title_of(page@, site@),
{
    match page_label(page) {
        Some(label) => {
            let mut r = label.clone();
            r.append(" \u{2013} ");
            r.append(site);
            r
        },
        None => String::from_str(site),
    }
}

/// The title over the body of a page: its label, or the name of the site for
/// a page without a label.
pub open spec fn body_title_of(page: ResolvedView, site: Seq<char>) -> Seq<char> {
    match label_of(page) {
        Some(label) => label,
        None => site,
    }
}

/// The title over the body of a page.
pub fn body_title(page: &DocumentPageType, site: &str) -> (r: String)
    ensures
        r@ == body_title_of(page@, site@),
{
    match page_label(page) {
        Some(label) => label.clone(),
        None => String::from_str(site),
    }
}

} // verus!
