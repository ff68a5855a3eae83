//! `Clone` and `==` for the document tree and the pages, both in depth.

use vstd::prelude::*;
use vstd::std_specs::cmp::PartialEqSpecImpl;
use crate::document::{
    clone_content, clone_doc, clone_opt_string, same_content, same_doc, Content, Document,
};
use crate::hydration::DocumentPageProps;
use crate::resolver::{clone_page_type, clone_params, DocumentPageParams, DocumentPageType};
use crate::toc::{clone_page, same_page, PageType};

verus! {

impl Clone for Document {
    fn clone(&self) -> (r: Self)
        ensures
            r@ == self@,
    {
        clone_doc(self)
    }
}

impl Clone for Content {
    fn clone(&self) -> (r: Self)
        ensures
            r@ == self@,
    {
        clone_content(self)
    }
}

impl PartialEq for Document {
    fn eq(&self, other: &Self) -> (r: bool) {
        same_doc(self, other)
    }
}

impl PartialEqSpecImpl for Document {
    open spec fn obeys_eq_spec() -> bool {
        true
    }

    open spec fn eq_spec(&self, other: &Self) -> bool {
        self@ == other@
    }
}

impl PartialEq for Content {
    fn eq(&self, other: &Self) -> (r: bool) {
        same_content(self, other)
    }
}

impl PartialEqSpecImpl for Content {
    open spec fn obeys_eq_spec() -> bool {
        true
    }

    open spec fn eq_spec(&self, other: &Self) -> bool {
        self@ == other@
    }
}

impl Clone for PageType {
    fn clone(&self) -> (r: Self)
        ensures
            r@ == self@,
    {
        clone_page(self)
    }
}

impl PartialEq for PageType {
    fn eq(&self, other: &Self) -> (r: bool) {
        same_page(self, other)
    }
}

impl PartialEqSpecImpl for PageType {
    open spec fn obeys_eq_spec() -> bool {
        true
    }

    open spec fn eq_spec(&self, other: &Self) -> bool {
        self@ == other@
    }
}

impl Clone for DocumentPageParams {
    fn clone(&self) -> (r: Self)
        ensures
            r@ == self@,
    {
        clone_params(self)
    }
}

impl Clone for DocumentPageType {
    fn clone(&self) -> (r: Self)
        ensures
            r@ == self@,
    {
        clone_page_type(self)
    }
}

impl Clone for DocumentPageProps {
    fn clone(&self) -> (r: Self)
        ensures
            r@ == self@,
    {
        DocumentPageProps {
            page_type: clone_page_type(&self.page_type),
            base_path: self.base_path.clone(),
            slug: clone_opt_string(&self.slug),
            date: self.date.clone(),
        }
    }
}

} // verus!
