//! From a request to the state of its page.
//!
//! Resolution and the decisions around it are made here. Two things are not:
//! asking the calendar what is observed on a date, and compiling a liturgy for
//! that day. Where a page needs them, the caller is handed a [`CompileJob`],
//! does that work, and comes back with the outcome.

use vstd::prelude::*;
use vstd::string::StringExecFns;
use crate::document::{clone_opt_string, opt_view, Content, ContentView, Document, DocumentView};
use crate::paths::{base_path, base_path_of, date_name, date_text, default_calendar};
use crate::resolver::{
    find_page, resolved, Date, DocumentPageParams, DocumentPageType, ParamsView, ResolvedView,
};
use crate::toc::TableOfContents;

verus! {

/// What a page is shown from.
#[derive(Debug)]
pub struct DocumentPageProps {
    pub page_type: DocumentPageType,
    pub base_path: String,
    pub slug: Option<String>,
    /// The requested date as text, or nothing where the request names none.
    pub date: String,
}

/// The mathematical value of a [`DocumentPageProps`].
pub struct PropsView {
    pub page_type: ResolvedView,
    pub base_path: Seq<char>,
    pub slug: Option<Seq<char>>,
    pub date: Seq<char>,
}

impl View for DocumentPageProps {
    type V = PropsView;

    open spec fn view(&self) -> PropsView {
        PropsView {
            page_type: self.page_type@,
            base_path: self.base_path@,
            slug: opt_view(self.slug),
            date: self.date@,
        }
    }
}

/// A liturgy that waits to be compiled for a date.
#[derive(Debug)]
pub struct CompileJob {
    /// The request that led to the document.
    pub params: DocumentPageParams,
    /// The liturgy as the table of contents holds it.
    pub document: Document,
    /// The name of the calendar to ask.
    pub calendar: String,
    /// The date to compile for.
    pub date: Date,
    /// Whether the liturgy is an evening service.
    pub evening: bool,
}

/// The mathematical value of a [`CompileJob`].
pub struct JobView {
    pub params: ParamsView,
    pub document: DocumentView,
    pub calendar: Seq<char>,
    pub date: Date,
    pub evening: bool,
}

impl View for CompileJob {
    type V = JobView;

    open spec fn view(&self) -> JobView {
        JobView {
            params: self.params@,
            document: self.document@,
            calendar: self.calendar@,
            date: self.date,
            evening: self.evening,
        }
    }
}

/// What is to be done with a resolved page.
#[derive(Debug)]
pub enum Step {
    /// The page is shown as it is.
    Ready(DocumentPageType),
    /// The page is a liturgy to compile for a date.
    Compile(CompileJob),
}

/// The mathematical value of a [`Step`].
pub enum StepView {
    Ready(ResolvedView),
    Compile(JobView),
}

impl View for Step {
    type V = StepView;

    open spec fn view(&self) -> StepView {
        match *self {
            Step::Ready(page) => StepView::Ready(page@),
            Step::Compile(job) => StepView::Compile(job@),
        }
    }
}

/// What is to be done with a resolved page: a liturgy that was requested for
/// a date is compiled for it, with the calendar that the request names or the
/// default one; every other page is shown as it is.
pub open spec fn step_for(page: ResolvedView) -> StepView {
    match page {
        ResolvedView::Document(params, doc) => match (params.date, doc.content) {
            (Some(date), ContentView::Liturgy(evening, _)) => StepView::Compile(
                JobView {
                    params,
                    document: doc,
                    calendar: match params.calendar {
                        Some(name) => name,
                        None => default_calendar(),
                    },
                    date,
                    evening,
                },
            ),
            _ => StepView::Ready(page),
        },
        _ => StepView::Ready(page),
    }
}

/// Decides what is to be done with a resolved page.
pub fn plan(page: DocumentPageType) -> (r: Step)
    ensures
        r@ == step_for(page@),
{
    match page {
        DocumentPageType::Document(params, doc) => {
            let evening = match &doc.content {
                Content::Liturgy(evening, _) => Some(*evening),
                _ => None,
            };
            match (params.date, evening) {
                (Some(date), Some(evening)) => {
                    let calendar = match &params.calendar {
                        Some(name) => name.clone(),
                        None => String::from_str("bcp1979"),
                    };
                    Step::Compile(CompileJob { params, document: *doc, calendar, date, evening })
                },
                _ => Step::Ready(DocumentPageType::Document(params, doc)),
            }
        },
        other => Step::Ready(other),
    }
}

/// The word that asks for the alternate observance of a day.
pub open spec fn alternate_word() -> Seq<char> {
    "alternate"@
}

/// The observance to compile for: the day's alternate where the request asks
/// for it and the day has one, and the day's own observance otherwise.
pub open spec fn observed_day<T>(alternate: Option<Seq<char>>, observed: T, other: Option<T>) -> T {
    if alternate == Some(alternate_word()) && other.is_some() {
        other.unwrap()
    } else {
        observed
    }
}

/// Chooses the observance to compile for. `observed` and `other` are what the
/// calendar gives for the day: its observance and its alternate, if any.
pub fn choose_observed<T>(alternate: &Option<String>, observed: T, other: Option<T>) -> (r: T)
    ensures
        r == observed_day(opt_view(*alternate), observed, other),
{
    let asked = match alternate {
        Some(word) => {
            let wanted = String::from_str("alternate");
            *word == wanted
        },
        None => false,
    };
    if asked {
        match other {
            Some(day) => day,
            None => observed,
        }
    } else {
        observed
    }
}

/// The page that a compiled liturgy gives: the document with the request that
/// led to it, and nothing where compiling failed.
pub fn compiled_page(params: DocumentPageParams, outcome: Option<Document>) -> (r: Option<
    DocumentPageType,
>)
    ensures
        outcome.is_none() ==> r.is_none(),
        outcome.is_some() ==> r.is_some() && r.unwrap()@ == ResolvedView::Document(
            params@,
            outcome.unwrap()@,
        ),
{
    match outcome {
        Some(doc) => Some(DocumentPageType::Document(params, Box::new(doc))),
        None => None,
    }
}

/// What a page is shown from: the page itself, the address of the request
/// without its date, the requested slug, and the requested date as text.
pub open spec fn props_for(locale: Seq<char>, params: ParamsView, page: ResolvedView) -> PropsView {
    PropsView {
        page_type: page,
        base_path: base_path_of(locale, params.category, params.slug, params.version),
        slug: params.slug,
        date: match params.date {
            Some(date) => date_name(date),
            None => Seq::empty(),
        },
    }
}

/// Puts together what a page is shown from.
pub fn page_props(locale: &str, params: &DocumentPageParams, page: DocumentPageType) -> (r:
    DocumentPageProps)
    ensures
        r@ == props_for(locale@, params@, page@),
{
    DocumentPageProps {
        page_type: page,
        base_path: base_path(locale, params.category.as_str(), &params.slug, params.version),
        slug: clone_opt_string(&params.slug),
        date: match params.date {
            Some(date) => date_text(date),
            None => String::new(),
        },
    }
}

/// The state of a page after resolution.
#[derive(Debug)]
pub enum Hydration {
    /// No page answers the request.
    NotFound,
    /// The page is ready to be shown.
    Ready(DocumentPageProps),
    /// The page is a liturgy that waits to be compiled.
    Compile(CompileJob),
}

/// The mathematical value of a [`Hydration`].
pub enum HydrationView {
    NotFound,
    Ready(PropsView),
    Compile(JobView),
}

impl View for Hydration {
    type V = HydrationView;

    open spec fn view(&self) -> HydrationView {
        match *self {
            Hydration::NotFound => HydrationView::NotFound,
            Hydration::Ready(props) => HydrationView::Ready(props@),
            Hydration::Compile(job) => HydrationView::Compile(job@),
        }
    }
}

/// The state of the page that a request leads to.
pub open spec fn hydration_for(
    index: TableOfContents,
    locale: Seq<char>,
    params: ParamsView,
    label: Seq<char>,
) -> HydrationView {
    match resolved(index, params, params.category, params.slug, params.version, label) {
        None => HydrationView::NotFound,
        Some(page) => match step_for(page) {
            StepView::Ready(page) => HydrationView::Ready(props_for(locale, params, page)),
            StepView::Compile(job) => HydrationView::Compile(job),
        },
    }
}

/// Resolves a request and says what state its page is in: not found, ready
/// to be shown, or waiting to be compiled. `label` is the name of the
/// category, for the heading of a listing of candidates.
pub fn hydration_state(
    index: &TableOfContents,
    locale: &str,
    params: &DocumentPageParams,
    label: &String,
) -> (r: Hydration)
    ensures
        r@ == hydration_for(*index, locale@, params@, label@),
{
    match find_page(index, params, &params.category, &params.slug, params.version, label) {
        None => Hydration::NotFound,
        Some(page) => match plan(page) {
            Step::Ready(page) => Hydration::Ready(page_props(locale, params, page)),
            Step::Compile(job) => Hydration::Compile(job),
        },
    }
}

/// Takes up a page again once its liturgy has been compiled: the outcome is
/// shown under the request that led to it, and a failure to compile leaves
/// nothing to show.
pub fn finish_compiled(locale: &str, job: CompileJob, outcome: Option<Document>) -> (r: Option<
    DocumentPageProps,
>)
    ensures
        outcome.is_none() ==> r.is_none(),
        outcome.is_some() ==> r.is_some() && r.unwrap()@ == props_for(
            locale@,
            job@.params,
            ResolvedView::Document(job@.params, outcome.unwrap()@),
        ),
{
    let params = job.params;
    match outcome {
        Some(doc) => {
            let shown = crate::resolver::clone_params(&params);
            Some(page_props(locale, &params, DocumentPageType::Document(shown, Box::new(doc))))
        },
        None => None,
    }
}

/// A document that was requested without a date is shown as the table of
/// contents holds it, and so is every page that is no liturgy: to plan for
/// such a page once more changes nothing.
pub proof fn law_dateless_page_unchanged(params: ParamsView, doc: DocumentView)
    requires
        params.date.is_none(),
    ensures
        step_for(ResolvedView::Document(params, doc)) == StepView::Ready(
            ResolvedView::Document(params, doc),
        ),
{
}

/// A page that is ready stays as it is, however often it is planned for.
pub proof fn law_ready_page_is_fixed(page: ResolvedView, shown: ResolvedView)
    requires
        step_for(page) == StepView::Ready(shown),
    ensures
        shown == page,
        step_for(shown) == StepView::Ready(shown),
{
}

/// A liturgy that was requested for a date is handed out to be compiled, with
/// the date, the calendar and the time of day that the compiler is to use.
pub proof fn law_dated_liturgy_is_compiled(
    params: ParamsView,
    doc: DocumentView,
    date: Date,
    evening: bool,
    parts: Seq<DocumentView>,
)
    requires
        params.date == Some(date),
        doc.content == ContentView::Liturgy(evening, parts),
    ensures
        step_for(ResolvedView::Document(params, doc)) matches StepView::Compile(job) && job.date
            == date && job.evening == evening && job.document == doc && job.params == params
            && (params.calendar.is_none() ==> job.calendar == default_calendar()) && (
        params.calendar.is_some() ==> job.calendar == params.calendar.unwrap()),
{
}

} // verus!
