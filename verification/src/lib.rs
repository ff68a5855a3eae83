//! Pages of a library of liturgical documents: which page answers a request,
//! and how several editions of one liturgy are laid side by side.
//!
//! A request names a category and, optionally, a slug and an edition. The
//! resolver picks the matching entry of a table of contents, or lists the
//! candidates where several match. The aligner lays several editions of one
//! liturgy side by side and merges neighbouring cells that hold the same
//! content. Around these stand the listings of a category, the addresses and
//! titles of the pages, and the month that the calendar page shows.

pub mod aligner;
pub mod category;
pub mod document;
pub mod equality;
pub mod grouping;
pub mod hydration;
pub mod month;
pub mod paths;
pub mod resolver;
pub mod summary;
pub mod titles;
pub mod toc;
pub mod version;
