//! Editions of the liturgy and the compatibility relation between them.

use vstd::prelude::*;

verus! {

/// An edition of the liturgy that a document belongs to.
#[derive(Clone, Copy, Debug, PartialEq, Eq, Structural, Hash)]
pub enum Version {
    /// The 1979 Book of Common Prayer as a whole.
    BCP1979,
    /// Traditional-language rite of the 1979 book.
    RiteI,
    /// Contemporary-language rite of the 1979 book.
    RiteII,
    /// Enriching Our Worship.
    EOW,
    /// Expansive-language texts.
    Expansive,
    /// The Spanish edition of the 1979 book.
    LibroDeOracionComun,
    /// Marks a page that shows several editions side by side.
    Parallel,
}

impl Version {
    /// Whether `self` is a proper part of the broader edition `other`.
    pub open spec fn subset_of(self, other: Version) -> bool {
        (self == Version::RiteI || self == Version::RiteII) && other == Version::BCP1979
    }

    /// Whether a request for `self` is satisfied by something published under
    /// `other`: the two are the same edition, or `self` is part of `other`.
    pub open spec fn compatible_with(self, other: Version) -> bool {
        self == other || self.subset_of(other)
    }

    /// Whether `self` is a proper part of the broader edition `other`.
    pub fn is_subset_of(&self, other: &Version) -> (r: bool)
        ensures
            r == self.subset_of(*other),
    {
        match (*self, *other) {
            (Version::RiteI, Version::BCP1979) => true,
            (Version::RiteII, Version::BCP1979) => true,
            _ => false,
        }
    }

    /// Whether a request for `self` is satisfied by something published under
    /// `other`.
    pub fn is_compatible_with(&self, other: &Version) -> (r: bool)
        ensures
            r == self.compatible_with(*other),
    {
        *self == *other || self.is_subset_of(other)
    }
}

/// No edition is a proper part of itself, and the relation has no chains: what
/// is part of a broader edition has no parts of its own.
pub proof fn law_subset_is_strict(a: Version, b: Version, c: Version)
    ensures
        !a.subset_of(a),
        a.subset_of(b) ==> !b.subset_of(c),
{
}

} // verus!
