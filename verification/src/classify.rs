//! Classification of free text into a property type, by case-insensitive
//! keyword search.  Case folding is Unicode work done by the standard
//! library; the keyword rules on the folded text are verified.

use vstd::prelude::*;

use crate::models::PropertyType;
use crate::text::{contains_seq, str_contains};

verus! {

/// What `str::to_lowercase` returns: a function of the characters alone.
pub uninterp spec fn lower_of(s: Seq<char>) -> Seq<char>;

/// Relies on `str::to_lowercase`: Unicode lowercasing, a function of the
/// characters alone.
#[verifier::external_body]
fn lowercase(s: &str) -> (r: String)
    ensures
        r@ == lower_of(s@),
{
    s.to_lowercase()
}

/// The property type that already-lowercased text names: apartment
/// keywords first, then house keywords, then land keywords, else unknown.
pub open spec fn spec_classify(s: Seq<char>) -> PropertyType {
    if contains_seq(s, "wohnung"@) || contains_seq(s, "apartment"@) || contains_seq(s, "flat"@)
        || contains_seq(s, "eigentumswohnung"@) {
        PropertyType::Apartment
    } else if contains_seq(s, "haus"@) || contains_seq(s, "house"@) || contains_seq(
        s,
        "einfamilienhaus"@,
    ) || contains_seq(s, "reihenhaus"@) || contains_seq(s, "villa"@) || contains_seq(
        s,
        "doppelhaus"@,
    ) {
        PropertyType::House
    } else if contains_seq(s, "grund"@) || contains_seq(s, "land"@) || contains_seq(s, "bauland"@)
        || contains_seq(s, "plot"@) || contains_seq(s, "bauplatz"@) {
        PropertyType::Land
    } else {
        PropertyType::Unknown
    }
}

/// Classifies lowercased text by its keywords.
pub fn classify_lowered(s: &str) -> (r: PropertyType)
    ensures
        r == spec_classify(s@),
{
    if str_contains(s, "wohnung") || str_contains(s, "apartment") || str_contains(s, "flat")
        || str_contains(s, "eigentumswohnung") {
        PropertyType::Apartment
    } else if str_contains(s, "haus") || str_contains(s, "house") || str_contains(
        s,
        "einfamilienhaus",
    ) || str_contains(s, "reihenhaus") || str_contains(s, "villa") || str_contains(
        s,
        "doppelhaus",
    ) {
        PropertyType::House
    } else if str_contains(s, "grund") || str_contains(s, "land") || str_contains(s, "bauland")
        || str_contains(s, "plot") || str_contains(s, "bauplatz") {
        PropertyType::Land
    } else {
        PropertyType::Unknown
    }
}

impl PropertyType {
    /// Classifies a property type from free text, case-insensitively.
    pub fn from_string(input: &str) -> (r: PropertyType)
        ensures
            r == spec_classify(lower_of(input@)),
    {
        let normalized = lowercase(input);
        classify_lowered(normalized.as_str())
    }
}

} // verus!
