//! The decisions of a geocoding pass: which entries need coordinates, what
//! text is looked up for each, and how a result is applied.  The lookup
//! itself is a network call made outside the library; whatever pair it
//! returns is applied through the verified setter.

use vstd::prelude::*;

use crate::models::{Coordinates, Property};
use crate::text::{contains_seq, str_contains};

verus! {

/// A whitespace character, as the catalog's address fields use them.
pub open spec fn spec_is_space(c: char) -> bool {
    c == ' ' || c == '\t' || c == '\n' || c == '\r'
}

/// Nothing but whitespace.
pub open spec fn spec_is_blank(s: Seq<char>) -> bool {
    forall|i: int| 0 <= i < s.len() ==> spec_is_space(#[trigger] s[i])
}

/// Whether `s` holds nothing but whitespace.
pub fn is_blank(s: &str) -> (r: bool)
    ensures
        r == spec_is_blank(s@),
{
    let n = s.unicode_len();
    let mut i: usize = 0;
    while i < n
        invariant
            n == s@.len(),
            0 <= i <= n,
            forall|k: int| 0 <= k < i ==> spec_is_space(#[trigger] s@[k]),
        decreases n - i,
    {
        let c = s.get_char(i);
        if !(c == ' ' || c == '\t' || c == '\n' || c == '\r') {
            return false;
        }
        i += 1;
    }
    true
}

/// An entry is geocoded only when it has no coordinates yet and offers an
/// address or a usable location.
pub open spec fn spec_needs_geocoding(p: Property) -> bool {
    p.coordinates is None && (p.address is Some || !spec_is_blank(p.location@))
}

/// Whether an entry needs geocoding.
pub fn needs_geocoding(p: &Property) -> (r: bool)
    ensures
        r == spec_needs_geocoding(*p),
{
    matches!(p.coordinates, None) && (matches!(p.address, Some(_)) || !is_blank(
        p.location.as_str(),
    ))
}

/// The text looked up for an entry: its address when it has a non-blank
/// one, else its location.  An entry that already has coordinates is not
/// looked up at all.
pub fn geocode_target(p: &Property) -> (r: Option<String>)
    ensures
        p.coordinates is Some ==> r is None,
        p.coordinates is None ==> match r {
            Some(t) => t@ == (match p.address {
                Some(a) => if !spec_is_blank(a@) {
                    a@
                } else {
                    p.location@
                },
                None => p.location@,
            }),
            None => false,
        },
{
    if matches!(p.coordinates, Some(_)) {
        return None;
    }
    match &p.address {
        Some(a) => {
            if !is_blank(a.as_str()) {
                Some(a.clone())
            } else {
                Some(p.location.clone())
            }
        },
        None => Some(p.location.clone()),
    }
}

/// The text sent to the lookup service: the address itself when it already
/// names the country, else with the country appended for context.
pub fn enhance_address(address: &str) -> (r: String)
    ensures
        contains_seq(address@, "Austria"@) || contains_seq(address@, "\u{d6}sterreich"@) ==> r@
            == address@,
        !(contains_seq(address@, "Austria"@) || contains_seq(address@, "\u{d6}sterreich"@)) ==> r@
            == address@ + ", Austria"@,
{
    if str_contains(address, "Austria") || str_contains(address, "\u{d6}sterreich") {
        address.to_owned()
    } else {
        let mut s = address.to_owned();
        s.append(", Austria");
        s
    }
}

/// Applies a looked-up coordinate pair to an entry; everything else stays.
pub fn apply_coordinates(p: &mut Property, lat: String, lng: String)
    ensures
        *final(p) == (Property { coordinates: Some(Coordinates { lat, lng }), ..*old(p) }),
{
    p.coordinates = Some(Coordinates { lat, lng });
}

} // verus!
