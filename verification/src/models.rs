//! The catalog's data model: one record per listing, the enumerated
//! attribute types with their fixed lowercase tokens, and the sentinel
//! values a lossy extraction can produce in place of real data.

use vstd::prelude::*;

use crate::dates::Date;
use crate::text::str_eq;

verus! {

/// The market status of a listing.
#[derive(Clone, Copy, PartialEq, Eq, Structural, Debug)]
pub enum ListingType {
    Available,
    Sold,
    Unavailable,
}

/// The kind of property a listing advertises.
#[derive(Clone, Copy, PartialEq, Eq, Structural, Debug)]
pub enum PropertyType {
    Apartment,
    House,
    Land,
    Unknown,
}

/// The fixed lowercase token of a listing status.
pub open spec fn spec_listing_token(lt: ListingType) -> Seq<char> {
    match lt {
        ListingType::Available => "available"@,
        ListingType::Sold => "sold"@,
        ListingType::Unavailable => "unavailable"@,
    }
}

/// The fixed lowercase token of a property type.
pub open spec fn spec_property_type_token(pt: PropertyType) -> Seq<char> {
    match pt {
        PropertyType::Apartment => "apartment"@,
        PropertyType::House => "house"@,
        PropertyType::Land => "land"@,
        PropertyType::Unknown => "unknown"@,
    }
}

/// Serializes a listing status as its token.
pub fn listing_token(lt: &ListingType) -> (r: &'static str)
    ensures
        r@ == spec_listing_token(*lt),
{
    match lt {
        ListingType::Available => "available",
        ListingType::Sold => "sold",
        ListingType::Unavailable => "unavailable",
    }
}

/// Serializes a property type as its token.
pub fn property_type_token(pt: &PropertyType) -> (r: &'static str)
    ensures
        r@ == spec_property_type_token(*pt),
{
    match pt {
        PropertyType::Apartment => "apartment",
        PropertyType::House => "house",
        PropertyType::Land => "land",
        PropertyType::Unknown => "unknown",
    }
}

/// The listing status a token denotes; an unrecognized token denotes none.
pub open spec fn spec_parse_listing_token(s: Seq<char>) -> Option<ListingType> {
    if s == "available"@ {
        Some(ListingType::Available)
    } else if s == "sold"@ {
        Some(ListingType::Sold)
    } else if s == "unavailable"@ {
        Some(ListingType::Unavailable)
    } else {
        None
    }
}

/// Parses a listing status token; an unrecognized token is an error rather
/// than a silent default, since a status drives the merge rules.
pub fn parse_listing_token(s: &str) -> (r: Option<ListingType>)
    ensures
        r == spec_parse_listing_token(s@),
{
    if str_eq(s, "available") {
        Some(ListingType::Available)
    } else if str_eq(s, "sold") {
        Some(ListingType::Sold)
    } else if str_eq(s, "unavailable") {
        Some(ListingType::Unavailable)
    } else {
        None
    }
}

/// The property type a token denotes; an unrecognized token decodes to
/// `Unknown`, tolerating data written by a newer producer.
pub open spec fn spec_parse_property_type_token(s: Seq<char>) -> PropertyType {
    if s == "apartment"@ {
        PropertyType::Apartment
    } else if s == "house"@ {
        PropertyType::House
    } else if s == "land"@ {
        PropertyType::Land
    } else {
        PropertyType::Unknown
    }
}

/// Parses a property type token.
pub fn parse_property_type_token(s: &str) -> (r: PropertyType)
    ensures
        r == spec_parse_property_type_token(s@),
{
    if str_eq(s, "apartment") {
        PropertyType::Apartment
    } else if str_eq(s, "house") {
        PropertyType::House
    } else if str_eq(s, "land") {
        PropertyType::Land
    } else {
        PropertyType::Unknown
    }
}

/// The status tokens decode back to the statuses they were written from.
pub proof fn lemma_listing_token_round_trip(lt: ListingType)
    ensures
        spec_parse_listing_token(spec_listing_token(lt)) == Some(lt),
{
    reveal_strlit("available");
    reveal_strlit("sold");
    reveal_strlit("unavailable");
    assert("available"@.len() == 9);
    assert("sold"@.len() == 4);
    assert("unavailable"@.len() == 11);
}

/// The property type tokens decode back to the types they were written
/// from.
pub proof fn lemma_property_type_token_round_trip(pt: PropertyType)
    ensures
        spec_parse_property_type_token(spec_property_type_token(pt)) == pt,
{
    reveal_strlit("apartment");
    reveal_strlit("house");
    reveal_strlit("land");
    reveal_strlit("unknown");
    assert("apartment"@.len() == 9);
    assert("house"@.len() == 5);
    assert("land"@.len() == 4);
    assert("unknown"@.len() == 7);
}

/// A latitude/longitude pair, carried as the decimal texts that the
/// catalog file stores in its single `"lat,lng"` column.
#[derive(Debug)]
pub struct Coordinates {
    pub lat: String,
    pub lng: String,
}

impl Coordinates {
    /// An exact copy.
    pub fn duplicate(&self) -> (r: Coordinates)
        ensures
            r == *self,
    {
        Coordinates { lat: self.lat.clone(), lng: self.lng.clone() }
    }
}

/// One listing record: the attributes a fetch observes, plus the two
/// tracking dates a catalog entry carries.  A fresh snapshot leaves
/// `first_seen`/`last_seen` to the reconciler.
#[derive(Debug)]
pub struct Property {
    pub url: String,
    pub name: String,
    pub price: String,
    pub location: String,
    pub property_type: PropertyType,
    pub listing_type: ListingType,
    pub date: Option<Date>,
    pub coordinates: Option<Coordinates>,
    pub address: Option<String>,
    pub size_living: Option<String>,
    pub size_ground: Option<String>,
    pub first_seen: Option<Date>,
    pub last_seen: Option<Date>,
}

/// An exact copy of an optional owned string.
pub fn duplicate_opt_string(s: &Option<String>) -> (r: Option<String>)
    ensures
        r == *s,
{
    match s {
        Some(v) => Some(v.clone()),
        None => None,
    }
}

/// An exact copy of an optional coordinate pair.
pub fn duplicate_opt_coordinates(c: &Option<Coordinates>) -> (r: Option<Coordinates>)
    ensures
        r == *c,
{
    match c {
        Some(v) => Some(v.duplicate()),
        None => None,
    }
}

impl Property {
    /// An exact copy.
    pub fn duplicate(&self) -> (r: Property)
        ensures
            r == *self,
    {
        Property {
            url: self.url.clone(),
            name: self.name.clone(),
            price: self.price.clone(),
            location: self.location.clone(),
            property_type: self.property_type,
            listing_type: self.listing_type,
            date: self.date,
            coordinates: duplicate_opt_coordinates(&self.coordinates),
            address: duplicate_opt_string(&self.address),
            size_living: duplicate_opt_string(&self.size_living),
            size_ground: duplicate_opt_string(&self.size_ground),
            first_seen: self.first_seen,
            last_seen: self.last_seen,
        }
    }
}

/// A name an extraction emits when it could not determine the real one.
pub open spec fn spec_sentinel_name(s: Seq<char>) -> bool {
    s.len() == 0 || s == "Unknown Property"@ || s == "Unavailable Property"@
}

/// A price an extraction emits when it could not determine the real one.
pub open spec fn spec_sentinel_price(s: Seq<char>) -> bool {
    s.len() == 0 || s == "Unknown"@ || s == "Unavailable"@
}

/// A location an extraction emits when it could not determine the real one.
pub open spec fn spec_sentinel_location(s: Seq<char>) -> bool {
    s.len() == 0 || s == "Unknown"@
}

/// Whether a name is a placeholder.
pub fn is_sentinel_name(s: &str) -> (r: bool)
    ensures
        r == spec_sentinel_name(s@),
{
    s.is_empty() || str_eq(s, "Unknown Property") || str_eq(s, "Unavailable Property")
}

/// Whether a price is a placeholder.
pub fn is_sentinel_price(s: &str) -> (r: bool)
    ensures
        r == spec_sentinel_price(s@),
{
    s.is_empty() || str_eq(s, "Unknown") || str_eq(s, "Unavailable")
}

/// Whether a location is a placeholder.
pub fn is_sentinel_location(s: &str) -> (r: bool)
    ensures
        r == spec_sentinel_location(s@),
{
    s.is_empty() || str_eq(s, "Unknown")
}

/// How one crawl run is parameterized.  None of these change the merge
/// semantics; they only select and bound the frontier.
#[derive(Debug)]
pub struct ScrapingOptions {
    /// Path of the catalog file.
    pub output_file: String,
    /// Page cap for the legacy paged discovery mode.
    pub max_pages: Option<usize>,
    /// Cap on the number of candidates fetched this run.
    pub max_items: Option<usize>,
    /// Age threshold in days: selects the refresh-by-age mode.
    pub refresh_days: Option<u32>,
    /// Discover new listings until the stability condition is met.
    pub new: bool,
    /// Cookie material for an origin that wants authenticated requests.
    pub cookies: Option<String>,
    /// Verbose diagnostics.
    pub debug: bool,
}

impl Default for ScrapingOptions {
    /// The default run: discovery of new listings into `properties.csv`.
    fn default() -> (r: ScrapingOptions)
        ensures
            r.output_file@ == "properties.csv"@,
            r.max_pages is None,
            r.max_items is None,
            r.refresh_days is None,
            r.new,
            r.cookies is None,
            !r.debug,
    {
        ScrapingOptions {
            output_file: "properties.csv".to_owned(),
            max_pages: None,
            max_items: None,
            refresh_days: None,
            new: true,
            cookies: None,
            debug: false,
        }
    }
}

/// What one bulk run gathered, handed to the catalog merge.
pub struct ScrapingResult {
    pub scraped_properties: Vec<Property>,
    pub scraped_urls: Vec<String>,
    pub is_refresh: bool,
}

} // verus!
