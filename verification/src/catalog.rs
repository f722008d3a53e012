//! The catalog file codec.  One tabular row per entry: the listing
//! attributes, the coordinates as a single `"lat,lng"` column, dates in
//! ISO-8601 form with an empty field for an absent date, and the enumerated
//! attributes as fixed lowercase tokens.  The framing of rows into bytes is
//! the CSV format, done by an outside crate; everything between rows and
//! records is verified here.

use vstd::prelude::*;

use crate::dates::{
    date_to_iso, lemma_date_iso_round_trip, parse_iso_date, spec_date_iso, spec_parse_iso_date,
    Date,
};
use crate::models::{
    lemma_listing_token_round_trip, lemma_property_type_token_round_trip, listing_token,
    parse_listing_token, parse_property_type_token, property_type_token, spec_listing_token,
    spec_parse_listing_token, spec_parse_property_type_token, spec_property_type_token,
    Coordinates, Property,
};
use crate::reconcile::{deduplicate_properties_by_url, spec_dedup, unique_urls};
use crate::text::{spec_digit_val, str_eq};
use crate::urls::{sanitize_url, spec_sanitize_url};

verus! {

/// All characters of `s` in `[lo, hi)` are decimal digits.
pub open spec fn digits_in(s: Seq<char>, lo: int, hi: int) -> bool {
    forall|j: int| lo <= j < hi ==> spec_digit_val(s[j]) is Some
}

/// The first position of `c` in `s` at or after `i`, or the length of `s`.
pub open spec fn first_at_or_after(s: Seq<char>, c: char, i: int) -> int
    decreases s.len() - i,
{
    if i < 0 || i >= s.len() {
        s.len() as int
    } else if s[i] == c {
        i
    } else {
        first_at_or_after(s, c, i + 1)
    }
}

/// A plain decimal number: an optional minus sign, digits, and optionally a
/// dot followed by more digits.  This is the shape of a coordinate
/// component.
pub open spec fn spec_is_decimal(s: Seq<char>) -> bool {
    let start: int = if s.len() > 0 && s[0] == '-' {
        1
    } else {
        0
    };
    let k = first_at_or_after(s, '.', start);
    &&& start < s.len()
    &&& if k == s.len() {
        digits_in(s, start, s.len() as int)
    } else {
        start < k && k + 1 < s.len() && digits_in(s, start, k) && digits_in(
            s,
            k + 1,
            s.len() as int,
        )
    }
}

/// Whether `s` reads as a plain decimal number.
pub fn is_decimal_text(s: &str) -> (r: bool)
    ensures
        r == spec_is_decimal(s@),
{
    let n = s.unicode_len();
    let start: usize = if n > 0 && s.get_char(0) == '-' {
        1
    } else {
        0
    };
    if start >= n {
        return false;
    }
    // Find the first dot.
    let mut k: usize = start;
    while k < n && s.get_char(k) != '.'
        invariant
            n == s@.len(),
            start <= k <= n,
            first_at_or_after(s@, '.', start as int) == first_at_or_after(s@, '.', k as int),
        decreases n - k,
    {
        k += 1;
    }
    proof {
        assert(first_at_or_after(s@, '.', start as int) == k as int);
    }
    if k == n {
        digits_in_range(s, start, n)
    } else {
        if !(start < k && k + 1 < n) {
            return false;
        }
        digits_in_range(s, start, k) && digits_in_range(s, k + 1, n)
    }
}

/// Whether every character of `s` in `[lo, hi)` is a decimal digit.
fn digits_in_range(s: &str, lo: usize, hi: usize) -> (r: bool)
    requires
        lo <= hi <= s@.len(),
    ensures
        r == digits_in(s@, lo as int, hi as int),
{
    let mut j = lo;
    while j < hi
        invariant
            lo <= j <= hi <= s@.len(),
            forall|k: int| lo <= k < j ==> spec_digit_val(s@[k]) is Some,
        decreases hi - j,
    {
        let c = s.get_char(j);
        let is_digit = match c {
            '0' | '1' | '2' | '3' | '4' | '5' | '6' | '7' | '8' | '9' => true,
            _ => false,
        };
        if !is_digit {
            return false;
        }
        j += 1;
    }
    true
}

/// The coordinate pair a `"lat,lng"` column text denotes: exactly one
/// comma, a plain decimal number on each side.  Anything else denotes no
/// coordinates rather than an error, matching how the catalog has always
/// read this column.
pub open spec fn spec_parse_coords(s: Seq<char>) -> Option<(Seq<char>, Seq<char>)> {
    let k = first_at_or_after(s, ',', 0);
    if s.len() == 0 || k == s.len() {
        None
    } else {
        let lat = s.take(k);
        let lng = s.skip(k + 1);
        if first_at_or_after(s, ',', k + 1) == s.len() && spec_is_decimal(lat) && spec_is_decimal(
            lng,
        ) {
            Some((lat, lng))
        } else {
            None
        }
    }
}

/// The views of an optional coordinate pair.
pub open spec fn coords_views(c: Option<Coordinates>) -> Option<(Seq<char>, Seq<char>)> {
    match c {
        Some(c) => Some((c.lat@, c.lng@)),
        None => None,
    }
}

/// Parses the `"lat,lng"` coordinates column.
pub fn parse_coords_field(s: &str) -> (r: Option<Coordinates>)
    ensures
        coords_views(r) == spec_parse_coords(s@),
{
    let n = s.unicode_len();
    if n == 0 {
        return None;
    }
    // Find the first comma.
    let mut k: usize = 0;
    while k < n && s.get_char(k) != ','
        invariant
            n == s@.len(),
            0 <= k <= n,
            first_at_or_after(s@, ',', 0) == first_at_or_after(s@, ',', k as int),
        decreases n - k,
    {
        k += 1;
    }
    proof {
        assert(first_at_or_after(s@, ',', 0) == k as int);
    }
    if k == n {
        return None;
    }
    // No second comma may follow.
    let mut j: usize = k + 1;
    while j < n && s.get_char(j) != ','
        invariant
            n == s@.len(),
            k + 1 <= j <= n,
            first_at_or_after(s@, ',', k + 1) == first_at_or_after(s@, ',', j as int),
        decreases n - j,
    {
        j += 1;
    }
    proof {
        assert(first_at_or_after(s@, ',', k + 1) == j as int);
    }
    if j < n {
        return None;
    }
    let lat = s.substring_char(0, k);
    let lng = s.substring_char(k + 1, n);
    proof {
        assert(lat@ =~= s@.take(k as int));
        assert(lng@ =~= s@.skip(k + 1));
    }
    if is_decimal_text(lat) && is_decimal_text(lng) {
        Some(Coordinates { lat: lat.to_owned(), lng: lng.to_owned() })
    } else {
        None
    }
}

/// The `"lat,lng"` column text of an optional coordinate pair; an empty
/// field means absent.
pub open spec fn spec_coords_field(c: Option<Coordinates>) -> Seq<char> {
    match c {
        Some(c) => c.lat@ + seq![','] + c.lng@,
        None => Seq::empty(),
    }
}

/// Serializes the coordinates column.
pub fn coords_field(c: &Option<Coordinates>) -> (r: String)
    ensures
        r@ == spec_coords_field(*c),
{
    match c {
        Some(c) => {
            let mut s = c.lat.clone();
            s.append(",");
            s.append(c.lng.as_str());
            proof {
                reveal_strlit(",");
                assert(s@ =~= spec_coords_field(Some(*c)));
            }
            s
        },
        None => {
            proof {
                assert(Seq::<char>::empty() =~= spec_coords_field(None));
            }
            String::new()
        },
    }
}

/// The view of an optional owned string.
pub open spec fn opt_string_view(o: Option<String>) -> Option<Seq<char>> {
    match o {
        Some(s) => Some(s@),
        None => None,
    }
}

/// The value an optional text column denotes: an empty field means absent.
pub open spec fn spec_opt_text(s: Seq<char>) -> Option<Seq<char>> {
    if s.len() == 0 {
        None
    } else {
        Some(s)
    }
}

/// Parses an optional text column.
pub fn parse_opt_field(s: &str) -> (r: Option<String>)
    ensures
        opt_string_view(r) == spec_opt_text(s@),
{
    if s.is_empty() {
        None
    } else {
        Some(s.to_owned())
    }
}

/// The column text of an optional string; an empty field means absent.
pub open spec fn spec_opt_string_field(o: Option<String>) -> Seq<char> {
    match o {
        Some(s) => s@,
        None => Seq::empty(),
    }
}

/// Serializes an optional text column.
pub fn opt_string_field(o: &Option<String>) -> (r: String)
    ensures
        r@ == spec_opt_string_field(*o),
{
    match o {
        Some(s) => s.clone(),
        None => {
            proof {
                assert(Seq::<char>::empty() =~= spec_opt_string_field(None));
            }
            String::new()
        },
    }
}

/// Whether an optional date column is well-formed: empty, or a real
/// ISO-8601 date.
pub open spec fn spec_opt_date_ok(s: Seq<char>) -> bool {
    s.len() == 0 || spec_parse_iso_date(s) is Some
}

/// The date an optional date column denotes; an empty field means absent.
pub open spec fn spec_opt_date_value(s: Seq<char>) -> Option<Date> {
    if s.len() == 0 {
        None
    } else {
        spec_parse_iso_date(s)
    }
}

/// Parses an optional date column; a malformed date is an error, an empty
/// field is an absent date.
pub fn parse_opt_date(s: &str) -> (r: Option<Option<Date>>)
    ensures
        r is Some <==> spec_opt_date_ok(s@),
        r is Some ==> r.unwrap() == spec_opt_date_value(s@),
{
    if s.is_empty() {
        Some(None)
    } else {
        match parse_iso_date(s) {
            Some(d) => Some(Some(d)),
            None => None,
        }
    }
}

/// The column text of an optional date.
pub open spec fn spec_opt_date_field(d: Option<Date>) -> Seq<char> {
    match d {
        Some(d) => spec_date_iso(d),
        None => Seq::empty(),
    }
}

/// Serializes an optional date column.
pub fn opt_date_field(d: &Option<Date>) -> (r: String)
    ensures
        r@ == spec_opt_date_field(*d),
{
    match d {
        Some(d) => date_to_iso(d),
        None => {
            proof {
                assert(Seq::<char>::empty() =~= spec_opt_date_field(None));
            }
            String::new()
        },
    }
}

/// The header row: the required columns, in the order this library writes
/// them.
pub open spec fn spec_header_row() -> Seq<Seq<char>> {
    seq![
        "url"@,
        "name"@,
        "price"@,
        "location"@,
        "property_type"@,
        "listing_type"@,
        "date"@,
        "coordinates"@,
        "address"@,
        "size_living"@,
        "size_ground"@,
        "first_seen"@,
        "last_seen"@,
    ]
}

/// The row of one entry, under the header's column order.
pub open spec fn spec_property_row(p: Property) -> Seq<Seq<char>> {
    seq![
        p.url@,
        p.name@,
        p.price@,
        p.location@,
        spec_property_type_token(p.property_type),
        spec_listing_token(p.listing_type),
        spec_opt_date_field(p.date),
        spec_coords_field(p.coordinates),
        spec_opt_string_field(p.address),
        spec_opt_string_field(p.size_living),
        spec_opt_string_field(p.size_ground),
        spec_opt_date_field(p.first_seen),
        spec_opt_date_field(p.last_seen),
    ]
}

/// All rows of a catalog file: the header, then one row per entry.
pub open spec fn spec_catalog_rows(c: Seq<Property>) -> Seq<Seq<Seq<char>>> {
    seq![spec_header_row()] + Seq::new(c.len(), |i: int| spec_property_row(c[i]))
}

/// Builds the header row.
pub fn header_row() -> (r: Vec<String>)
    ensures
        r.deep_view() == spec_header_row(),
{
    let mut row: Vec<String> = Vec::new();
    row.push("url".to_owned());
    row.push("name".to_owned());
    row.push("price".to_owned());
    row.push("location".to_owned());
    row.push("property_type".to_owned());
    row.push("listing_type".to_owned());
    row.push("date".to_owned());
    row.push("coordinates".to_owned());
    row.push("address".to_owned());
    row.push("size_living".to_owned());
    row.push("size_ground".to_owned());
    row.push("first_seen".to_owned());
    row.push("last_seen".to_owned());
    proof {
        assert(row.deep_view() =~= spec_header_row());
    }
    row
}

/// Serializes one entry as its row.
pub fn property_to_row(p: &Property) -> (r: Vec<String>)
    ensures
        r.deep_view() == spec_property_row(*p),
{
    let mut row: Vec<String> = Vec::new();
    row.push(p.url.clone());
    row.push(p.name.clone());
    row.push(p.price.clone());
    row.push(p.location.clone());
    row.push(property_type_token(&p.property_type).to_owned());
    row.push(listing_token(&p.listing_type).to_owned());
    row.push(opt_date_field(&p.date));
    row.push(coords_field(&p.coordinates));
    row.push(opt_string_field(&p.address));
    row.push(opt_string_field(&p.size_living));
    row.push(opt_string_field(&p.size_ground));
    row.push(opt_date_field(&p.first_seen));
    row.push(opt_date_field(&p.last_seen));
    proof {
        assert(row.deep_view() =~= spec_property_row(*p));
    }
    row
}

/// Serializes a whole catalog as its rows.
pub fn catalog_to_rows(catalog: &Vec<Property>) -> (r: Vec<Vec<String>>)
    ensures
        r.deep_view() == spec_catalog_rows(catalog@),
{
    let mut rows: Vec<Vec<String>> = Vec::new();
    rows.push(header_row());
    let mut i: usize = 0;
    while i < catalog.len()
        invariant
            0 <= i <= catalog@.len(),
            rows.deep_view() == seq![spec_header_row()] + Seq::new(
                i as nat,
                |k: int| spec_property_row(catalog@[k]),
            ),
        decreases catalog@.len() - i,
    {
        let ghost before = rows.deep_view();
        rows.push(property_to_row(&catalog[i]));
        proof {
            assert(rows.deep_view() =~= before.push(spec_property_row(catalog@[i as int])));
            assert(rows.deep_view() =~= seq![spec_header_row()] + Seq::new(
                (i + 1) as nat,
                |k: int| spec_property_row(catalog@[k]),
            ));
        }
        i += 1;
    }
    proof {
        assert(rows.deep_view() =~= spec_catalog_rows(catalog@));
    }
    rows
}

/// The position of the column named `name` in the header, or `-1`.
pub open spec fn find_field_index(h: Seq<Seq<char>>, name: Seq<char>) -> int
    decreases h.len(),
{
    if h.len() == 0 {
        -1
    } else if h[0] == name {
        0
    } else {
        let r = find_field_index(h.skip(1), name);
        if r == -1 {
            -1
        } else {
            1 + r
        }
    }
}

pub proof fn lemma_find_field_index_props(h: Seq<Seq<char>>, name: Seq<char>)
    ensures
        -1 <= find_field_index(h, name) < h.len(),
        find_field_index(h, name) >= 0 ==> h[find_field_index(h, name)] == name,
        find_field_index(h, name) == -1 ==> forall|i: int| 0 <= i < h.len() ==> h[i] != name,
        forall|i: int| 0 <= i < find_field_index(h, name) ==> h[i] != name,
    decreases h.len(),
{
    if h.len() == 0 {
    } else if h[0] == name {
    } else {
        lemma_find_field_index_props(h.skip(1), name);
        assert(forall|i: int| 1 <= i < h.len() ==> h[i] == h.skip(1)[i - 1]);
    }
}

/// The header carries every required column.
pub open spec fn header_ok(h: Seq<Seq<char>>) -> bool {
    &&& find_field_index(h, "url"@) >= 0
    &&& find_field_index(h, "name"@) >= 0
    &&& find_field_index(h, "price"@) >= 0
    &&& find_field_index(h, "location"@) >= 0
    &&& find_field_index(h, "property_type"@) >= 0
    &&& find_field_index(h, "listing_type"@) >= 0
    &&& find_field_index(h, "date"@) >= 0
    &&& find_field_index(h, "coordinates"@) >= 0
    &&& find_field_index(h, "address"@) >= 0
    &&& find_field_index(h, "size_living"@) >= 0
    &&& find_field_index(h, "size_ground"@) >= 0
    &&& find_field_index(h, "first_seen"@) >= 0
    &&& find_field_index(h, "last_seen"@) >= 0
}

/// Where each required column stands in a catalog file's header.
#[derive(Clone, Copy)]
pub struct ColumnMap {
    pub url: usize,
    pub name: usize,
    pub price: usize,
    pub location: usize,
    pub property_type: usize,
    pub listing_type: usize,
    pub date: usize,
    pub coordinates: usize,
    pub address: usize,
    pub size_living: usize,
    pub size_ground: usize,
    pub first_seen: usize,
    pub last_seen: usize,
    pub width: usize,
}

impl ColumnMap {
    /// The map agrees with the header `h`.
    pub open spec fn matches(self, h: Seq<Seq<char>>) -> bool {
        &&& self.url as int == find_field_index(h, "url"@)
        &&& self.name as int == find_field_index(h, "name"@)
        &&& self.price as int == find_field_index(h, "price"@)
        &&& self.location as int == find_field_index(h, "location"@)
        &&& self.property_type as int == find_field_index(h, "property_type"@)
        &&& self.listing_type as int == find_field_index(h, "listing_type"@)
        &&& self.date as int == find_field_index(h, "date"@)
        &&& self.coordinates as int == find_field_index(h, "coordinates"@)
        &&& self.address as int == find_field_index(h, "address"@)
        &&& self.size_living as int == find_field_index(h, "size_living"@)
        &&& self.size_ground as int == find_field_index(h, "size_ground"@)
        &&& self.first_seen as int == find_field_index(h, "first_seen"@)
        &&& self.last_seen as int == find_field_index(h, "last_seen"@)
        &&& self.width as int == h.len()
    }
}

/// The position of the column named `name`, if the header has one.
fn find_column(header: &Vec<String>, name: &str) -> (r: Option<usize>)
    ensures
        match r {
            Some(j) => j as int == find_field_index(header.deep_view(), name@),
            None => find_field_index(header.deep_view(), name@) == -1,
        },
{
    proof {
        lemma_find_field_index_props(header.deep_view(), name@);
    }
    let ghost h = header.deep_view();
    let mut i: usize = 0;
    while i < header.len()
        invariant
            h == header.deep_view(),
            h.len() == header@.len(),
            forall|k: int| 0 <= k < h.len() ==> h[k] == header@[k]@,
            0 <= i <= h.len(),
            -1 <= find_field_index(h, name@) < h.len(),
            find_field_index(h, name@) >= 0 ==> h[find_field_index(h, name@)] == name@,
            forall|k: int| 0 <= k < find_field_index(h, name@) ==> h[k] != name@,
            find_field_index(h, name@) == -1 ==> forall|k: int| 0 <= k < h.len() ==> h[k] != name@,
            forall|k: int| 0 <= k < i ==> h[k] != name@,
        decreases h.len() - i,
    {
        if str_eq(header[i].as_str(), name) {
            proof {
                assert(h[i as int] == name@);
                let f = find_field_index(h, name@);
                if f < i as int {
                    assert(h[f] == name@);
                }
            }
            return Some(i);
        }
        i += 1;
    }
    None
}

/// Reads the positions of the required columns off the header row; `None`
/// when a required column is missing.
pub fn parse_header(header: &Vec<String>) -> (r: Option<ColumnMap>)
    ensures
        r is Some <==> header_ok(header.deep_view()),
        r is Some ==> r.unwrap().matches(header.deep_view()),
{
    proof {
        lemma_find_field_index_props(header.deep_view(), "url"@);
        lemma_find_field_index_props(header.deep_view(), "name"@);
        lemma_find_field_index_props(header.deep_view(), "price"@);
        lemma_find_field_index_props(header.deep_view(), "location"@);
        lemma_find_field_index_props(header.deep_view(), "property_type"@);
        lemma_find_field_index_props(header.deep_view(), "listing_type"@);
        lemma_find_field_index_props(header.deep_view(), "date"@);
        lemma_find_field_index_props(header.deep_view(), "coordinates"@);
        lemma_find_field_index_props(header.deep_view(), "address"@);
        lemma_find_field_index_props(header.deep_view(), "size_living"@);
        lemma_find_field_index_props(header.deep_view(), "size_ground"@);
        lemma_find_field_index_props(header.deep_view(), "first_seen"@);
        lemma_find_field_index_props(header.deep_view(), "last_seen"@);
    }
    let url = find_column(header, "url");
    let name = find_column(header, "name");
    let price = find_column(header, "price");
    let location = find_column(header, "location");
    let property_type = find_column(header, "property_type");
    let listing_type = find_column(header, "listing_type");
    let date = find_column(header, "date");
    let coordinates = find_column(header, "coordinates");
    let address = find_column(header, "address");
    let size_living = find_column(header, "size_living");
    let size_ground = find_column(header, "size_ground");
    let first_seen = find_column(header, "first_seen");
    let last_seen = find_column(header, "last_seen");
    match (url, name, price, location, property_type, listing_type, date, coordinates, address,
        size_living, size_ground, first_seen, last_seen) {
        (
            Some(url),
            Some(name),
            Some(price),
            Some(location),
            Some(property_type),
            Some(listing_type),
            Some(date),
            Some(coordinates),
            Some(address),
            Some(size_living),
            Some(size_ground),
            Some(first_seen),
            Some(last_seen),
        ) => Some(
            ColumnMap {
                url,
                name,
                price,
                location,
                property_type,
                listing_type,
                date,
                coordinates,
                address,
                size_living,
                size_ground,
                first_seen,
                last_seen,
                width: header.len(),
            },
        ),
        _ => None,
    }
}

} // verus!

verus! {

/// Why a catalog load or save failed.
#[derive(Clone, Copy, PartialEq, Eq, Structural, Debug)]
pub enum CatalogError {
    /// The CSV layer rejected the bytes or the records.
    Framing,
    /// The header lacks a required column.
    MissingColumn,
    /// A record is structurally invalid: ragged, an unknown status token,
    /// or a malformed date.
    InvalidRecord,
}

impl CatalogError {
    /// A short description of the failure.
    pub fn message(&self) -> (r: &'static str)
        ensures
            *self == CatalogError::Framing ==> r@ == "malformed catalog file"@,
            *self == CatalogError::MissingColumn ==> r@ == "missing required column"@,
            *self == CatalogError::InvalidRecord ==> r@ == "structurally invalid record"@,
    {
        match self {
            CatalogError::Framing => "malformed catalog file",
            CatalogError::MissingColumn => "missing required column",
            CatalogError::InvalidRecord => "structurally invalid record",
        }
    }
}

/// A record is structurally sound under the header `h`: same width, a
/// recognized status token, and well-formed date columns.
pub open spec fn row_ok(h: Seq<Seq<char>>, row: Seq<Seq<char>>) -> bool {
    &&& row.len() == h.len()
    &&& spec_parse_listing_token(row[find_field_index(h, "listing_type"@)]) is Some
    &&& spec_opt_date_ok(row[find_field_index(h, "date"@)])
    &&& spec_opt_date_ok(row[find_field_index(h, "first_seen"@)])
    &&& spec_opt_date_ok(row[find_field_index(h, "last_seen"@)])
}

/// The entry `p` is exactly what the record `row` denotes under the header
/// `h`: each column decoded by its codec, and the identifier canonicalized.
pub open spec fn row_decodes_entry(h: Seq<Seq<char>>, row: Seq<Seq<char>>, p: Property) -> bool {
    &&& p.url@ == spec_sanitize_url(row[find_field_index(h, "url"@)])
    &&& p.name@ == row[find_field_index(h, "name"@)]
    &&& p.price@ == row[find_field_index(h, "price"@)]
    &&& p.location@ == row[find_field_index(h, "location"@)]
    &&& p.property_type == spec_parse_property_type_token(
        row[find_field_index(h, "property_type"@)],
    )
    &&& Some(p.listing_type) == spec_parse_listing_token(
        row[find_field_index(h, "listing_type"@)],
    )
    &&& p.date == spec_opt_date_value(row[find_field_index(h, "date"@)])
    &&& coords_views(p.coordinates) == spec_parse_coords(
        row[find_field_index(h, "coordinates"@)],
    )
    &&& opt_string_view(p.address) == spec_opt_text(row[find_field_index(h, "address"@)])
    &&& opt_string_view(p.size_living) == spec_opt_text(
        row[find_field_index(h, "size_living"@)],
    )
    &&& opt_string_view(p.size_ground) == spec_opt_text(
        row[find_field_index(h, "size_ground"@)],
    )
    &&& p.first_seen == spec_opt_date_value(row[find_field_index(h, "first_seen"@)])
    &&& p.last_seen == spec_opt_date_value(row[find_field_index(h, "last_seen"@)])
}

/// A whole catalog file is structurally sound: empty, or a header with the
/// required columns followed by sound records.
pub open spec fn rows_wellformed(rows: Seq<Seq<Seq<char>>>) -> bool {
    rows.len() == 0 || (header_ok(rows[0]) && forall|i: int|
        1 <= i < rows.len() ==> row_ok(rows[0], #[trigger] rows[i]))
}

/// Decodes one record under the located columns.
fn row_to_property(cols: &ColumnMap, row: &Vec<String>, Ghost(h): Ghost<Seq<Seq<char>>>) -> (r:
    Option<Property>)
    requires
        cols.matches(h),
        header_ok(h),
    ensures
        match r {
            Some(p) => row_ok(h, row.deep_view()) && row_decodes_entry(h, row.deep_view(), p),
            None => !row_ok(h, row.deep_view()),
        },
{
    proof {
        lemma_find_field_index_props(h, "url"@);
        lemma_find_field_index_props(h, "name"@);
        lemma_find_field_index_props(h, "price"@);
        lemma_find_field_index_props(h, "location"@);
        lemma_find_field_index_props(h, "property_type"@);
        lemma_find_field_index_props(h, "listing_type"@);
        lemma_find_field_index_props(h, "date"@);
        lemma_find_field_index_props(h, "coordinates"@);
        lemma_find_field_index_props(h, "address"@);
        lemma_find_field_index_props(h, "size_living"@);
        lemma_find_field_index_props(h, "size_ground"@);
        lemma_find_field_index_props(h, "first_seen"@);
        lemma_find_field_index_props(h, "last_seen"@);
        assert(forall|i: int|
            0 <= i < row@.len() ==> row.deep_view()[i] == #[trigger] row@[i]@);
    }
    if row.len() != cols.width {
        return None;
    }
    let listing_type = match parse_listing_token(row[cols.listing_type].as_str()) {
        Some(lt) => lt,
        None => {
            return None;
        },
    };
    let date = match parse_opt_date(row[cols.date].as_str()) {
        Some(d) => d,
        None => {
            return None;
        },
    };
    let first_seen = match parse_opt_date(row[cols.first_seen].as_str()) {
        Some(d) => d,
        None => {
            return None;
        },
    };
    let last_seen = match parse_opt_date(row[cols.last_seen].as_str()) {
        Some(d) => d,
        None => {
            return None;
        },
    };
    Some(
        Property {
            url: sanitize_url(row[cols.url].as_str()),
            name: row[cols.name].clone(),
            price: row[cols.price].clone(),
            location: row[cols.location].clone(),
            property_type: parse_property_type_token(row[cols.property_type].as_str()),
            listing_type,
            date,
            coordinates: parse_coords_field(row[cols.coordinates].as_str()),
            address: parse_opt_field(row[cols.address].as_str()),
            size_living: parse_opt_field(row[cols.size_living].as_str()),
            size_ground: parse_opt_field(row[cols.size_ground].as_str()),
            first_seen,
            last_seen,
        },
    )
}

/// Decodes a whole catalog file from its records.  The load is
/// all-or-nothing: one structurally invalid record fails it.  Identifiers
/// are canonicalized and the result deduplicated, so entries that differ
/// only in query string or fragment can never coexist.
pub fn catalog_from_rows(rows: &Vec<Vec<String>>) -> (r: Result<Vec<Property>, CatalogError>)
    ensures
        r is Ok <==> rows_wellformed(rows.deep_view()),
        r is Ok ==> unique_urls(r.unwrap()@),
        r is Ok && rows.deep_view().len() == 0 ==> r.unwrap()@ == Seq::<Property>::empty(),
        r is Ok && rows.deep_view().len() > 0 ==> exists|raw: Seq<Property>|
            raw.len() == rows.deep_view().len() - 1 && (forall|i: int|
                0 <= i < raw.len() ==> row_decodes_entry(
                    rows.deep_view()[0],
                    rows.deep_view()[i + 1],
                    #[trigger] raw[i],
                )) && r.unwrap()@ == spec_dedup(raw),
        rows.deep_view().len() > 0 && !header_ok(rows.deep_view()[0]) ==> r == Err::<
            Vec<Property>,
            _,
        >(CatalogError::MissingColumn),
        rows.deep_view().len() > 0 && header_ok(rows.deep_view()[0]) && !rows_wellformed(
            rows.deep_view(),
        ) ==> r == Err::<Vec<Property>, _>(CatalogError::InvalidRecord),
{
    let ghost rv = rows.deep_view();
    proof {
        assert(forall|i: int| 0 <= i < rows@.len() ==> rv[i] == #[trigger] rows@[i].deep_view());
    }
    if rows.len() == 0 {
        return Ok(Vec::new());
    }
    let cols = match parse_header(&rows[0]) {
        Some(c) => c,
        None => {
            return Err(CatalogError::MissingColumn);
        },
    };
    let ghost h = rv[0];
    let mut out: Vec<Property> = Vec::new();
    let mut i: usize = 1;
    while i < rows.len()
        invariant
            rv == rows.deep_view(),
            forall|k: int| 0 <= k < rows@.len() ==> rv[k] == #[trigger] rows@[k].deep_view(),
            h == rv[0],
            cols.matches(h),
            header_ok(h),
            1 <= i <= rows@.len(),
            out@.len() == i - 1,
            forall|k: int| 0 <= k < i - 1 ==> row_ok(h, #[trigger] rv[k + 1]),
            forall|k: int|
                0 <= k < i - 1 ==> row_decodes_entry(h, rv[k + 1], #[trigger] out@[k]),
        decreases rows@.len() - i,
    {
        match row_to_property(&cols, &rows[i], Ghost(h)) {
            Some(p) => {
                out.push(p);
            },
            None => {
                proof {
                    assert(!row_ok(h, rv[i as int]));
                }
                return Err(CatalogError::InvalidRecord);
            },
        }
        i += 1;
    }
    let ghost raw = out@;
    let deduped = deduplicate_properties_by_url(out);
    proof {
        assert forall|j: int| 1 <= j < rv.len() implies row_ok(rv[0], #[trigger] rv[j]) by {
            assert(row_ok(h, rv[(j - 1) + 1]));
        }
        assert(rows_wellformed(rv));
        assert(raw.len() == rv.len() - 1);
        assert forall|k: int| 0 <= k < raw.len() implies row_decodes_entry(
            rv[0],
            rv[k + 1],
            #[trigger] raw[k],
        ) by {
            assert(row_decodes_entry(h, rv[k + 1], out@[k]));
        }
        assert(deduped@ == spec_dedup(raw));
    }
    Ok(deduped)
}

/// What the CSV reader of the outside crate decodes given bytes: the
/// records, each a sequence of fields.
pub uninterp spec fn csv_rows(bytes: Seq<u8>) -> Seq<Seq<Seq<char>>>;

/// Whether the CSV reader of the outside crate accepts the bytes: like the
/// records themselves, a function of the bytes alone.
pub uninterp spec fn csv_wellformed(bytes: Seq<u8>) -> bool;

/// What the CSV writer of the outside crate produces given records.
pub uninterp spec fn csv_encoding_of(rows: Seq<Seq<Seq<char>>>) -> Seq<u8>;

/// Relies on `csv::Reader` (with `has_headers(false)`, so every record is
/// handed through): splits CSV bytes into records of fields; fails exactly
/// on bytes the reader rejects (ragged records, a bad encoding), which is a
/// function of the bytes alone since the reader is built the same way every
/// time.
#[verifier::external_body]
fn csv_parse(bytes: &[u8]) -> (r: Result<Vec<Vec<String>>, CatalogError>)
    ensures
        r is Ok <==> csv_wellformed(bytes@),
        match r {
            Ok(rows) => rows.deep_view() == csv_rows(bytes@),
            Err(e) => e == CatalogError::Framing,
        },
{
    let mut rdr = csv::ReaderBuilder::new().has_headers(false).from_reader(bytes);
    let mut rows = Vec::new();
    for rec in rdr.records() {
        match rec {
            Ok(rec) => {
                let mut row = Vec::new();
                for f in rec.iter() {
                    row.push(f.to_string());
                }
                rows.push(row);
            },
            Err(_) => return Err(CatalogError::Framing),
        }
    }
    Ok(rows)
}

/// Relies on `csv::Writer`: frames records of fields as CSV bytes.  Its
/// only record error is a record whose width differs from the first one,
/// and flushing into a byte vector cannot fail, so records of one width
/// always frame.
#[verifier::external_body]
fn csv_write(rows: &Vec<Vec<String>>) -> (r: Result<Vec<u8>, CatalogError>)
    ensures
        (forall|i: int, j: int|
            0 <= i < rows.deep_view().len() && 0 <= j < rows.deep_view().len()
                ==> #[trigger] rows.deep_view()[i].len() == #[trigger] rows.deep_view()[j].len())
            ==> r is Ok,
        match r {
            Ok(bytes) => bytes@ == csv_encoding_of(rows.deep_view()),
            Err(e) => e == CatalogError::Framing,
        },
{
    let mut wtr = csv::Writer::from_writer(Vec::new());
    for row in rows {
        if wtr.write_record(row).is_err() {
            return Err(CatalogError::Framing);
        }
    }
    match wtr.into_inner() {
        Ok(v) => Ok(v),
        Err(_) => Err(CatalogError::Framing),
    }
}

/// Loads a catalog from the bytes of its file.  An empty file is an empty
/// catalog; a structurally invalid file fails the whole load.  Every
/// identifier is canonicalized on load and the catalog deduplicated, so
/// one entry per identifier holds from the start.  The load succeeds
/// exactly when the CSV layer accepts the bytes and the records are
/// structurally sound.
pub fn load_catalog(bytes: &[u8]) -> (r: Result<Vec<Property>, CatalogError>)
    ensures
        r is Ok <==> csv_wellformed(bytes@) && rows_wellformed(csv_rows(bytes@)),
        !csv_wellformed(bytes@) ==> r == Err::<Vec<Property>, _>(CatalogError::Framing),
        csv_wellformed(bytes@) && csv_rows(bytes@).len() > 0 && !header_ok(csv_rows(bytes@)[0])
            ==> r == Err::<Vec<Property>, _>(CatalogError::MissingColumn),
        csv_wellformed(bytes@) && csv_rows(bytes@).len() > 0 && header_ok(csv_rows(bytes@)[0])
            && !rows_wellformed(csv_rows(bytes@)) ==> r == Err::<Vec<Property>, _>(
            CatalogError::InvalidRecord,
        ),
        r is Ok ==> unique_urls(r.unwrap()@),
        r is Ok && csv_rows(bytes@).len() == 0 ==> r.unwrap()@ == Seq::<Property>::empty(),
        r is Ok && csv_rows(bytes@).len() > 0 ==> exists|raw: Seq<Property>|
            raw.len() == csv_rows(bytes@).len() - 1 && (forall|i: int|
                0 <= i < raw.len() ==> row_decodes_entry(
                    csv_rows(bytes@)[0],
                    csv_rows(bytes@)[i + 1],
                    #[trigger] raw[i],
                )) && r.unwrap()@ == spec_dedup(raw),
{
    let rows = match csv_parse(bytes) {
        Ok(rows) => rows,
        Err(e) => {
            return Err(e);
        },
    };
    catalog_from_rows(&rows)
}

/// Serializes a catalog as the bytes of its file.  This always succeeds:
/// every record the codec emits has the same width as the header.
pub fn save_catalog(catalog: &Vec<Property>) -> (r: Result<Vec<u8>, CatalogError>)
    ensures
        r is Ok,
        r.unwrap()@ == csv_encoding_of(spec_catalog_rows(catalog@)),
{
    let rows = catalog_to_rows(catalog);
    proof {
        let rv = rows.deep_view();
        assert forall|i: int, j: int|
            0 <= i < rv.len() && 0 <= j < rv.len() implies #[trigger] rv[i].len()
            == #[trigger] rv[j].len() by {
            assert(spec_header_row().len() == 13);
            if i > 0 {
                assert(rv[i] == spec_property_row(catalog@[i - 1]));
            }
            if j > 0 {
                assert(rv[j] == spec_property_row(catalog@[j - 1]));
            }
        }
    }
    csv_write(&rows)
}

} // verus!

verus! {

pub proof fn lemma_first_at_or_after_props(s: Seq<char>, c: char, i: int)
    requires
        0 <= i <= s.len(),
    ensures
        i <= first_at_or_after(s, c, i) <= s.len(),
        first_at_or_after(s, c, i) < s.len() ==> s[first_at_or_after(s, c, i)] == c,
        forall|j: int| i <= j < first_at_or_after(s, c, i) ==> s[j] != c,
    decreases s.len() - i,
{
    if i < s.len() && s[i] != c {
        lemma_first_at_or_after_props(s, c, i + 1);
    }
}

/// Any position from which `c` is absent up to an occurrence (or the end)
/// is where the scan for `c` stops.
proof fn lemma_first_at_or_after_characterize(s: Seq<char>, c: char, i: int, k: int)
    requires
        0 <= i <= k <= s.len(),
        forall|j: int| i <= j < k ==> s[j] != c,
        k == s.len() || s[k] == c,
    ensures
        first_at_or_after(s, c, i) == k,
    decreases k - i,
{
    if i < k {
        lemma_first_at_or_after_characterize(s, c, i + 1, k);
    }
}

/// A plain decimal number holds no comma.
proof fn lemma_decimal_has_no_comma(s: Seq<char>)
    requires
        spec_is_decimal(s),
    ensures
        forall|j: int| 0 <= j < s.len() ==> s[j] != ',',
{
    let start: int = if s.len() > 0 && s[0] == '-' {
        1
    } else {
        0
    };
    let k = first_at_or_after(s, '.', start);
    lemma_first_at_or_after_props(s, '.', start);
    assert forall|j: int| 0 <= j < s.len() implies s[j] != ',' by {
        if j < start {
            assert(s[j] == '-');
        } else if j < k {
            assert(spec_digit_val(s[j]) is Some);
        } else if j == k && k < s.len() {
            assert(s[j] == '.');
        } else if j > k {
            assert(spec_digit_val(s[j]) is Some);
        }
    }
}

/// The coordinates codec coheres: parsing the `"lat,lng"` rendering of any
/// pair of plain decimal components gives the pair back.
pub proof fn lemma_coords_round_trip(c: Coordinates)
    requires
        spec_is_decimal(c.lat@),
        spec_is_decimal(c.lng@),
    ensures
        spec_parse_coords(spec_coords_field(Some(c))) == Some((c.lat@, c.lng@)),
{
    let s = spec_coords_field(Some(c));
    let n = c.lat@.len() as int;
    lemma_decimal_has_no_comma(c.lat@);
    lemma_decimal_has_no_comma(c.lng@);
    assert forall|j: int| 0 <= j < n implies s[j] != ',' by {
        assert(s[j] == c.lat@[j]);
    }
    assert(s[n] == ',');
    lemma_first_at_or_after_characterize(s, ',', 0, n);
    assert forall|j: int| n + 1 <= j < s.len() implies s[j] != ',' by {
        assert(s[j] == c.lng@[j - n - 1]);
    }
    lemma_first_at_or_after_characterize(s, ',', n + 1, s.len() as int);
    assert(s.take(n) =~= c.lat@);
    assert(s.skip(n + 1) =~= c.lng@);
}

} // verus!

verus! {

/// Any position holding `name`, before which `name` does not occur, is
/// where the column lookup lands.
proof fn lemma_find_field_index_characterize(h: Seq<Seq<char>>, name: Seq<char>, k: int)
    requires
        0 <= k < h.len(),
        h[k] == name,
        forall|i: int| 0 <= i < k ==> h[i] != name,
    ensures
        find_field_index(h, name) == k,
    decreases h.len(),
{
    if h[0] == name {
        assert(k == 0);
    } else {
        assert(k >= 1);
        assert forall|i: int| 0 <= i < k - 1 implies h.skip(1)[i] != name by {
            assert(h.skip(1)[i] == h[i + 1]);
        }
        assert(h.skip(1)[k - 1] == h[k]);
        lemma_find_field_index_characterize(h.skip(1), name, k - 1);
    }
}

/// Where each required column stands in the header this library writes.
#[verifier::rlimit(100)]
pub proof fn lemma_header_columns()
    ensures
        header_ok(spec_header_row()),
        find_field_index(spec_header_row(), "url"@) == 0,
        find_field_index(spec_header_row(), "name"@) == 1,
        find_field_index(spec_header_row(), "price"@) == 2,
        find_field_index(spec_header_row(), "location"@) == 3,
        find_field_index(spec_header_row(), "property_type"@) == 4,
        find_field_index(spec_header_row(), "listing_type"@) == 5,
        find_field_index(spec_header_row(), "date"@) == 6,
        find_field_index(spec_header_row(), "coordinates"@) == 7,
        find_field_index(spec_header_row(), "address"@) == 8,
        find_field_index(spec_header_row(), "size_living"@) == 9,
        find_field_index(spec_header_row(), "size_ground"@) == 10,
        find_field_index(spec_header_row(), "first_seen"@) == 11,
        find_field_index(spec_header_row(), "last_seen"@) == 12,
{
    let h = spec_header_row();
    reveal_strlit("url");
    reveal_strlit("name");
    reveal_strlit("price");
    reveal_strlit("location");
    reveal_strlit("property_type");
    reveal_strlit("listing_type");
    reveal_strlit("date");
    reveal_strlit("coordinates");
    reveal_strlit("address");
    reveal_strlit("size_living");
    reveal_strlit("size_ground");
    reveal_strlit("first_seen");
    reveal_strlit("last_seen");
    assert("url"@.len() == 3);
    assert("name"@.len() == 4);
    assert("price"@.len() == 5);
    assert("location"@.len() == 8);
    assert("property_type"@.len() == 13);
    assert("listing_type"@.len() == 12);
    assert("date"@.len() == 4);
    assert("coordinates"@.len() == 11);
    assert("address"@.len() == 7);
    assert("size_living"@.len() == 11);
    assert("size_ground"@.len() == 11);
    assert("first_seen"@.len() == 10);
    assert("last_seen"@.len() == 9);
    // Same-length names differ in a character.
    assert("name"@[0] == 'n' && "date"@[0] == 'd');
    assert("coordinates"@[0] == 'c' && "size_living"@[0] == 's' && "size_ground"@[0] == 's');
    assert("size_living"@[5] == 'l' && "size_ground"@[5] == 'g');
    lemma_find_field_index_characterize(h, "url"@, 0);
    lemma_find_field_index_characterize(h, "name"@, 1);
    lemma_find_field_index_characterize(h, "price"@, 2);
    lemma_find_field_index_characterize(h, "location"@, 3);
    lemma_find_field_index_characterize(h, "property_type"@, 4);
    lemma_find_field_index_characterize(h, "listing_type"@, 5);
    lemma_find_field_index_characterize(h, "date"@, 6);
    lemma_find_field_index_characterize(h, "coordinates"@, 7);
    lemma_find_field_index_characterize(h, "address"@, 8);
    lemma_find_field_index_characterize(h, "size_living"@, 9);
    lemma_find_field_index_characterize(h, "size_ground"@, 10);
    lemma_find_field_index_characterize(h, "first_seen"@, 11);
    lemma_find_field_index_characterize(h, "last_seen"@, 12);
}

} // verus!

verus! {

/// An optional date column reproduces its value when the date is a real
/// calendar date.
proof fn lemma_opt_date_field_round_trip(d: Option<Date>)
    requires
        match d {
            Some(x) => x.valid(),
            None => true,
        },
    ensures
        spec_opt_date_ok(spec_opt_date_field(d)),
        spec_opt_date_value(spec_opt_date_field(d)) == d,
{
    match d {
        Some(x) => {
            lemma_date_iso_round_trip(x);
            assert(spec_date_iso(x).len() == 10);
        },
        None => {},
    }
}

/// An optional text column reproduces its value when the text is nonempty;
/// an empty field means absent.
proof fn lemma_opt_text_round_trip(o: Option<String>)
    requires
        match o {
            Some(s) => s@.len() > 0,
            None => true,
        },
    ensures
        spec_opt_text(spec_opt_string_field(o)) == opt_string_view(o),
{
}

/// The coordinates column reproduces its pair when both components are
/// plain decimals; an empty field means absent.
proof fn lemma_opt_coords_round_trip(c: Option<Coordinates>)
    requires
        match c {
            Some(c) => spec_is_decimal(c.lat@) && spec_is_decimal(c.lng@),
            None => true,
        },
    ensures
        spec_parse_coords(spec_coords_field(c)) == coords_views(c),
{
    match c {
        Some(c) => {
            lemma_coords_round_trip(c);
        },
        None => {},
    }
}

/// An entry the codec reproduces exactly: its identifier is already
/// canonical, its dates are real calendar dates, its coordinate components
/// are plain decimals, and its optional texts are nonempty, since an empty
/// field means absent.  Every entry this library itself writes has this
/// shape.
pub open spec fn entry_encodable(p: Property) -> bool {
    &&& p.url@ == spec_sanitize_url(p.url@)
    &&& match p.date {
        Some(d) => d.valid(),
        None => true,
    }
    &&& match p.first_seen {
        Some(d) => d.valid(),
        None => true,
    }
    &&& match p.last_seen {
        Some(d) => d.valid(),
        None => true,
    }
    &&& match p.coordinates {
        Some(c) => spec_is_decimal(c.lat@) && spec_is_decimal(c.lng@),
        None => true,
    }
    &&& match p.address {
        Some(s) => s@.len() > 0,
        None => true,
    }
    &&& match p.size_living {
        Some(s) => s@.len() > 0,
        None => true,
    }
    &&& match p.size_ground {
        Some(s) => s@.len() > 0,
        None => true,
    }
}

/// The row written for an encodable entry is structurally sound under the
/// written header and decodes back to exactly that entry.
pub proof fn lemma_row_round_trip(p: Property)
    requires
        entry_encodable(p),
    ensures
        row_ok(spec_header_row(), spec_property_row(p)),
        row_decodes_entry(spec_header_row(), spec_property_row(p), p),
{
    lemma_header_columns();
    lemma_listing_token_round_trip(p.listing_type);
    lemma_property_type_token_round_trip(p.property_type);
    lemma_opt_date_field_round_trip(p.date);
    lemma_opt_date_field_round_trip(p.first_seen);
    lemma_opt_date_field_round_trip(p.last_seen);
    lemma_opt_coords_round_trip(p.coordinates);
    lemma_opt_text_round_trip(p.address);
    lemma_opt_text_round_trip(p.size_living);
    lemma_opt_text_round_trip(p.size_ground);
}

/// The catalog codec coheres record by record: the rows written for a
/// catalog of encodable entries are structurally sound, and each one
/// decodes back to exactly the entry it was written from, in order.
pub proof fn lemma_catalog_rows_round_trip(c: Seq<Property>)
    requires
        forall|i: int| 0 <= i < c.len() ==> entry_encodable(#[trigger] c[i]),
    ensures
        rows_wellformed(spec_catalog_rows(c)),
        spec_catalog_rows(c).len() == c.len() + 1,
        spec_catalog_rows(c)[0] == spec_header_row(),
        forall|i: int|
            0 <= i < c.len() ==> row_decodes_entry(
                spec_catalog_rows(c)[0],
                #[trigger] spec_catalog_rows(c)[i + 1],
                c[i],
            ),
{
    lemma_header_columns();
    let rows = spec_catalog_rows(c);
    assert(rows[0] == spec_header_row());
    assert forall|i: int|
        0 <= i < c.len() implies row_decodes_entry(
        rows[0],
        #[trigger] rows[i + 1],
        c[i],
    ) && row_ok(rows[0], rows[i + 1]) by {
        assert(rows[i + 1] == spec_property_row(c[i]));
        lemma_row_round_trip(c[i]);
    }
    assert forall|j: int| 1 <= j < rows.len() implies row_ok(rows[0], #[trigger] rows[j]) by {
        assert(row_ok(rows[0], rows[(j - 1) + 1]));
    }
}

} // verus!
