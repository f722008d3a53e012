use laendlefinder::dates::Date;
use laendlefinder::models::{Coordinates, ListingType, Property, PropertyType};
use laendlefinder::reconcile::{
    deduplicate_properties_by_url, merge_properties, merge_properties_with_refresh,
};
use laendlefinder::models::ScrapingResult;
use laendlefinder::sequencer::apply_snapshot;

fn entry(url: &str) -> Property {
    Property {
        url: url.to_string(),
        name: "A house".to_string(),
        price: "300000".to_string(),
        location: "Bregenz".to_string(),
        property_type: PropertyType::House,
        listing_type: ListingType::Available,
        date: None,
        coordinates: None,
        address: None,
        size_living: None,
        size_ground: None,
        first_seen: None,
        last_seen: None,
    }
}

fn day(y: u32, m: u32, d: u32) -> Date {
    Date { year: y, month: m, day: d }
}

#[test]
fn merge_scenario_new_entry_stamps_both_dates() {
    // An empty catalog and one fetched snapshot: one new entry whose
    // first_seen and last_seen are both today.
    let mut catalog: Vec<Property> = Vec::new();
    let today = day(2024, 6, 1);
    apply_snapshot(&mut catalog, entry("u1"), today);
    assert_eq!(catalog.len(), 1);
    assert_eq!(catalog[0].url, "u1");
    assert_eq!(catalog[0].first_seen, Some(today));
    assert_eq!(catalog[0].last_seen, Some(today));
    assert_eq!(catalog[0].listing_type, ListingType::Available);
}

#[test]
fn merge_scenario_disappearance_keeps_price() {
    // An available entry with a real price; the fresh snapshot reports the
    // listing gone with a sentinel price.  The status flips, the price
    // stays.
    let existing = entry("u1");
    let mut fresh = entry("u1");
    fresh.listing_type = ListingType::Unavailable;
    fresh.price = "Unavailable".to_string();
    let merged = merge_properties(&existing, &fresh);
    assert_eq!(merged.listing_type, ListingType::Unavailable);
    assert_eq!(merged.price, "300000");
}

#[test]
fn merge_scenario_fresh_address_wins() {
    // The catalog entry has no address; the fresh snapshot has one.
    let existing = entry("u1");
    let mut fresh = entry("u1");
    fresh.address = Some("Main St 1".to_string());
    let merged = merge_properties(&existing, &fresh);
    assert_eq!(merged.address, Some("Main St 1".to_string()));
}

#[test]
fn merge_no_regression_on_sentinels() {
    // Real existing values survive fresh sentinels, field by field.
    let mut existing = entry("u1");
    existing.date = Some(day(2024, 1, 2));
    existing.coordinates = Some(Coordinates {
        lat: "47.5".to_string(),
        lng: "9.7".to_string(),
    });
    existing.size_living = Some("126".to_string());
    let mut fresh = entry("u1");
    fresh.name = "Unknown Property".to_string();
    fresh.price = "".to_string();
    fresh.location = "Unknown".to_string();
    fresh.property_type = PropertyType::Unknown;
    fresh.date = None;
    fresh.coordinates = None;
    fresh.size_living = None;
    let merged = merge_properties(&existing, &fresh);
    assert_eq!(merged.name, "A house");
    assert_eq!(merged.price, "300000");
    assert_eq!(merged.location, "Bregenz");
    assert_eq!(merged.property_type, PropertyType::House);
    assert_eq!(merged.date, Some(day(2024, 1, 2)));
    assert_eq!(merged.size_living, Some("126".to_string()));
    let c = merged.coordinates.expect("coordinates kept");
    assert_eq!(c.lat, "47.5");
    assert_eq!(c.lng, "9.7");
}

#[test]
fn merge_status_always_reflects_fresh() {
    // Two snapshots carrying the same status fact give the same final
    // status in either merge order.
    let e = entry("u1");
    let mut f = entry("u1");
    f.listing_type = ListingType::Sold;
    let mut g = entry("u1");
    g.listing_type = ListingType::Sold;
    let fg = merge_properties(&merge_properties(&e, &f), &g);
    let gf = merge_properties(&merge_properties(&e, &g), &f);
    assert_eq!(fg.listing_type, gf.listing_type);
    assert_eq!(fg.listing_type, ListingType::Sold);
}

#[test]
fn merge_first_seen_never_moves_later() {
    // Across a sequence of merges the first_seen date never advances.
    let mut e = entry("u1");
    e.first_seen = Some(day(2024, 3, 10));
    let mut f1 = entry("u1");
    f1.first_seen = Some(day(2024, 5, 1));
    let mut f2 = entry("u1");
    f2.first_seen = Some(day(2024, 2, 20));
    let after1 = merge_properties(&e, &f1);
    assert_eq!(after1.first_seen, Some(day(2024, 3, 10)));
    let after2 = merge_properties(&after1, &f2);
    assert_eq!(after2.first_seen, Some(day(2024, 2, 20)));
    let mut f3 = entry("u1");
    f3.first_seen = None;
    let after3 = merge_properties(&after2, &f3);
    assert_eq!(after3.first_seen, Some(day(2024, 2, 20)));
}

#[test]
fn dedup_idempotent_and_order_preserving() {
    // Three entries, one repeated: the repeat merges into the position of
    // its first occurrence, and deduplicating again changes nothing.
    let mut a = entry("u1");
    a.first_seen = Some(day(2024, 1, 1));
    let b = entry("u2");
    let mut a2 = entry("u1");
    a2.price = "350000".to_string();
    a2.first_seen = Some(day(2024, 4, 4));
    let once = deduplicate_properties_by_url(vec![a, b, a2]);
    assert_eq!(once.len(), 2);
    assert_eq!(once[0].url, "u1");
    assert_eq!(once[1].url, "u2");
    assert_eq!(once[0].price, "350000");
    assert_eq!(once[0].first_seen, Some(day(2024, 1, 1)));
    let again: Vec<Property> = once.iter().map(clone_entry).collect();
    let twice = deduplicate_properties_by_url(again);
    assert_eq!(twice.len(), once.len());
    for (x, y) in twice.iter().zip(once.iter()) {
        assert_eq!(x.url, y.url);
        assert_eq!(x.price, y.price);
        assert_eq!(x.first_seen, y.first_seen);
        assert_eq!(x.last_seen, y.last_seen);
    }
}

fn clone_entry(p: &Property) -> Property {
    p.duplicate()
}

#[test]
fn dedup_disappearance_in_batch() {
    // A batch holding an available entry and a later unavailable snapshot
    // of the same listing folds into one unavailable entry with its data.
    let a = entry("u1");
    let mut gone = entry("u1");
    gone.listing_type = ListingType::Unavailable;
    gone.price = "Unavailable".to_string();
    let folded = deduplicate_properties_by_url(vec![a, gone]);
    assert_eq!(folded.len(), 1);
    assert_eq!(folded[0].listing_type, ListingType::Unavailable);
    assert_eq!(folded[0].price, "300000");
}

#[test]
fn refresh_merge_drops_only_rescraped() {
    // A refresh run replaces exactly the entries it re-scraped and keeps
    // everything else, other origins included.
    let a = entry("https://www.vol.at/a");
    let b = entry("https://www.laendleimmo.at/b");
    let mut a_new = entry("https://www.vol.at/a");
    a_new.price = "999".to_string();
    let result = ScrapingResult {
        scraped_properties: vec![a_new],
        scraped_urls: vec!["https://www.vol.at/a".to_string()],
        is_refresh: true,
    };
    let merged = merge_properties_with_refresh(vec![a, b], result, "vol.at");
    assert_eq!(merged.len(), 2);
    let vol = merged
        .iter()
        .find(|p| p.url == "https://www.vol.at/a")
        .expect("entry kept");
    assert_eq!(vol.price, "999");
    assert!(merged.iter().any(|p| p.url == "https://www.laendleimmo.at/b"));
}

#[test]
fn merge_fresh_wins_when_both_sentinel() {
    // A fresh sentinel only loses to a real existing value; when both
    // sides are sentinels the fresh value is preferred.
    let mut existing = entry("u1");
    existing.price = "Unknown".to_string();
    let mut fresh = entry("u1");
    fresh.price = "Unavailable".to_string();
    let merged = merge_properties(&existing, &fresh);
    assert_eq!(merged.price, "Unavailable");
}

#[test]
fn merge_reflects_available_to_sold() {
    // A status change is always reflected, price data carried forward
    // where the fresh fetch lost it.
    let existing = entry("u1");
    let mut fresh = entry("u1");
    fresh.listing_type = ListingType::Sold;
    fresh.price = "Unknown".to_string();
    let merged = merge_properties(&existing, &fresh);
    assert_eq!(merged.listing_type, ListingType::Sold);
    assert_eq!(merged.price, "300000");
}
