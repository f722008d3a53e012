use laendlefinder::dates::Date;
use laendlefinder::frontier::{
    apply_item_cap, partition_new_known, refresh_last_seen, relevant_urls,
    select_refresh_candidates,
};
use laendlefinder::models::{ListingType, Property, PropertyType};

fn listing(url: &str, status: ListingType) -> Property {
    Property {
        url: url.to_string(),
        name: "N".to_string(),
        price: "1".to_string(),
        location: "L".to_string(),
        property_type: PropertyType::Apartment,
        listing_type: status,
        date: None,
        coordinates: None,
        address: None,
        size_living: None,
        size_ground: None,
        first_seen: None,
        last_seen: None,
    }
}

fn on(y: u32, m: u32, d: u32) -> Date {
    Date { year: y, month: m, day: d }
}

#[test]
fn refresh_by_age_selects_only_stale_available() {
    // Threshold seven days, today 2024-06-20, so the cutoff is 2024-06-13:
    // the entry last seen ten days ago is selected, the one seen two days
    // ago is not, and sold or unavailable entries never are.
    let mut stale = listing("https://www.laendleimmo.at/a", ListingType::Available);
    stale.last_seen = Some(on(2024, 6, 10));
    let mut fresh = listing("https://www.laendleimmo.at/b", ListingType::Available);
    fresh.last_seen = Some(on(2024, 6, 18));
    let mut sold = listing("https://www.laendleimmo.at/c", ListingType::Sold);
    sold.last_seen = Some(on(2024, 6, 1));
    let catalog = vec![stale, fresh, sold];
    let cutoff = on(2024, 6, 13);
    let urls = select_refresh_candidates(&catalog, "laendleimmo.at", cutoff);
    assert_eq!(urls, vec!["https://www.laendleimmo.at/a".to_string()]);
}

#[test]
fn refresh_by_age_orders_oldest_first_undated_ahead() {
    let mut never = listing("https://o/never", ListingType::Available);
    never.last_seen = None;
    never.date = None;
    let mut old = listing("https://o/old", ListingType::Available);
    old.last_seen = Some(on(2024, 1, 1));
    old.date = Some(on(2023, 5, 1));
    let mut older = listing("https://o/older", ListingType::Available);
    older.last_seen = Some(on(2024, 1, 1));
    older.date = Some(on(2022, 5, 1));
    let catalog = vec![old, never, older];
    let urls = select_refresh_candidates(&catalog, "o/", on(2024, 6, 1));
    assert_eq!(
        urls,
        vec![
            "https://o/never".to_string(),
            "https://o/older".to_string(),
            "https://o/old".to_string(),
        ]
    );
}

#[test]
fn partition_splits_new_from_known() {
    let found = vec![
        "https://o/1".to_string(),
        "https://o/2".to_string(),
        "https://o/3".to_string(),
    ];
    let existing = vec!["https://o/2".to_string()];
    let (new_urls, known) = partition_new_known(&found, &existing);
    assert_eq!(new_urls, vec!["https://o/1".to_string(), "https://o/3".to_string()]);
    assert_eq!(known, 1);
}

#[test]
fn reobserved_entries_get_fresh_last_seen() {
    // Presence in a listing page refreshes last_seen without a fetch; an
    // entry not re-observed keeps its old date.
    let mut seen = listing("https://o/1", ListingType::Available);
    seen.last_seen = Some(on(2024, 1, 1));
    let mut missed = listing("https://o/2", ListingType::Available);
    missed.last_seen = Some(on(2024, 1, 1));
    let mut catalog = vec![seen, missed];
    let found = vec!["https://o/1".to_string()];
    let existing = vec!["https://o/1".to_string(), "https://o/2".to_string()];
    let today = on(2024, 6, 20);
    let updated = refresh_last_seen(&mut catalog, &found, &existing, today);
    assert_eq!(updated, 1);
    assert_eq!(catalog[0].last_seen, Some(today));
    assert_eq!(catalog[1].last_seen, Some(on(2024, 1, 1)));
}

#[test]
fn relevant_urls_filters_by_origin() {
    let catalog = vec![
        listing("https://www.vol.at/a", ListingType::Sold),
        listing("https://www.laendleimmo.at/b", ListingType::Available),
        listing("https://www.vol.at/c", ListingType::Available),
    ];
    let urls = relevant_urls(&catalog, "vol.at");
    assert_eq!(
        urls,
        vec!["https://www.vol.at/a".to_string(), "https://www.vol.at/c".to_string()]
    );
}

#[test]
fn item_cap_truncates_preserving_order() {
    let urls = vec!["a".to_string(), "b".to_string(), "c".to_string()];
    let capped = apply_item_cap(urls, Some(2));
    assert_eq!(capped, vec!["a".to_string(), "b".to_string()]);
    let uncapped = apply_item_cap(vec!["a".to_string()], None);
    assert_eq!(uncapped, vec!["a".to_string()]);
    let big_cap = apply_item_cap(vec!["a".to_string()], Some(10));
    assert_eq!(big_cap, vec!["a".to_string()]);
}
