use laendlefinder::catalog::{load_catalog, save_catalog, CatalogError};
use laendlefinder::dates::Date;
use laendlefinder::models::{Coordinates, ListingType, Property, PropertyType};

const HEADER: &str =
    "url,name,price,location,property_type,listing_type,date,coordinates,address,size_living,size_ground,first_seen,last_seen";

fn record(url: &str) -> Property {
    Property {
        url: url.to_string(),
        name: "Villa".to_string(),
        price: "500000".to_string(),
        location: "Feldkirch".to_string(),
        property_type: PropertyType::House,
        listing_type: ListingType::Available,
        date: Some(Date { year: 2024, month: 7, day: 25 }),
        coordinates: Some(Coordinates {
            lat: "47.23".to_string(),
            lng: "9.6".to_string(),
        }),
        address: Some("Main St 1, Feldkirch".to_string()),
        size_living: Some("126.5".to_string()),
        size_ground: Some("700".to_string()),
        first_seen: Some(Date { year: 2024, month: 7, day: 25 }),
        last_seen: None,
    }
}

#[test]
fn catalog_round_trip() {
    // Save then load: the same entries come back, the address field's
    // comma surviving the framing.
    let catalog = vec![record("https://www.laendleimmo.at/immobilien/x/1")];
    let bytes = save_catalog(&catalog).expect("encoding succeeds");
    let text = String::from_utf8(bytes.clone()).expect("utf-8");
    assert!(text.starts_with(HEADER));
    assert!(text.contains("\"Main St 1, Feldkirch\""));
    assert!(text.contains("47.23,9.6"));
    assert!(text.contains("2024-07-25"));
    let loaded = load_catalog(&bytes).expect("load succeeds");
    assert_eq!(loaded.len(), 1);
    let p = &loaded[0];
    assert_eq!(p.url, "https://www.laendleimmo.at/immobilien/x/1");
    assert_eq!(p.name, "Villa");
    assert_eq!(p.price, "500000");
    assert_eq!(p.property_type, PropertyType::House);
    assert_eq!(p.listing_type, ListingType::Available);
    assert_eq!(p.date, Some(Date { year: 2024, month: 7, day: 25 }));
    let c = p.coordinates.as_ref().expect("coordinates");
    assert_eq!(c.lat, "47.23");
    assert_eq!(c.lng, "9.6");
    assert_eq!(p.address.as_deref(), Some("Main St 1, Feldkirch"));
    assert_eq!(p.size_living.as_deref(), Some("126.5"));
    assert_eq!(p.size_ground.as_deref(), Some("700"));
    assert_eq!(p.first_seen, Some(Date { year: 2024, month: 7, day: 25 }));
    assert_eq!(p.last_seen, None);
}

#[test]
fn load_canonicalizes_and_deduplicates() {
    // Two rows whose URLs differ only by a tracking parameter: after the
    // load exactly one entry exists for both.
    let data = format!(
        "{}\nhttps://x/y?utm=1,A,1,L,house,available,,,,,,,\nhttps://x/y,B,2,L,house,available,,,,,,,\n",
        HEADER
    );
    let loaded = load_catalog(data.as_bytes()).expect("load succeeds");
    assert_eq!(loaded.len(), 1);
    assert_eq!(loaded[0].url, "https://x/y");
    // The later row merged into the first occurrence.
    assert_eq!(loaded[0].price, "2");
}

#[test]
fn load_empty_file_is_empty_catalog() {
    let loaded = load_catalog(b"").expect("empty load succeeds");
    assert!(loaded.is_empty());
}

#[test]
fn load_rejects_unknown_status_token() {
    let data = format!("{}\nhttps://x/y,A,1,L,house,gone,,,,,,,\n", HEADER);
    assert_eq!(load_catalog(data.as_bytes()).unwrap_err(), CatalogError::InvalidRecord);
}

#[test]
fn load_rejects_malformed_date() {
    let data = format!("{}\nhttps://x/y,A,1,L,house,available,2024-13-01,,,,,,\n", HEADER);
    assert_eq!(load_catalog(data.as_bytes()).unwrap_err(), CatalogError::InvalidRecord);
}

#[test]
fn load_rejects_missing_column() {
    let data = "url,name,price\nhttps://x/y,A,1\n";
    assert_eq!(load_catalog(data.as_bytes()).unwrap_err(), CatalogError::MissingColumn);
}

#[test]
fn load_rejects_ragged_rows() {
    // A record with fewer fields than the header fails in the framing.
    let data = format!("{}\nhttps://x/y,A\n", HEADER);
    assert_eq!(load_catalog(data.as_bytes()).unwrap_err(), CatalogError::Framing);
}

#[test]
fn unknown_property_type_token_decodes_to_unknown() {
    let data = format!("{}\nhttps://x/y,A,1,L,castle,available,,,,,,,\n", HEADER);
    let loaded = load_catalog(data.as_bytes()).expect("load succeeds");
    assert_eq!(loaded[0].property_type, PropertyType::Unknown);
}

#[test]
fn malformed_coordinates_decode_to_absent() {
    // Not two numeric parts: the column decodes to no coordinates rather
    // than an error.
    let data = format!(
        "{}\nhttps://x/y,A,1,L,house,available,,\"47.2,a\",,,,,\nhttps://x/z,A,1,L,house,available,,\"47.2\",,,,,\n",
        HEADER
    );
    let loaded = load_catalog(data.as_bytes()).expect("load succeeds");
    assert!(loaded[0].coordinates.is_none());
    assert!(loaded[1].coordinates.is_none());
}

#[test]
fn save_writes_empty_fields_for_absent_values() {
    let mut p = record("https://x/y");
    p.date = None;
    p.coordinates = None;
    p.address = None;
    p.size_living = None;
    p.size_ground = None;
    p.first_seen = None;
    p.last_seen = None;
    let bytes = save_catalog(&vec![p]).expect("encoding succeeds");
    let text = String::from_utf8(bytes).expect("utf-8");
    let mut lines = text.lines();
    assert_eq!(lines.next(), Some(HEADER));
    assert_eq!(lines.next(), Some("https://x/y,Villa,500000,Feldkirch,house,available,,,,,,,"));
}
