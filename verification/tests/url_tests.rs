use laendlefinder::urls::{extract_property_id, sanitize_url};

#[test]
fn test_sanitize_url() {
    // Test URL with query parameters
    assert_eq!(
        sanitize_url("https://example.com/property/123?utm_source=google&ref=search"),
        "https://example.com/property/123"
    );

    // Test URL with fragment
    assert_eq!(
        sanitize_url("https://example.com/property/123#details"),
        "https://example.com/property/123"
    );

    // Test URL with both query parameters and fragment
    assert_eq!(
        sanitize_url("https://example.com/property/123?page=2&sort=price#gallery"),
        "https://example.com/property/123"
    );

    // Test URL without query parameters or fragments
    assert_eq!(
        sanitize_url("https://example.com/property/123"),
        "https://example.com/property/123"
    );

    // Test empty URL
    assert_eq!(sanitize_url(""), "");

    // Test laendleimmo URL example
    assert_eq!(
        sanitize_url("https://www.laendleimmo.at/immobilien/haus/villa/vorarlberg/bregenz/123456?source=feed&campaign=winter"),
        "https://www.laendleimmo.at/immobilien/haus/villa/vorarlberg/bregenz/123456"
    );
}

#[test]
fn test_extract_property_id() {
    // Test normal laendleimmo URL
    assert_eq!(
        extract_property_id(
            "https://www.laendleimmo.at/immobilien/haus/villa/vorarlberg/bregenz/123456"
        ),
        Some("123456".to_string())
    );

    // Test URL with query parameters
    assert_eq!(
        extract_property_id("https://www.laendleimmo.at/immobilien/grundstuck/baugrundstuck/vorarlberg/feldkirch/9ijlG7WYVxx?source=feed"),
        Some("9ijlG7WYVxx".to_string())
    );

    // Test different property types but same ID
    assert_eq!(
        extract_property_id(
            "https://www.laendleimmo.at/immobilien/haus/einfamilienhaus/vorarlberg/feldkirch/9ijlG7WYVxx"
        ),
        Some("9ijlG7WYVxx".to_string())
    );

    // Test non-laendleimmo URL
    assert_eq!(extract_property_id("https://www.vol.at/properties/123"), None);

    // Test empty URL
    assert_eq!(extract_property_id(""), None);

    // Test URL ending with slash
    assert_eq!(
        extract_property_id(
            "https://www.laendleimmo.at/immobilien/haus/villa/vorarlberg/bregenz/123456/"
        ),
        Some("123456".to_string())
    );
}

#[test]
fn test_sanitize_url_idempotent() {
    let inputs = [
        "https://x/y?a=1#b",
        "https://example.com/property/123?page=2#gallery",
        "",
        "plain",
        "#only-fragment",
        "?only-query",
    ];
    for url in inputs {
        let once = sanitize_url(url);
        let twice = sanitize_url(&once);
        assert_eq!(twice, once);
    }
    // The canonical example.
    assert_eq!(sanitize_url("https://x/y?a=1#b"), "https://x/y");
}
