use laendlefinder::dates::{date_to_iso, parse_iso_date, Date};
use laendlefinder::debug::{is_debug_enabled, set_debug, DebugFlag};
use laendlefinder::geocode::{enhance_address, geocode_target, needs_geocoding};
use laendlefinder::models::{
    Coordinates, ListingType, Property, PropertyType, ScrapingOptions,
};
use laendlefinder::sequencer::{
    check_url, listing_page_url, select_mode, CrawlMode, LaendleimmoScraper, PlatformScraper,
    VolScraper,
};
use laendlefinder::tui::{truncate_url, GeocodingTUI, PropertyStatus, ScraperTUI};
use laendlefinder::useragent::get_random_user_agent;

#[test]
fn test_get_random_user_agent() {
    // Test that the function returns a valid user agent
    let user_agent = get_random_user_agent();
    assert!(!user_agent.is_empty());
    assert!(user_agent.starts_with("Mozilla/"));

    // Test that different calls may return different user agents (not guaranteed but likely)
    let user_agents: std::collections::HashSet<&str> =
        (0..10).map(|_| get_random_user_agent()).collect();

    // With 20 different user agents, getting at least 2 different ones in 10 calls is very likely
    // This is probabilistic but should work in practice
    assert!(user_agents.len() >= 1); // At minimum we get one valid user agent

    // Verify some common browser identifiers appear in our pool
    let all_agents = [
        get_random_user_agent(),
        get_random_user_agent(),
        get_random_user_agent(),
        get_random_user_agent(),
        get_random_user_agent(),
    ];

    let has_chrome = all_agents.iter().any(|ua| ua.contains("Chrome"));
    let has_firefox = all_agents.iter().any(|ua| ua.contains("Firefox"));

    // Due to randomness, we can't guarantee both will appear, but at least one should
    assert!(has_chrome || has_firefox, "Should contain Chrome or Firefox user agents");
}

#[test]
fn classify_is_case_insensitive() {
    // Goes through the real case folding: if the text were not lowered,
    // these uppercase inputs would classify as unknown.
    assert_eq!(PropertyType::from_string("WOHNUNG in Dornbirn"), PropertyType::Apartment);
    assert_eq!(PropertyType::from_string("Einfamilienhaus"), PropertyType::House);
    assert_eq!(PropertyType::from_string("BAUGRUNDST\u{dc}CK"), PropertyType::Land);
    assert_eq!(PropertyType::from_string("Villa am See"), PropertyType::House);
    assert_eq!(PropertyType::from_string("Gewerbeobjekt"), PropertyType::Unknown);
}

#[test]
fn date_codec_round_trips() {
    let d = Date { year: 2025, month: 7, day: 5 };
    let text = date_to_iso(&d);
    assert_eq!(text, "2025-07-05");
    assert_eq!(parse_iso_date(&text), Some(d));
    assert_eq!(parse_iso_date("0001-01-01"), Some(Date { year: 1, month: 1, day: 1 }));
    assert_eq!(parse_iso_date("2024-02-29"), Some(Date { year: 2024, month: 2, day: 29 }));
    assert_eq!(parse_iso_date("2023-02-29"), None);
    assert_eq!(parse_iso_date("2023-00-10"), None);
    assert_eq!(parse_iso_date("25.07.2025"), None);
    assert_eq!(parse_iso_date(""), None);
}

#[test]
fn mode_selection_follows_options() {
    let mut options = ScrapingOptions::default();
    assert_eq!(select_mode(&options), CrawlMode::Discover);
    options.new = false;
    assert_eq!(select_mode(&options), CrawlMode::Paged);
    options.refresh_days = Some(7);
    assert_eq!(select_mode(&options), CrawlMode::RefreshByAge(7));
    // The age threshold never drops below one day.
    options.refresh_days = Some(0);
    assert_eq!(select_mode(&options), CrawlMode::RefreshByAge(1));
}

#[test]
fn default_options_name_the_catalog_file() {
    let options = ScrapingOptions::default();
    assert_eq!(options.output_file, "properties.csv");
    assert!(options.new);
    assert!(options.max_pages.is_none());
    assert!(options.max_items.is_none());
    assert!(options.refresh_days.is_none());
    assert!(options.cookies.is_none());
    assert!(!options.debug);
}

#[test]
fn page_urls_follow_the_scheme() {
    assert_eq!(listing_page_url("https://o/kauf", 1), "https://o/kauf");
    assert_eq!(listing_page_url("https://o/kauf", 2), "https://o/kauf?page=2");
    assert_eq!(listing_page_url("https://o/kauf", 12), "https://o/kauf?page=12");
}

#[test]
fn check_url_matches_origin() {
    assert!(check_url(&VolScraper, "https://www.vol.at/x"));
    assert!(!check_url(&VolScraper, "https://www.laendleimmo.at/x"));
    assert!(check_url(&LaendleimmoScraper, "https://www.laendleimmo.at/x"));
    assert_eq!(VolScraper.base_url(), "vol.at");
    assert_eq!(LaendleimmoScraper.base_url(), "laendleimmo.at");
}

#[test]
fn debug_flag_is_explicit_state() {
    let mut flag = DebugFlag::default();
    assert!(!is_debug_enabled(&flag));
    set_debug(&mut flag, true);
    assert!(is_debug_enabled(&flag));
    set_debug(&mut flag, false);
    assert!(!is_debug_enabled(&flag));
}

#[test]
fn truncate_url_keeps_short_and_shortens_long() {
    assert_eq!(truncate_url("https://short"), "https://short");
    let long: String = format!("https://example.com/{}", "a".repeat(100));
    let shown = truncate_url(&long);
    assert_eq!(shown.chars().count(), 80);
    assert!(shown.ends_with("..."));
    assert_eq!(&shown[..77], &long[..77]);
}

#[test]
fn scraper_tui_tracks_statuses_and_progress() {
    let mut tui = ScraperTUI::new();
    tui.show_summary(5);
    tui.update_listing_status(2, 3);
    assert_eq!(tui.new_count, 2);
    assert_eq!(tui.known_count, 3);
    assert!(tui.add_property("https://o/1".to_string()));
    assert!(tui.add_property("https://o/2".to_string()));
    assert!(tui.show_initial_progress_bar());
    assert!(tui.start_scraping_property("https://o/1"));
    assert!(tui.complete_property("https://o/1"));
    assert!(tui.start_scraping_property("https://o/2"));
    assert!(tui.fail_property("https://o/2"));
    assert_eq!(tui.property_lines[0].status, PropertyStatus::Completed);
    assert_eq!(tui.property_lines[1].status, PropertyStatus::Failed);
    let (completed, failed) = tui.show_final_summary(7);
    assert_eq!(completed, 1);
    assert_eq!(failed, 1);
    assert_eq!(tui.total_properties_in_db, 7);
    let text = tui.create_progress_bar_text();
    assert_eq!(
        text,
        format!(
            "Progress: [{}{}] 1/2 (50%) | 1 failed | DB: 7 total",
            "\u{2588}".repeat(15),
            "\u{2591}".repeat(15)
        )
    );
}

#[test]
fn geocoding_tui_counts_outcomes() {
    let mut tui = GeocodingTUI::new(3);
    tui.update_progress(true);
    tui.update_progress(false);
    assert_eq!(tui.geocoded_count, 1);
    assert_eq!(tui.failed_count, 1);
    assert_eq!(tui.current_index, 2);
    assert_eq!(tui.remaining(), 1);
}

#[test]
fn geocoding_decisions_follow_the_entry() {
    let mut p = Property {
        url: "u".to_string(),
        name: "N".to_string(),
        price: "1".to_string(),
        location: "Bregenz".to_string(),
        property_type: PropertyType::House,
        listing_type: ListingType::Available,
        date: None,
        coordinates: None,
        address: None,
        size_living: None,
        size_ground: None,
        first_seen: None,
        last_seen: None,
    };
    assert!(needs_geocoding(&p));
    assert_eq!(geocode_target(&p).as_deref(), Some("Bregenz"));
    p.address = Some("  ".to_string());
    assert_eq!(geocode_target(&p).as_deref(), Some("Bregenz"));
    p.address = Some("Main St 1".to_string());
    assert_eq!(geocode_target(&p).as_deref(), Some("Main St 1"));
    p.coordinates = Some(Coordinates { lat: "1".to_string(), lng: "2".to_string() });
    assert!(!needs_geocoding(&p));
    assert_eq!(geocode_target(&p), None);
    assert_eq!(enhance_address("Main St 1, Bregenz"), "Main St 1, Bregenz, Austria");
    assert_eq!(enhance_address("Wien, \u{d6}sterreich"), "Wien, \u{d6}sterreich");
    assert_eq!(enhance_address("Vienna, Austria"), "Vienna, Austria");
}
