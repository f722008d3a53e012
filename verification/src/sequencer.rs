//! The run sequencer's decisions: which mode a run uses, how a fetched
//! snapshot is reconciled into the in-memory catalog before each
//! checkpoint, and the per-origin types.  The fetching itself, the
//! politeness delay and the file writes stay outside the library; they hand
//! snapshots in and take catalogs out.

use vstd::prelude::*;

use crate::dates::Date;
use crate::models::{Property, ScrapingOptions};
use crate::reconcile::{dedup_step, find_by_url, lemma_dedup_step_unique, merge_properties,
    unique_urls};
use crate::text::{contains_seq, spec_digits, str_contains, usize_to_string};

verus! {

/// A snapshot stamped with its observation date: fetched and confirmed
/// present today.
pub open spec fn spec_stamp(f: Property, today: Date) -> Property {
    Property { first_seen: Some(today), last_seen: Some(today), ..f }
}

/// Stamps a fresh snapshot with its observation date, so that a first
/// insert records `first_seen == last_seen == today` and a merge can
/// advance `last_seen` to today.
pub fn stamp_snapshot(f: Property, today: Date) -> (r: Property)
    ensures
        r == spec_stamp(f, today),
{
    let mut r = f;
    r.first_seen = Some(today);
    r.last_seen = Some(today);
    r
}

/// Reconciles one fetched snapshot into the catalog: merged in place into
/// the entry that already carries its identifier, or appended at the end
/// when the identifier is new.  This runs after every successful fetch,
/// before the catalog is persisted, so each item is durable before the next
/// is attempted.
pub fn apply_snapshot(catalog: &mut Vec<Property>, snapshot: Property, today: Date)
    ensures
        final(catalog)@ == dedup_step(old(catalog)@, spec_stamp(snapshot, today)),
        unique_urls(old(catalog)@) ==> unique_urls(final(catalog)@),
{
    let ghost orig = catalog@;
    let stamped = stamp_snapshot(snapshot, today);
    proof {
        if unique_urls(orig) {
            lemma_dedup_step_unique(orig, stamped);
        }
    }
    proof {
        crate::reconcile::lemma_find_url_index_props(orig, stamped.url@);
    }
    match find_by_url(catalog, stamped.url.as_str()) {
        Some(j) => {
            let merged = merge_properties(&catalog[j], &stamped);
            catalog.set(j, merged);
        },
        None => {
            catalog.push(stamped);
        },
    }
}

/// The crawl mode of one run.
#[derive(Clone, Copy, PartialEq, Eq, Structural, Debug)]
pub enum CrawlMode {
    /// Re-fetch available entries not confirmed within this many days
    /// (at least one).
    RefreshByAge(u32),
    /// Discover new listings until the source's stability condition is met.
    Discover,
    /// Discover new listings over a bounded number of pages.
    Paged,
}

/// Which mode a run's options select: an age threshold wins, then the
/// default discovery mode, else the legacy paged mode.  The age threshold
/// is never below one day.
pub fn select_mode(options: &ScrapingOptions) -> (r: CrawlMode)
    ensures
        match options.refresh_days {
            Some(d) => r == CrawlMode::RefreshByAge(if d < 1 {
                1u32
            } else {
                d
            }),
            None => r == (if options.new {
                CrawlMode::Discover
            } else {
                CrawlMode::Paged
            }),
        },
{
    match options.refresh_days {
        Some(d) => CrawlMode::RefreshByAge(if d < 1 {
            1
        } else {
            d
        }),
        None => if options.new {
            CrawlMode::Discover
        } else {
            CrawlMode::Paged
        },
    }
}

/// The URL of the `page`-th listing page: the base URL itself for the
/// first page, with a `?page=` parameter after that.
pub fn listing_page_url(base: &str, page: usize) -> (r: String)
    ensures
        page <= 1 ==> r@ == base@,
        page > 1 ==> r@ == base@ + "?page="@ + spec_digits(page as nat),
{
    if page <= 1 {
        base.to_owned()
    } else {
        let mut s = base.to_owned();
        s.append("?page=");
        let digits = usize_to_string(page);
        s.append(digits.as_str());
        s
    }
}

/// One origin of listings, named by the marker that identifies its URLs in
/// a mixed multi-origin catalog.
pub trait PlatformScraper {
    /// The base URL marker of this origin.
    spec fn spec_base_url(&self) -> Seq<char>;

    /// The base URL marker of this origin.
    fn base_url(&self) -> (r: &'static str)
        ensures
            r@ == self.spec_base_url(),
    ;
}

/// The origin that publishes land transactions; its listings enter the
/// catalog as sold.
pub struct VolScraper;

/// The origin that publishes open listings; its listings enter the catalog
/// as available.
pub struct LaendleimmoScraper;

impl PlatformScraper for VolScraper {
    open spec fn spec_base_url(&self) -> Seq<char> {
        "vol.at"@
    }

    fn base_url(&self) -> (r: &'static str) {
        "vol.at"
    }
}

impl PlatformScraper for LaendleimmoScraper {
    open spec fn spec_base_url(&self) -> Seq<char> {
        "laendleimmo.at"@
    }

    fn base_url(&self) -> (r: &'static str) {
        "laendleimmo.at"
    }
}

/// Whether a target URL belongs to this origin; a run refuses to fetch a
/// URL through the wrong origin.
pub fn check_url<S: PlatformScraper>(scraper: &S, url: &str) -> (r: bool)
    ensures
        r == contains_seq(url@, scraper.spec_base_url()),
{
    str_contains(url, scraper.base_url())
}

} // verus!
