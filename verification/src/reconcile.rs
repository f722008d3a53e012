//! The reconciler: merges a fresh snapshot of a listing into its existing
//! catalog entry, and folds a catalog with repeated identifiers into one
//! entry per identifier.
//!
//! The merge is field-level: a fresh value wins unless it is a sentinel
//! while the existing value is real, so a lossy extraction can never erase
//! previously observed data.  A listing reported as no longer available
//! keeps its descriptive fields and only flips its status.

use vstd::prelude::*;

use crate::dates::{earlier_date, spec_earlier, Date};
use crate::text::{spec_contains_string, str_eq, vec_contains_string};
use crate::models::{
    duplicate_opt_coordinates, duplicate_opt_string, is_sentinel_location, is_sentinel_name,
    is_sentinel_price, spec_sentinel_location, spec_sentinel_name, spec_sentinel_price,
    Coordinates, ListingType, Property, PropertyType, ScrapingResult,
};

verus! {

/// `a` when set, else `b`.
pub open spec fn or_opt<A>(a: Option<A>, b: Option<A>) -> Option<A> {
    match a {
        Some(_) => a,
        None => b,
    }
}

/// A fresh snapshot reports the listing gone while the catalog still has it
/// on the market: the merge must then preserve, not overwrite.
pub open spec fn spec_disappearance(existing: Property, fresh: Property) -> bool {
    fresh.listing_type == ListingType::Unavailable && existing.listing_type
        != ListingType::Unavailable
}

/// The reconciled record for one identifier, given the existing entry and a
/// fresh snapshot.
///
/// On a disappearance transition every real descriptive field of the
/// existing entry is kept (its sentinels are backfilled from the snapshot),
/// only the status flips, and `last_seen` keeps its old value: the listing
/// can no longer be confirmed present, so its last confirmed-present date
/// must not advance.  Otherwise fresh values win except where a fresh
/// sentinel would overwrite a real existing value, the status always takes
/// the fresh value, and `last_seen` advances to the fresh observation when
/// it has one.  `first_seen` is in both cases the earlier of the two, never
/// regressing once set.
pub open spec fn spec_merge(existing: Property, fresh: Property) -> Property {
    if spec_disappearance(existing, fresh) {
        Property {
            url: fresh.url,
            name: if !spec_sentinel_name(existing.name@) {
                existing.name
            } else {
                fresh.name
            },
            price: existing.price,
            location: if !spec_sentinel_location(existing.location@) {
                existing.location
            } else {
                fresh.location
            },
            property_type: if existing.property_type != PropertyType::Unknown {
                existing.property_type
            } else {
                fresh.property_type
            },
            listing_type: fresh.listing_type,
            date: or_opt(existing.date, fresh.date),
            coordinates: or_opt(existing.coordinates, fresh.coordinates),
            address: or_opt(existing.address, fresh.address),
            size_living: or_opt(existing.size_living, fresh.size_living),
            size_ground: or_opt(existing.size_ground, fresh.size_ground),
            first_seen: spec_earlier(existing.first_seen, fresh.first_seen),
            last_seen: or_opt(existing.last_seen, fresh.last_seen),
        }
    } else {
        Property {
            url: fresh.url,
            name: if spec_sentinel_name(fresh.name@) && !spec_sentinel_name(existing.name@) {
                existing.name
            } else {
                fresh.name
            },
            price: if spec_sentinel_price(fresh.price@) && !spec_sentinel_price(existing.price@) {
                existing.price
            } else {
                fresh.price
            },
            location: if spec_sentinel_location(fresh.location@) && !spec_sentinel_location(
                existing.location@,
            ) {
                existing.location
            } else {
                fresh.location
            },
            property_type: if fresh.property_type == PropertyType::Unknown
                && existing.property_type != PropertyType::Unknown {
                existing.property_type
            } else {
                fresh.property_type
            },
            listing_type: fresh.listing_type,
            date: or_opt(fresh.date, existing.date),
            coordinates: or_opt(fresh.coordinates, existing.coordinates),
            address: or_opt(fresh.address, existing.address),
            size_living: or_opt(fresh.size_living, existing.size_living),
            size_ground: or_opt(fresh.size_ground, existing.size_ground),
            first_seen: spec_earlier(existing.first_seen, fresh.first_seen),
            last_seen: or_opt(fresh.last_seen, existing.last_seen),
        }
    }
}

/// `a` when set, else a copy of `b`.
fn or_string(a: &Option<String>, b: &Option<String>) -> (r: Option<String>)
    ensures
        r == or_opt(*a, *b),
{
    match a {
        Some(v) => Some(v.clone()),
        None => duplicate_opt_string(b),
    }
}

/// `a` when set, else a copy of `b`.
fn or_coordinates(a: &Option<Coordinates>, b: &Option<Coordinates>) -> (r: Option<Coordinates>)
    ensures
        r == or_opt(*a, *b),
{
    match a {
        Some(v) => Some(v.duplicate()),
        None => duplicate_opt_coordinates(b),
    }
}

/// `a` when set, else `b`.
fn or_date(a: &Option<Date>, b: &Option<Date>) -> (r: Option<Date>)
    ensures
        r == or_opt(*a, *b),
{
    match a {
        Some(v) => Some(*v),
        None => *b,
    }
}

/// Merges a fresh snapshot into an existing catalog entry; see
/// [`spec_merge`] for the rule.
pub fn merge_properties(existing: &Property, fresh: &Property) -> (r: Property)
    ensures
        r == spec_merge(*existing, *fresh),
{
    let disappearance = matches!(fresh.listing_type, ListingType::Unavailable) && !matches!(
        existing.listing_type,
        ListingType::Unavailable,
    );
    if disappearance {
        Property {
            url: fresh.url.clone(),
            name: if !is_sentinel_name(existing.name.as_str()) {
                existing.name.clone()
            } else {
                fresh.name.clone()
            },
            price: existing.price.clone(),
            location: if !is_sentinel_location(existing.location.as_str()) {
                existing.location.clone()
            } else {
                fresh.location.clone()
            },
            property_type: if !matches!(existing.property_type, PropertyType::Unknown) {
                existing.property_type
            } else {
                fresh.property_type
            },
            listing_type: fresh.listing_type,
            date: or_date(&existing.date, &fresh.date),
            coordinates: or_coordinates(&existing.coordinates, &fresh.coordinates),
            address: or_string(&existing.address, &fresh.address),
            size_living: or_string(&existing.size_living, &fresh.size_living),
            size_ground: or_string(&existing.size_ground, &fresh.size_ground),
            first_seen: earlier_date(&existing.first_seen, &fresh.first_seen),
            last_seen: or_date(&existing.last_seen, &fresh.last_seen),
        }
    } else {
        Property {
            url: fresh.url.clone(),
            name: if is_sentinel_name(fresh.name.as_str()) && !is_sentinel_name(
                existing.name.as_str(),
            ) {
                existing.name.clone()
            } else {
                fresh.name.clone()
            },
            price: if is_sentinel_price(fresh.price.as_str()) && !is_sentinel_price(
                existing.price.as_str(),
            ) {
                existing.price.clone()
            } else {
                fresh.price.clone()
            },
            location: if is_sentinel_location(fresh.location.as_str()) && !is_sentinel_location(
                existing.location.as_str(),
            ) {
                existing.location.clone()
            } else {
                fresh.location.clone()
            },
            property_type: if matches!(fresh.property_type, PropertyType::Unknown) && !matches!(
                existing.property_type,
                PropertyType::Unknown,
            ) {
                existing.property_type
            } else {
                fresh.property_type
            },
            listing_type: fresh.listing_type,
            date: or_date(&fresh.date, &existing.date),
            coordinates: or_coordinates(&fresh.coordinates, &existing.coordinates),
            address: or_string(&fresh.address, &existing.address),
            size_living: or_string(&fresh.size_living, &existing.size_living),
            size_ground: or_string(&fresh.size_ground, &existing.size_ground),
            first_seen: earlier_date(&existing.first_seen, &fresh.first_seen),
            last_seen: or_date(&fresh.last_seen, &existing.last_seen),
        }
    }
}

/// The merged status always reflects the fresh observation, whichever
/// branch of the merge applied.
pub proof fn lemma_merge_status_reflects_fresh(existing: Property, fresh: Property)
    ensures
        spec_merge(existing, fresh).listing_type == fresh.listing_type,
{
}

/// Merge order-invariance for status: two snapshots carrying the same
/// status fact — observed at the same logical time — leave the same final
/// status whichever request order their merges run in, also when one order
/// takes the disappearance branch and the other the normal branch.
pub proof fn lemma_merge_status_order_invariant(e: Property, f: Property, g: Property)
    requires
        f.listing_type == g.listing_type,
    ensures
        spec_merge(spec_merge(e, f), g).listing_type == spec_merge(
            spec_merge(e, g),
            f,
        ).listing_type,
{
}

/// No regression: a real existing value is never overwritten by a fresh
/// sentinel, in either merge branch; absent fresh optionals keep the
/// existing value.
pub proof fn lemma_merge_no_regression(e: Property, f: Property)
    ensures
        !spec_sentinel_name(e.name@) && spec_sentinel_name(f.name@) ==> spec_merge(e, f).name
            == e.name,
        !spec_sentinel_price(e.price@) && spec_sentinel_price(f.price@) ==> spec_merge(e, f).price
            == e.price,
        !spec_sentinel_location(e.location@) && spec_sentinel_location(f.location@) ==> spec_merge(
            e,
            f,
        ).location == e.location,
        e.property_type != PropertyType::Unknown && f.property_type == PropertyType::Unknown
            ==> spec_merge(e, f).property_type == e.property_type,
        e.date is Some && f.date is None ==> spec_merge(e, f).date == e.date,
        e.coordinates is Some && f.coordinates is None ==> spec_merge(e, f).coordinates
            == e.coordinates,
        e.address is Some && f.address is None ==> spec_merge(e, f).address == e.address,
        e.size_living is Some && f.size_living is None ==> spec_merge(e, f).size_living
            == e.size_living,
        e.size_ground is Some && f.size_ground is None ==> spec_merge(e, f).size_ground
            == e.size_ground,
{
}

/// One merge never moves `first_seen` later in time once it is set.
pub proof fn lemma_merge_first_seen_monotonic(e: Property, f: Property)
    ensures
        e.first_seen is Some ==> spec_merge(e, f).first_seen is Some && spec_merge(
            e,
            f,
        ).first_seen.unwrap().spec_le(e.first_seen.unwrap()),
{
}

/// The entry left by folding a whole run of snapshots into `e`, in order.
pub open spec fn spec_apply_snapshots(e: Property, fs: Seq<Property>) -> Property
    decreases fs.len(),
{
    if fs.len() == 0 {
        e
    } else {
        spec_apply_snapshots(spec_merge(e, fs[0]), fs.skip(1))
    }
}

/// Monotonic `first_seen`: across any sequence of merges for the same
/// identifier, `first_seen` never moves later in time once set.
pub proof fn lemma_first_seen_monotonic_over_run(e: Property, fs: Seq<Property>)
    requires
        e.first_seen is Some,
    ensures
        spec_apply_snapshots(e, fs).first_seen is Some,
        spec_apply_snapshots(e, fs).first_seen.unwrap().spec_le(e.first_seen.unwrap()),
    decreases fs.len(),
{
    if fs.len() == 0 {
    } else {
        let e1 = spec_merge(e, fs[0]);
        lemma_merge_first_seen_monotonic(e, fs[0]);
        lemma_first_seen_monotonic_over_run(e1, fs.skip(1));
    }
}

/// The earliest of an initial date and the `first_seen` dates of a run of
/// snapshots.
pub open spec fn earliest_first_seen(a: Option<Date>, fs: Seq<Property>) -> Option<Date>
    decreases fs.len(),
{
    if fs.len() == 0 {
        a
    } else {
        earliest_first_seen(spec_earlier(a, fs[0].first_seen), fs.skip(1))
    }
}

/// Across any sequence of merges for one identifier, `first_seen` ends at
/// the earliest date any side ever carried, whichever merge branches ran.
pub proof fn lemma_first_seen_is_earliest(e: Property, fs: Seq<Property>)
    ensures
        spec_apply_snapshots(e, fs).first_seen == earliest_first_seen(e.first_seen, fs),
    decreases fs.len(),
{
    if fs.len() > 0 {
        lemma_first_seen_is_earliest(spec_merge(e, fs[0]), fs.skip(1));
    }
}

/// The position of the first entry of `s` whose identifier is `url`, or
/// `-1` when none carries it.
pub open spec fn find_url_index(s: Seq<Property>, url: Seq<char>) -> int
    decreases s.len(),
{
    if s.len() == 0 {
        -1
    } else if s[0].url@ == url {
        0
    } else {
        let r = find_url_index(s.skip(1), url);
        if r == -1 {
            -1
        } else {
            1 + r
        }
    }
}

pub proof fn lemma_find_url_index_props(s: Seq<Property>, url: Seq<char>)
    ensures
        -1 <= find_url_index(s, url) < s.len(),
        find_url_index(s, url) == -1 ==> forall|i: int| 0 <= i < s.len() ==> s[i].url@ != url,
        find_url_index(s, url) >= 0 ==> s[find_url_index(s, url)].url@ == url,
        forall|i: int|
            0 <= i < find_url_index(s, url) ==> s[i].url@ != url,
    decreases s.len(),
{
    if s.len() == 0 {
    } else if s[0].url@ == url {
    } else {
        lemma_find_url_index_props(s.skip(1), url);
        let r = find_url_index(s.skip(1), url);
        assert(forall|i: int| 1 <= i < s.len() ==> s[i] == s.skip(1)[i - 1]);
    }
}

/// One step of deduplication: `p` is merged into the entry that already
/// carries its identifier, in place, or appended when the identifier is
/// new.
pub open spec fn dedup_step(acc: Seq<Property>, p: Property) -> Seq<Property> {
    let j = find_url_index(acc, p.url@);
    if j == -1 {
        acc.push(p)
    } else {
        acc.update(j, spec_merge(acc[j], p))
    }
}

/// Deduplication of `s` continued onto the already-folded prefix `acc`.
pub open spec fn spec_dedup_from(acc: Seq<Property>, s: Seq<Property>) -> Seq<Property>
    decreases s.len(),
{
    if s.len() == 0 {
        acc
    } else {
        spec_dedup_from(dedup_step(acc, s[0]), s.skip(1))
    }
}

/// One entry per identifier: repeated identifiers of `s` are folded into
/// the position of their first occurrence, new ones appended at the end.
pub open spec fn spec_dedup(s: Seq<Property>) -> Seq<Property> {
    spec_dedup_from(Seq::empty(), s)
}

/// Deduplication consumes its input from the left.
proof fn lemma_dedup_from_snoc(acc: Seq<Property>, s: Seq<Property>, x: Property)
    ensures
        spec_dedup_from(acc, s.push(x)) == dedup_step(spec_dedup_from(acc, s), x),
    decreases s.len(),
{
    if s.len() == 0 {
        assert(s.push(x)[0] == x);
        assert(s.push(x).skip(1) =~= Seq::<Property>::empty());
        assert(spec_dedup_from(acc, s.push(x)) == spec_dedup_from(
            dedup_step(acc, x),
            Seq::<Property>::empty(),
        ));
        assert(spec_dedup_from(dedup_step(acc, x), Seq::<Property>::empty()) == dedup_step(acc, x));
        assert(spec_dedup_from(acc, s) == acc);
    } else {
        assert(s.push(x)[0] == s[0]);
        assert(s.push(x).skip(1) =~= s.skip(1).push(x));
        assert(spec_dedup_from(acc, s.push(x)) == spec_dedup_from(
            dedup_step(acc, s[0]),
            s.skip(1).push(x),
        ));
        lemma_dedup_from_snoc(dedup_step(acc, s[0]), s.skip(1), x);
        assert(spec_dedup_from(acc, s) == spec_dedup_from(dedup_step(acc, s[0]), s.skip(1)));
    }
}

/// No two entries carry the same identifier.
pub open spec fn unique_urls(s: Seq<Property>) -> bool {
    forall|i: int, j: int| 0 <= i < j < s.len() ==> s[i].url@ != s[j].url@
}

pub proof fn lemma_dedup_step_unique(acc: Seq<Property>, p: Property)
    requires
        unique_urls(acc),
    ensures
        unique_urls(dedup_step(acc, p)),
{
    lemma_find_url_index_props(acc, p.url@);
    let j = find_url_index(acc, p.url@);
    if j == -1 {
        let out = acc.push(p);
        assert forall|a: int, b: int| 0 <= a < b < out.len() implies out[a].url@ != out[b].url@ by {
            if b == out.len() - 1 {
                assert(out[a] == acc[a]);
            } else {
                assert(out[a] == acc[a] && out[b] == acc[b]);
            }
        }
    } else {
        let out = acc.update(j, spec_merge(acc[j], p));
        assert(out[j].url@ == p.url@);
        assert forall|a: int, b: int| 0 <= a < b < out.len() implies out[a].url@ != out[b].url@ by {
            assert(a == j || out[a] == acc[a]);
            assert(b == j || out[b] == acc[b]);
            assert(acc[j].url@ == p.url@);
        }
    }
}

proof fn lemma_dedup_from_unique(acc: Seq<Property>, s: Seq<Property>)
    requires
        unique_urls(acc),
    ensures
        unique_urls(spec_dedup_from(acc, s)),
    decreases s.len(),
{
    if s.len() > 0 {
        lemma_dedup_step_unique(acc, s[0]);
        lemma_dedup_from_unique(dedup_step(acc, s[0]), s.skip(1));
    }
}

/// A deduplicated catalog holds one entry per identifier.
pub proof fn lemma_dedup_unique(s: Seq<Property>)
    ensures
        unique_urls(spec_dedup(s)),
{
    lemma_dedup_from_unique(Seq::empty(), s);
}

/// Deduplicating a catalog whose identifiers are already unique changes
/// nothing.
proof fn lemma_dedup_from_of_unique(acc: Seq<Property>, s: Seq<Property>)
    requires
        unique_urls(acc + s),
    ensures
        spec_dedup_from(acc, s) == acc + s,
    decreases s.len(),
{
    if s.len() == 0 {
        assert(acc + s =~= acc);
    } else {
        let all = acc + s;
        lemma_find_url_index_props(acc, s[0].url@);
        assert forall|i: int| 0 <= i < acc.len() implies acc[i].url@ != s[0].url@ by {
            assert(all[i] == acc[i] && all[acc.len() as int] == s[0]);
        }
        assert(find_url_index(acc, s[0].url@) == -1);
        assert(dedup_step(acc, s[0]) == acc.push(s[0]));
        assert(acc.push(s[0]) + s.skip(1) =~= acc + s);
        lemma_dedup_from_of_unique(acc.push(s[0]), s.skip(1));
    }
}

/// Deduplicating a catalog that already holds one entry per identifier —
/// as every catalog this library writes does — changes nothing.
pub proof fn lemma_dedup_of_unique(c: Seq<Property>)
    requires
        unique_urls(c),
    ensures
        spec_dedup(c) == c,
{
    assert(Seq::empty() + c =~= c);
    lemma_dedup_from_of_unique(Seq::empty(), c);
}

/// Idempotence of deduplication: deduplicating an already-deduplicated
/// catalog is a no-op.
pub proof fn lemma_dedup_idempotent(c: Seq<Property>)
    ensures
        spec_dedup(spec_dedup(c)) == spec_dedup(c),
{
    let d = spec_dedup(c);
    lemma_dedup_unique(c);
    assert(Seq::empty() + d =~= d);
    lemma_dedup_from_of_unique(Seq::empty(), d);
}

/// The position of the entry of `catalog` whose identifier is `url`, if
/// any carries it.
pub fn find_by_url(catalog: &Vec<Property>, url: &str) -> (r: Option<usize>)
    ensures
        match r {
            Some(j) => j as int == find_url_index(catalog@, url@),
            None => find_url_index(catalog@, url@) == -1,
        },
{
    proof {
        lemma_find_url_index_props(catalog@, url@);
    }
    let mut i: usize = 0;
    while i < catalog.len()
        invariant
            0 <= i <= catalog@.len(),
            -1 <= find_url_index(catalog@, url@) < catalog@.len(),
            find_url_index(catalog@, url@) >= 0 ==> catalog@[find_url_index(catalog@, url@)].url@
                == url@,
            forall|k: int| 0 <= k < find_url_index(catalog@, url@) ==> catalog@[k].url@ != url@,
            find_url_index(catalog@, url@) == -1 ==> forall|k: int|
                0 <= k < catalog@.len() ==> catalog@[k].url@ != url@,
            forall|k: int| 0 <= k < i ==> catalog@[k].url@ != url@,
        decreases catalog@.len() - i,
    {
        if str_eq(catalog[i].url.as_str(), url) {
            return Some(i);
        }
        i += 1;
    }
    None
}

/// Folds a catalog that may hold several entries for one identifier into
/// one entry per identifier, merging repeats into the position of their
/// first occurrence in encounter order and appending genuinely new
/// identifiers at the end, so the file stays diffable across runs.
pub fn deduplicate_properties_by_url(properties: Vec<Property>) -> (r: Vec<Property>)
    ensures
        r@ == spec_dedup(properties@),
        unique_urls(r@),
{
    let mut result: Vec<Property> = Vec::new();
    let mut i: usize = 0;
    proof {
        assert(properties@.take(0) =~= Seq::<Property>::empty());
    }
    while i < properties.len()
        invariant
            0 <= i <= properties@.len(),
            result@ == spec_dedup_from(Seq::empty(), properties@.take(i as int)),
        decreases properties@.len() - i,
    {
        let p = &properties[i];
        match find_by_url(&result, p.url.as_str()) {
            Some(j) => {
                proof {
                    lemma_find_url_index_props(result@, p.url@);
                }
                let merged = merge_properties(&result[j], p);
                result.set(j, merged);
            },
            None => {
                result.push(p.duplicate());
            },
        }
        proof {
            lemma_dedup_from_snoc(Seq::empty(), properties@.take(i as int), properties@[i as int]);
            assert(properties@.take(i + 1) =~= properties@.take(i as int).push(
                properties@[i as int],
            ));
        }
        i += 1;
    }
    proof {
        assert(properties@.take(properties@.len() as int) =~= properties@);
        lemma_dedup_unique(properties@);
    }
    result
}

/// The entries of `s` that a refresh run did not re-scrape.
pub open spec fn spec_retain_unscraped(s: Seq<Property>, scraped: Seq<String>) -> Seq<Property> {
    s.filter(|p: Property| !spec_contains_string(scraped, p.url@))
}

/// Merges what one run gathered into the loaded catalog.  A refresh run
/// first drops exactly the entries it re-scraped (other origins and
/// untouched identifiers stay), then the fresh snapshots are appended and
/// the whole catalog is deduplicated.
pub fn merge_properties_with_refresh(
    existing_properties: Vec<Property>,
    result: ScrapingResult,
    _platform_domain: &str,
) -> (r: Vec<Property>)
    ensures
        result.is_refresh ==> r@ == spec_dedup(
            spec_retain_unscraped(existing_properties@, result.scraped_urls@)
                + result.scraped_properties@,
        ),
        !result.is_refresh ==> r@ == spec_dedup(
            existing_properties@ + result.scraped_properties@,
        ),
        unique_urls(r@),
{
    let ghost orig = existing_properties@;
    let ghost pred = |p: Property| !spec_contains_string(result.scraped_urls@, p.url@);
    let mut kept: Vec<Property>;
    if result.is_refresh {
        kept = Vec::new();
        proof {
            reveal(Seq::filter);
            assert(orig.take(0) =~= Seq::<Property>::empty());
        }
        let mut i: usize = 0;
        while i < existing_properties.len()
            invariant
                0 <= i <= orig.len(),
                orig == existing_properties@,
                pred == (|p: Property| !spec_contains_string(result.scraped_urls@, p.url@)),
                kept@ == orig.take(i as int).filter(pred),
            decreases orig.len() - i,
        {
            let p = &existing_properties[i];
            if !vec_contains_string(&result.scraped_urls, p.url.as_str()) {
                kept.push(p.duplicate());
            }
            proof {
                reveal(Seq::filter);
                assert(orig.take(i + 1).drop_last() =~= orig.take(i as int));
                assert(orig.take(i + 1).last() == orig[i as int]);
            }
            i += 1;
        }
        proof {
            assert(orig.take(orig.len() as int) =~= orig);
        }
    } else {
        kept = existing_properties;
    }
    let ghost base = kept@;
    let mut j: usize = 0;
    proof {
        assert(base + result.scraped_properties@.take(0) =~= base);
    }
    while j < result.scraped_properties.len()
        invariant
            0 <= j <= result.scraped_properties@.len(),
            kept@ == base + result.scraped_properties@.take(j as int),
        decreases result.scraped_properties@.len() - j,
    {
        kept.push(result.scraped_properties[j].duplicate());
        proof {
            assert(base + result.scraped_properties@.take(j + 1) =~= (base
                + result.scraped_properties@.take(j as int)).push(
                result.scraped_properties@[j as int],
            ));
        }
        j += 1;
    }
    proof {
        assert(base + result.scraped_properties@.take(result.scraped_properties@.len() as int)
            =~= base + result.scraped_properties@);
    }
    deduplicate_properties_by_url(kept)
}

} // verus!
