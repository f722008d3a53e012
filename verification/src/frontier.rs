//! The frontier selector: given the current catalog and the requested crawl
//! mode, which URLs are (re-)fetched this run, and in what order.
//!
//! Discovery modes partition found URLs into new and already known, and the
//! re-observation of a known URL in a listing page refreshes its
//! `last_seen` without a fetch.  The refresh-by-age mode selects stale
//! available listings and orders them oldest first, never-dated ones ahead
//! of dated ones.

use vstd::prelude::*;

use vstd::multiset::Multiset;
use vstd::seq_lib::lemma_multiset_commutative;

use crate::dates::Date;
use crate::models::{ListingType, Property};
use crate::text::{contains_seq, spec_contains_string, vec_contains_string};
use crate::urls::url_matches_origin;

verus! {

broadcast use vstd::multiset::group_multiset_axioms;

/// The identifiers of the entries, in order.
pub open spec fn urls_of(s: Seq<Property>) -> Seq<Seq<char>> {
    Seq::new(s.len(), |i: int| s[i].url@)
}

/// The entry belongs to the origin whose base URL marker is `marker`.
pub open spec fn spec_in_origin(p: Property, marker: Seq<char>) -> bool {
    contains_seq(p.url@, marker)
}

/// The identifiers of the catalog entries that belong to one origin, in
/// catalog order.
pub fn relevant_urls(catalog: &Vec<Property>, marker: &str) -> (r: Vec<String>)
    ensures
        r.deep_view() == urls_of(catalog@.filter(|p: Property| spec_in_origin(p, marker@))),
{
    let ghost pred = |p: Property| spec_in_origin(p, marker@);
    let mut out: Vec<String> = Vec::new();
    let mut i: usize = 0;
    proof {
        reveal(Seq::filter);
        assert(catalog@.take(0) =~= Seq::<Property>::empty());
        assert(out.deep_view() =~= urls_of(catalog@.take(0).filter(pred)));
    }
    while i < catalog.len()
        invariant
            0 <= i <= catalog@.len(),
            pred == (|p: Property| spec_in_origin(p, marker@)),
            out.deep_view() == urls_of(catalog@.take(i as int).filter(pred)),
        decreases catalog@.len() - i,
    {
        let ghost ob = out.deep_view();
        let p = &catalog[i];
        if url_matches_origin(p.url.as_str(), marker) {
            out.push(p.url.clone());
            proof {
                assert(out.deep_view() =~= ob.push(catalog@[i as int].url@));
            }
        }
        proof {
            reveal(Seq::filter);
            assert(catalog@.take(i + 1).drop_last() =~= catalog@.take(i as int));
            assert(catalog@.take(i + 1).last() == catalog@[i as int]);
            assert(out.deep_view() =~= urls_of(catalog@.take(i + 1).filter(pred)));
        }
        i += 1;
    }
    proof {
        assert(catalog@.take(catalog@.len() as int) =~= catalog@);
    }
    out
}

/// Splits discovered URLs into the genuinely new ones, in discovery order,
/// and the count of already known ones.
pub fn partition_new_known(found: &Vec<String>, existing: &Vec<String>) -> (r: (Vec<String>, usize))
    ensures
        r.0.deep_view() == found.deep_view().filter(
            |u: Seq<char>| !spec_contains_string(existing@, u),
        ),
        r.0@.len() + r.1 == found@.len(),
{
    let ghost pred = |u: Seq<char>| !spec_contains_string(existing@, u);
    let ghost fv = found.deep_view();
    proof {
        assert(forall|k: int| 0 <= k < found@.len() ==> fv[k] == #[trigger] found@[k]@);
    }
    let mut new_urls: Vec<String> = Vec::new();
    let mut known: usize = 0;
    let mut i: usize = 0;
    proof {
        reveal(Seq::filter);
        assert(fv.take(0) =~= Seq::<Seq<char>>::empty());
        assert(new_urls.deep_view() =~= fv.take(0).filter(pred));
    }
    while i < found.len()
        invariant
            0 <= i <= found@.len(),
            fv == found.deep_view(),
            fv.len() == found@.len(),
            forall|k: int| 0 <= k < found@.len() ==> fv[k] == #[trigger] found@[k]@,
            pred == (|u: Seq<char>| !spec_contains_string(existing@, u)),
            new_urls.deep_view() == fv.take(i as int).filter(pred),
            new_urls@.len() + known == i,
        decreases found@.len() - i,
    {
        let ghost nb = new_urls.deep_view();
        if vec_contains_string(existing, found[i].as_str()) {
            known += 1;
        } else {
            new_urls.push(found[i].clone());
            proof {
                assert(new_urls.deep_view() =~= nb.push(fv[i as int]));
            }
        }
        proof {
            reveal(Seq::filter);
            assert(fv.take(i + 1).drop_last() =~= fv.take(i as int));
            assert(fv.take(i + 1).last() == fv[i as int]);
            assert(new_urls.deep_view() =~= fv.take(i + 1).filter(pred));
        }
        i += 1;
    }
    proof {
        assert(fv.take(fv.len() as int) =~= fv);
    }
    (new_urls, known)
}

/// `p` with its `last_seen` advanced to `d`.
pub open spec fn with_last_seen(p: Property, d: Date) -> Property {
    Property { last_seen: Some(d), ..p }
}

/// An entry whose presence a discovery pass just re-confirmed: its URL was
/// both found in listings and already known.
pub open spec fn spec_reobserved(p: Property, found: Seq<String>, existing: Seq<String>) -> bool {
    spec_contains_string(found, p.url@) && spec_contains_string(existing, p.url@)
}

/// Refreshes `last_seen` to `today` for every entry whose URL a discovery
/// pass re-observed: presence in a listing page is itself a freshness
/// signal, even without a fetch.  Returns how many entries were touched.
pub fn refresh_last_seen(
    catalog: &mut Vec<Property>,
    found: &Vec<String>,
    existing: &Vec<String>,
    today: Date,
) -> (updated: usize)
    ensures
        final(catalog)@.len() == old(catalog)@.len(),
        forall|i: int|
            0 <= i < old(catalog)@.len() ==> final(catalog)@[i] == (if spec_reobserved(
                #[trigger] old(catalog)@[i],
                found@,
                existing@,
            ) {
                with_last_seen(old(catalog)@[i], today)
            } else {
                old(catalog)@[i]
            }),
        updated as int == old(catalog)@.filter(
            |p: Property| spec_reobserved(p, found@, existing@),
        ).len(),
{
    let ghost orig = catalog@;
    let ghost pred = |p: Property| spec_reobserved(p, found@, existing@);
    let mut updated: usize = 0;
    let mut i: usize = 0;
    proof {
        reveal(Seq::filter);
        assert(orig.take(0).filter(pred) =~= Seq::<Property>::empty());
    }
    while i < catalog.len()
        invariant
            0 <= i <= orig.len(),
            catalog@.len() == orig.len(),
            pred == (|p: Property| spec_reobserved(p, found@, existing@)),
            forall|k: int|
                0 <= k < i ==> catalog@[k] == (if pred(#[trigger] orig[k]) {
                    with_last_seen(orig[k], today)
                } else {
                    orig[k]
                }),
            forall|k: int| i <= k < orig.len() ==> catalog@[k] == #[trigger] orig[k],
            updated as int == orig.take(i as int).filter(pred).len(),
        decreases orig.len() - i,
    {
        let hit = vec_contains_string(found, catalog[i].url.as_str()) && vec_contains_string(
            existing,
            catalog[i].url.as_str(),
        );
        if hit {
            let mut q = catalog[i].duplicate();
            q.last_seen = Some(today);
            catalog.set(i, q);
            updated += 1;
        }
        proof {
            reveal(Seq::filter);
            assert(orig.take(i + 1).drop_last() =~= orig.take(i as int));
            assert(orig.take(i + 1).last() == orig[i as int]);
            assert(orig.take(i + 1).filter(pred).len() <= orig.take(i + 1).len()) by {
                orig.take(i + 1).lemma_filter_len(pred);
            }
        }
        i += 1;
    }
    proof {
        assert(orig.take(orig.len() as int) =~= orig);
    }
    updated
}

/// `a` is no later than `b`, absent dates first.
pub open spec fn opt_date_le(a: Option<Date>, b: Option<Date>) -> bool {
    match (a, b) {
        (None, _) => true,
        (Some(_), None) => false,
        (Some(x), Some(y)) => x.spec_le(y),
    }
}

/// The refresh priority order: by the listing's own date, oldest first,
/// entries with no date ahead of dated ones, ties among undated entries by
/// `first_seen`.
pub open spec fn refresh_le(a: Property, b: Property) -> bool {
    match (a.date, b.date) {
        (Some(x), Some(y)) => x.spec_le(y),
        (None, Some(_)) => true,
        (Some(_), None) => false,
        (None, None) => opt_date_le(a.first_seen, b.first_seen),
    }
}

/// The refresh priority order is total and transitive.
pub proof fn lemma_refresh_le_total(a: Property, b: Property, c: Property)
    ensures
        refresh_le(a, b) || refresh_le(b, a),
        refresh_le(a, b) && refresh_le(b, c) ==> refresh_le(a, c),
{
}

/// Whether `a` comes no later than `b` in refresh priority.
fn refresh_le_exec(a: &Property, b: &Property) -> (r: bool)
    ensures
        r == refresh_le(*a, *b),
{
    match (&a.date, &b.date) {
        (Some(x), Some(y)) => x.le(y),
        (None, Some(_)) => true,
        (Some(_), None) => false,
        (None, None) => match (&a.first_seen, &b.first_seen) {
            (None, _) => true,
            (Some(_), None) => false,
            (Some(x), Some(y)) => x.le(y),
        },
    }
}

/// Sorted under the refresh priority order.
pub open spec fn sorted_for_refresh(s: Seq<Property>) -> bool {
    forall|i: int, j: int| 0 <= i < j < s.len() ==> refresh_le(#[trigger] s[i], #[trigger] s[j])
}

/// Sorts entries into refresh priority order, keeping exactly the same
/// entries.
fn sort_for_refresh(input: Vec<Property>) -> (r: Vec<Property>)
    ensures
        sorted_for_refresh(r@),
        r@.to_multiset() == input@.to_multiset(),
{
    broadcast use vstd::seq_lib::group_to_multiset_ensures;

    let mut out: Vec<Property> = Vec::new();
    let mut i: usize = 0;
    proof {
        assert(input@.take(0) =~= Seq::<Property>::empty());
        assert(out@.to_multiset() =~= input@.take(0).to_multiset());
    }
    while i < input.len()
        invariant
            0 <= i <= input@.len(),
            sorted_for_refresh(out@),
            out@.to_multiset() == input@.take(i as int).to_multiset(),
            out@.len() == i,
        decreases input@.len() - i,
    {
        let p = input[i].duplicate();
        let mut j: usize = 0;
        while j < out.len() && refresh_le_exec(&out[j], &p)
            invariant
                0 <= j <= out@.len(),
                forall|k: int| 0 <= k < j ==> refresh_le(#[trigger] out@[k], p),
            decreases out@.len() - j,
        {
            j += 1;
        }
        proof {
            if j < out@.len() {
                lemma_refresh_le_total(out@[j as int], p, p);
            }
        }
        let ghost before = out@;
        out.insert(j, p);
        proof {
            // The inserted sequence stays sorted.
            assert forall|a: int, b: int|
                0 <= a < b < out@.len() implies refresh_le(out@[a], out@[b]) by {
                lemma_refresh_le_total(p, before[b - 1], before[b - 1]);
                if a < j && b > j {
                    lemma_refresh_le_total(before[a], before[b - 1], before[b - 1]);
                }
                if (j as int) < a {
                    lemma_refresh_le_total(p, before[a - 1], before[b - 1]);
                }
            }
            // The inserted sequence keeps the same entries.
            let head = before.take(j as int);
            let tail = before.skip(j as int);
            assert(before =~= head + tail);
            assert(out@ =~= head + (seq![p] + tail));
            lemma_multiset_commutative(head, tail);
            lemma_multiset_commutative(head, seq![p] + tail);
            lemma_multiset_commutative(seq![p], tail);
            assert(seq![p] =~= Seq::<Property>::empty().push(p));
            let e = Seq::<Property>::empty();
            e.to_multiset_ensures();
            assert forall|x: Property| e.to_multiset().count(x) == 0 by {
                assert(!e.contains(x));
            }
            assert(seq![p].to_multiset() =~= e.to_multiset().insert(p));
            assert(out@.to_multiset() =~= head.to_multiset().add(
                seq![p].to_multiset().add(tail.to_multiset()),
            ));
            assert(before.to_multiset() =~= head.to_multiset().add(tail.to_multiset()));
            assert(out@.to_multiset() =~= before.to_multiset().insert(p));
            let t = input@.take(i as int);
            let t1 = input@.take(i + 1);
            t.to_multiset_ensures();
            assert(t1 =~= t.push(input@[i as int]));
            assert(t.push(input@[i as int]).to_multiset() =~= t.to_multiset().insert(
                input@[i as int],
            ));
            assert(out@.to_multiset() =~= t1.to_multiset());
        }
        i += 1;
    }
    proof {
        assert(input@.take(input@.len() as int) =~= input@);
    }
    out
}

/// A stale available listing of one origin: its status is still available
/// and it has not been confirmed present since `cutoff`.
pub open spec fn spec_needs_refresh(p: Property, marker: Seq<char>, cutoff: Date) -> bool {
    &&& spec_in_origin(p, marker)
    &&& p.listing_type == ListingType::Available
    &&& match p.last_seen {
        None => true,
        Some(d) => d.spec_le(cutoff),
    }
}

/// Selects the URLs to re-fetch in refresh-by-age mode: every available
/// entry of the origin not confirmed since `cutoff`, ordered oldest first
/// by the listing's own date, never-dated entries ahead so they are
/// refreshed first.
pub fn select_refresh_candidates(catalog: &Vec<Property>, marker: &str, cutoff: Date) -> (r: Vec<
    String,
>)
    ensures
        exists|sorted: Seq<Property>|
            {
                &&& sorted.to_multiset() == catalog@.filter(
                    |p: Property| spec_needs_refresh(p, marker@, cutoff),
                ).to_multiset()
                &&& sorted_for_refresh(sorted)
                &&& r.deep_view() == urls_of(sorted)
            },
{
    let ghost pred = |p: Property| spec_needs_refresh(p, marker@, cutoff);
    let mut stale: Vec<Property> = Vec::new();
    let mut i: usize = 0;
    proof {
        reveal(Seq::filter);
        assert(stale@ =~= catalog@.take(0).filter(pred));
    }
    while i < catalog.len()
        invariant
            0 <= i <= catalog@.len(),
            pred == (|p: Property| spec_needs_refresh(p, marker@, cutoff)),
            stale@ == catalog@.take(i as int).filter(pred),
        decreases catalog@.len() - i,
    {
        let p = &catalog[i];
        let is_stale = url_matches_origin(p.url.as_str(), marker) && matches!(
            p.listing_type,
            ListingType::Available,
        ) && (match &p.last_seen {
            None => true,
            Some(d) => d.le(&cutoff),
        });
        if is_stale {
            stale.push(p.duplicate());
        }
        proof {
            reveal(Seq::filter);
            assert(catalog@.take(i + 1).drop_last() =~= catalog@.take(i as int));
            assert(catalog@.take(i + 1).last() == catalog@[i as int]);
            assert(stale@ =~= catalog@.take(i + 1).filter(pred));
        }
        i += 1;
    }
    proof {
        assert(catalog@.take(catalog@.len() as int) =~= catalog@);
    }
    let sorted = sort_for_refresh(stale);
    let ghost sorted_view = sorted@;
    let mut urls: Vec<String> = Vec::new();
    let mut k: usize = 0;
    proof {
        assert(urls.deep_view() =~= urls_of(sorted_view.take(0)));
    }
    while k < sorted.len()
        invariant
            0 <= k <= sorted_view.len(),
            sorted@ == sorted_view,
            urls.deep_view() == urls_of(sorted_view.take(k as int)),
        decreases sorted_view.len() - k,
    {
        let ghost ub = urls.deep_view();
        urls.push(sorted[k].url.clone());
        proof {
            assert(urls.deep_view() =~= ub.push(sorted_view[k as int].url@));
            assert(urls.deep_view() =~= urls_of(sorted_view.take(k + 1)));
        }
        k += 1;
    }
    proof {
        assert(sorted_view.take(sorted_view.len() as int) =~= sorted_view);
        assert(urls.deep_view() == urls_of(sorted_view));
    }
    urls
}

/// Truncates the candidate list to the run's item cap, keeping the mode's
/// ordering.
pub fn apply_item_cap(urls: Vec<String>, max_items: Option<usize>) -> (r: Vec<String>)
    ensures
        match max_items {
            None => r@ == urls@,
            Some(m) => r@ == (if m as int <= urls@.len() {
                urls@.take(m as int)
            } else {
                urls@
            }),
        },
{
    let mut urls = urls;
    match max_items {
        Some(m) => {
            if m < urls.len() {
                urls.truncate(m);
            }
        },
        None => {},
    }
    urls
}

} // verus!
