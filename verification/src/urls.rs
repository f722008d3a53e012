//! URL canonicalization.  A listing is identified by its URL with the query
//! string and fragment stripped, so URLs that differ only in tracking
//! parameters name the same listing.

use vstd::prelude::*;

use crate::text::{contains_seq, str_contains};

verus! {

/// The length of the canonical prefix of a URL: the index of the first
/// `?` or `#`, or the whole length when neither occurs.
pub open spec fn url_cut_len(u: Seq<char>) -> int
    decreases u.len(),
{
    if u.len() == 0 {
        0
    } else if u[0] == '?' || u[0] == '#' {
        0
    } else {
        1 + url_cut_len(u.skip(1))
    }
}

/// Canonicalizes a URL: everything from the first `?` or `#` onward is
/// dropped.
pub open spec fn spec_sanitize_url(u: Seq<char>) -> Seq<char> {
    u.take(url_cut_len(u))
}

/// `url_cut_len` is the position of the first `?` or `#`, or the length.
pub proof fn lemma_url_cut_len_props(u: Seq<char>)
    ensures
        0 <= url_cut_len(u) <= u.len(),
        forall|k: int| 0 <= k < url_cut_len(u) ==> u[k] != '?' && u[k] != '#',
        url_cut_len(u) < u.len() ==> u[url_cut_len(u)] == '?' || u[url_cut_len(u)] == '#',
    decreases u.len(),
{
    if u.len() == 0 {
    } else if u[0] == '?' || u[0] == '#' {
    } else {
        lemma_url_cut_len_props(u.skip(1));
        assert forall|k: int| 0 <= k < url_cut_len(u) implies u[k] != '?' && u[k] != '#' by {
            if k > 0 {
                assert(u.skip(1)[k - 1] == u[k]);
            }
        }
        if url_cut_len(u) < u.len() {
            assert(u.skip(1)[url_cut_len(u) - 1] == u[url_cut_len(u)]);
        }
    }
}

/// Any position before which no `?` or `#` occurs, and at which one occurs
/// or the URL ends, is the cut position.
pub proof fn lemma_url_cut_len_characterize(u: Seq<char>, i: int)
    requires
        0 <= i <= u.len(),
        forall|k: int| 0 <= k < i ==> u[k] != '?' && u[k] != '#',
        i == u.len() || u[i] == '?' || u[i] == '#',
    ensures
        url_cut_len(u) == i,
    decreases u.len(),
{
    if u.len() == 0 {
    } else if u[0] == '?' || u[0] == '#' {
        assert(i == 0);
    } else {
        assert(i >= 1);
        assert forall|k: int| 0 <= k < i - 1 implies u.skip(1)[k] != '?' && u.skip(1)[k] != '#' by {
            assert(u.skip(1)[k] == u[k + 1]);
        }
        if i < u.len() {
            assert(u.skip(1)[i - 1] == u[i]);
        }
        lemma_url_cut_len_characterize(u.skip(1), i - 1);
    }
}

/// Canonicalization is idempotent: canonicalizing an already canonical URL
/// changes nothing.
pub proof fn lemma_sanitize_url_idempotent(u: Seq<char>)
    ensures
        spec_sanitize_url(spec_sanitize_url(u)) == spec_sanitize_url(u),
{
    lemma_url_cut_len_props(u);
    let v = spec_sanitize_url(u);
    assert forall|k: int| 0 <= k < v.len() implies v[k] != '?' && v[k] != '#' by {
        assert(v[k] == u[k]);
    }
    lemma_url_cut_len_characterize(v, v.len() as int);
    assert(v.take(v.len() as int) =~= v);
}

/// Canonicalizes a URL by removing its query parameters and fragment, so
/// that URLs differing only in such suffixes identify the same listing.
pub fn sanitize_url(url: &str) -> (r: String)
    ensures
        r@ == spec_sanitize_url(url@),
{
    let i = url_cut_index(url);
    proof {
        assert(url@.subrange(0, i as int) =~= url@.take(i as int));
    }
    url.substring_char(0, i).to_owned()
}

/// The position of the first `?` or `#` in `url`, or its length.
fn url_cut_index(url: &str) -> (i: usize)
    ensures
        i as int == url_cut_len(url@),
        i <= url@.len(),
{
    let n = url.unicode_len();
    let mut i: usize = 0;
    while i < n
        invariant
            n == url@.len(),
            0 <= i <= n,
            forall|k: int| 0 <= k < i ==> url@[k] != '?' && url@[k] != '#',
        decreases n - i,
    {
        let c = url.get_char(i);
        if c == '?' || c == '#' {
            proof {
                lemma_url_cut_len_characterize(url@, i as int);
            }
            return i;
        }
        i += 1;
    }
    proof {
        lemma_url_cut_len_characterize(url@, n as int);
    }
    i
}

/// `s` with every trailing `/` removed.
pub open spec fn trim_trailing_slashes(s: Seq<char>) -> Seq<char>
    decreases s.len(),
{
    if s.len() > 0 && s[s.len() - 1] == '/' {
        trim_trailing_slashes(s.drop_last())
    } else {
        s
    }
}

/// The start of the last `/`-separated segment of `s`: the position just
/// after the last `/`, or `0` when `s` holds none.
pub open spec fn last_segment_start(s: Seq<char>) -> int
    decreases s.len(),
{
    if s.len() == 0 {
        0
    } else if s[s.len() - 1] == '/' {
        s.len() as int
    } else {
        last_segment_start(s.drop_last())
    }
}

pub proof fn lemma_last_segment_start_bounds(s: Seq<char>)
    ensures
        0 <= last_segment_start(s) <= s.len(),
    decreases s.len(),
{
    if s.len() > 0 && s[s.len() - 1] != '/' {
        lemma_last_segment_start_bounds(s.drop_last());
    }
}

/// The identifier a listing URL of the laendleimmo origin carries: the last
/// path segment of the canonical URL, with trailing slashes ignored.
pub open spec fn spec_extract_property_id(u: Seq<char>) -> Option<Seq<char>> {
    if !contains_seq(u, "laendleimmo.at"@) {
        None
    } else {
        let t = trim_trailing_slashes(spec_sanitize_url(u));
        let id = t.subrange(last_segment_start(t), t.len() as int);
        if id.len() == 0 {
            None
        } else {
            Some(id)
        }
    }
}

/// Extracts the unique listing identifier from a laendleimmo.at URL: the
/// last path segment, which identifies the listing regardless of how the
/// origin classifies it.
pub fn extract_property_id(url: &str) -> (r: Option<String>)
    ensures
        match r {
            Some(id) => spec_extract_property_id(url@) == Some(id@),
            None => spec_extract_property_id(url@) is None,
        },
{
    if !str_contains(url, "laendleimmo.at") {
        return None;
    }
    let s = sanitize_url(url);
    let n = s.as_str().unicode_len();
    let ghost sv = s@;
    proof {
        assert(sv.take(n as int) =~= sv);
    }

    // Drop trailing slashes.
    let mut e: usize = n;
    while e > 0 && s.as_str().get_char(e - 1) == '/'
        invariant
            n == sv.len(),
            s@ == sv,
            0 <= e <= n,
            trim_trailing_slashes(sv) == trim_trailing_slashes(sv.take(e as int)),
        decreases e,
    {
        proof {
            let t = sv.take(e as int);
            assert(t[t.len() - 1] == sv[e - 1]);
            assert(t.drop_last() =~= sv.take(e - 1));
        }
        e -= 1;
    }
    proof {
        let t = sv.take(e as int);
        if e > 0 {
            assert(t[t.len() - 1] == sv[e - 1]);
        }
        assert(trim_trailing_slashes(sv) == t);
    }

    // Find the start of the last segment of the trimmed URL.
    let ghost t = sv.take(e as int);
    let mut b: usize = e;
    while b > 0 && s.as_str().get_char(b - 1) != '/'
        invariant
            n == sv.len(),
            s@ == sv,
            t == sv.take(e as int),
            0 <= b <= e <= n,
            last_segment_start(t) == last_segment_start(sv.take(b as int)),
        decreases b,
    {
        proof {
            let w = sv.take(b as int);
            assert(w[w.len() - 1] == sv[b - 1]);
            assert(w.drop_last() =~= sv.take(b - 1_int));
        }
        b -= 1;
    }
    proof {
        let w = sv.take(b as int);
        if b > 0 {
            assert(w[w.len() - 1] == sv[b - 1]);
            assert(last_segment_start(w) == b as int);
        }
        assert(last_segment_start(t) == b as int);
        lemma_last_segment_start_bounds(t);
    }

    if b == e {
        proof {
            assert(t.subrange(b as int, e as int).len() == 0);
        }
        return None;
    }
    let id = s.as_str().substring_char(b, e).to_owned();
    proof {
        assert(sv.subrange(b as int, e as int) =~= t.subrange(b as int, e as int));
    }
    Some(id)
}

/// Whether a URL belongs to the origin whose base URL marker is `marker`.
pub fn url_matches_origin(url: &str, marker: &str) -> (r: bool)
    ensures
        r == contains_seq(url@, marker@),
{
    str_contains(url, marker)
}

} // verus!
