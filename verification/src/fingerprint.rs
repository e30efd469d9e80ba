//! The admission fingerprint: a stable content hash over the canonical
//! form `METHOD|URL|BODY|HDRS|RUN_TS`, where the headers are folded to
//! lowercase keys, sorted by key, and joined as `k1:v1, k2:v2`, and the
//! run time is rendered as whole epoch seconds (0 when absent).
use vstd::prelude::*;
use vstd::string::StringExecFns;

use crate::hexfmt::{hex_encode, hex_str_of, lemma_hex_str_len};
use crate::job::{HeaderEntry, HeaderV};
use crate::numfmt::{dec_str_int, i64_dec_str, ms_to_seconds_floor};
use crate::order::text_lt;
use crate::order::text_below;

verus! {

/// What str::to_lowercase computes: the lowercase folding of a text, a
/// function of its characters alone.
pub uninterp spec fn lowered(s: Seq<char>) -> Seq<char>;

/// Relies on str::to_lowercase: the result depends on the characters
/// alone.
#[verifier::external_body]
fn lowercase(s: &str) -> (r: String)
    ensures
        r@ == lowered(s@),
{
    s.to_lowercase()
}

/// What sha2::Sha256 computes over the UTF-8 bytes of a text: a digest
/// that is a function of the text alone.
pub uninterp spec fn sha256_of(s: Seq<char>) -> Seq<u8>;

/// Relies on sha2::Sha256 through the Digest interface: SHA-256 yields
/// exactly 32 bytes, as a function of the input alone.
#[verifier::external_body]
fn sha256_digest(s: &str) -> (r: Vec<u8>)
    ensures
        r@ == sha256_of(s@),
        r@.len() == 32,
{
    let mut hasher = <sha2::Sha256 as sha2::Digest>::new();
    sha2::Digest::update(&mut hasher, s.as_bytes());
    sha2::Digest::finalize(hasher).to_vec()
}

/// A folded header entry: lowercase key and the value's JSON text.
pub open spec fn folded_of(h: HeaderV) -> (Seq<char>, Seq<char>) {
    (lowered(h.name), h.text)
}

/// All entries folded, in submission order.
pub open spec fn folded_headers(headers: Seq<HeaderV>) -> Seq<(Seq<char>, Seq<char>)> {
    headers.map_values(|h: HeaderV| folded_of(h))
}

/// Insert an entry behind every entry whose key does not order after
/// it: the position a stable sort gives a later arrival.
pub open spec fn insert_entry(
    s: Seq<(Seq<char>, Seq<char>)>,
    e: (Seq<char>, Seq<char>),
) -> Seq<(Seq<char>, Seq<char>)>
    decreases s.len(),
{
    if s.len() == 0 {
        seq![e]
    } else if !text_lt(e.0, s.last().0) {
        s.push(e)
    } else {
        insert_entry(s.drop_last(), e).push(s.last())
    }
}

/// The entries sorted by key, stably: entries with equal keys keep
/// their submission order.
pub open spec fn sort_entries(s: Seq<(Seq<char>, Seq<char>)>) -> Seq<(Seq<char>, Seq<char>)>
    decreases s.len(),
{
    if s.len() == 0 {
        Seq::<(Seq<char>, Seq<char>)>::empty()
    } else {
        insert_entry(sort_entries(s.drop_last()), s.last())
    }
}

/// One entry as canonical text: `key:value`.
pub open spec fn entry_text(e: (Seq<char>, Seq<char>)) -> Seq<char> {
    e.0 + ":"@ + e.1
}

/// The entries joined with `, `.
pub open spec fn joined_entries(s: Seq<(Seq<char>, Seq<char>)>) -> Seq<char>
    decreases s.len(),
{
    if s.len() == 0 {
        Seq::<char>::empty()
    } else if s.len() == 1 {
        entry_text(s[0])
    } else {
        joined_entries(s.drop_last()) + ", "@ + entry_text(s.last())
    }
}

/// The run-time component: whole epoch seconds, 0 when absent.
pub open spec fn run_ts_of(run_at_ms: Option<int>) -> int {
    match run_at_ms {
        Option::Some(t) => t / 1000,
        Option::None => 0,
    }
}

/// The canonical text that is hashed.
pub open spec fn canonical_text(
    method: Seq<char>,
    url: Seq<char>,
    body: Seq<char>,
    headers: Seq<HeaderV>,
    run_ts: int,
) -> Seq<char> {
    method + "|"@ + url + "|"@ + body + "|"@ + joined_entries(
        sort_entries(folded_headers(headers)),
    ) + "|"@ + dec_str_int(run_ts)
}

/// The fingerprint: lowercase hex of the SHA-256 of the canonical text.
/// An absent body contributes the empty text.
pub open spec fn fingerprint_v(
    method: Seq<char>,
    url: Seq<char>,
    body_text: Option<Seq<char>>,
    headers: Seq<HeaderV>,
    run_at_ms: Option<int>,
) -> Seq<char> {
    hex_str_of(
        sha256_of(
            canonical_text(
                method,
                url,
                match body_text {
                    Option::Some(b) => b,
                    Option::None => Seq::<char>::empty(),
                },
                headers,
                run_ts_of(run_at_ms),
            ),
        ),
    )
}

/// View of a folded exec pair list.
pub open spec fn pairs_view(v: Seq<(String, String)>) -> Seq<(Seq<char>, Seq<char>)> {
    v.map_values(|p: (String, String)| (p.0@, p.1@))
}

/// Where the inner scan stops is exactly where `insert_entry` splices.
proof fn lemma_insert_entry_at(s: Seq<(Seq<char>, Seq<char>)>, e: (Seq<char>, Seq<char>), j: int)
    requires
        0 <= j <= s.len(),
        forall|k: int| j <= k < s.len() ==> text_lt(e.0, (#[trigger] s[k]).0),
        j > 0 ==> !text_lt(e.0, s[j - 1].0),
    ensures
        insert_entry(s, e) == s.subrange(0, j) + seq![e] + s.subrange(j, s.len() as int),
    decreases s.len(),
{
    if s.len() == 0 {
        assert(insert_entry(s, e) =~= s.subrange(0, j) + seq![e] + s.subrange(j, s.len() as int));
    } else if !text_lt(e.0, s.last().0) {
        assert(j == s.len());
        assert(insert_entry(s, e) =~= s.subrange(0, j) + seq![e] + s.subrange(j, s.len() as int));
    } else {
        assert(j < s.len());
        let d = s.drop_last();
        assert(forall|k: int| j <= k < d.len() ==> text_lt(e.0, (#[trigger] d[k]).0));
        lemma_insert_entry_at(d, e, j);
        assert(insert_entry(s, e) =~= s.subrange(0, j) + seq![e] + s.subrange(j, s.len() as int));
    }
}

/// Fold the headers and sort them stably by key, inserting each entry
/// where the canonical order puts it.
fn folded_sorted_headers(headers: &Vec<HeaderEntry>) -> (r: Vec<(String, String)>)
    ensures
        pairs_view(r@) == sort_entries(folded_headers(headers@.map_values(|h: HeaderEntry| h@))),
{
    let ghost hview = headers@.map_values(|h: HeaderEntry| h@);
    let mut out: Vec<(String, String)> = Vec::new();
    let mut i: usize = 0;
    proof {
        assert(folded_headers(hview).take(0) =~= Seq::<(Seq<char>, Seq<char>)>::empty());
        assert(pairs_view(out@) =~= sort_entries(folded_headers(hview).take(0)));
    }
    while i < headers.len()
        invariant
            i <= headers.len(),
            hview == headers@.map_values(|h: HeaderEntry| h@),
            pairs_view(out@) == sort_entries(folded_headers(hview).take(i as int)),
        decreases headers.len() - i,
    {
        let e0 = lowercase(headers[i].name.as_str());
        let e1 = headers[i].text.clone();
        let ghost ev = (e0@, e1@);
        let ghost oldpairs = pairs_view(out@);
        let mut j: usize = out.len();
        while j > 0
            invariant
                j <= out.len(),
                ev.0 == e0@,
                pairs_view(out@) == oldpairs,
                forall|k: int|
                    j as int <= k < out@.len() ==> text_lt(ev.0, (#[trigger] pairs_view(out@)[k]).0),
            ensures
                j <= out.len(),
                pairs_view(out@) == oldpairs,
                forall|k: int|
                    j as int <= k < out@.len() ==> text_lt(ev.0, (#[trigger] pairs_view(out@)[k]).0),
                j > 0 ==> !text_lt(ev.0, pairs_view(out@)[j - 1].0),
            decreases j,
        {
            if !text_below(e0.as_str(), out[j - 1].0.as_str()) {
                break ;
            }
            proof {
                assert(pairs_view(out@)[j - 1].0 == out@[j - 1].0@);
            }
            j = j - 1;
        }
        proof {
            lemma_insert_entry_at(oldpairs, ev, j as int);
        }
        out.insert(j, (e0, e1));
        proof {
            assert(pairs_view(out@) =~= oldpairs.subrange(0, j as int) + seq![ev]
                + oldpairs.subrange(j as int, oldpairs.len() as int));
            assert(pairs_view(out@) == insert_entry(oldpairs, ev));
            assert(folded_headers(hview).take(i as int + 1).drop_last() =~= folded_headers(
                hview,
            ).take(i as int));
            assert(folded_headers(hview).take(i as int + 1).last() == folded_of(hview[i as int]));
            assert(ev == folded_of(hview[i as int]));
            assert(pairs_view(out@) == sort_entries(folded_headers(hview).take(i as int + 1)));
        }
        i = i + 1;
    }
    proof {
        assert(folded_headers(hview).take(headers@.len() as int) =~= folded_headers(hview));
    }
    out
}

/// Join sorted entries as `k1:v1, k2:v2`.
fn join_entries(pairs: &Vec<(String, String)>) -> (r: String)
    ensures
        r@ == joined_entries(pairs_view(pairs@)),
{
    let mut s = String::new();
    let mut i: usize = 0;
    proof {
        assert(pairs_view(pairs@).take(0) =~= Seq::<(Seq<char>, Seq<char>)>::empty());
        assert(s@ =~= joined_entries(pairs_view(pairs@).take(0)));
    }
    while i < pairs.len()
        invariant
            i <= pairs.len(),
            s@ == joined_entries(pairs_view(pairs@).take(i as int)),
        decreases pairs.len() - i,
    {
        if i > 0 {
            s.append(", ");
        }
        s.append(pairs[i].0.as_str());
        s.append(":");
        s.append(pairs[i].1.as_str());
        proof {
            let pv = pairs_view(pairs@);
            assert(pv.take(i as int + 1).drop_last() =~= pv.take(i as int));
            assert(pv.take(i as int + 1).last() == pv[i as int]);
            assert(s@ =~= joined_entries(pv.take(i as int + 1)));
        }
        i = i + 1;
    }
    proof {
        assert(pairs_view(pairs@).take(pairs@.len() as int) =~= pairs_view(pairs@));
    }
    s
}

/// The 64-character lowercase hex fingerprint of a submission.
///
/// Submissions that agree on method, URL, folded headers, body text and
/// run second agree on it; its value is pinned to the SHA-256 of the
/// canonical text.
pub fn fingerprint(
    method: &str,
    url: &str,
    headers: &Vec<HeaderEntry>,
    body_text: Option<&String>,
    run_at_ms: Option<i64>,
) -> (r: String)
    ensures
        r@ == fingerprint_v(
            method@,
            url@,
            match body_text {
                Option::Some(b) => Option::Some(b@),
                Option::None => Option::None,
            },
            headers@.map_values(|h: HeaderEntry| h@),
            match run_at_ms {
                Option::Some(t) => Option::Some(t as int),
                Option::None => Option::None,
            },
        ),
        r@.len() == 64,
{
    let sorted = folded_sorted_headers(headers);
    let headers_str = join_entries(&sorted);
    let run_ts: i64 = match run_at_ms {
        Option::Some(t) => ms_to_seconds_floor(t),
        Option::None => 0,
    };
    let run_str = i64_dec_str(run_ts);
    let mut canon = String::new();
    canon.append(method);
    canon.append("|");
    canon.append(url);
    canon.append("|");
    match body_text {
        Option::Some(b) => canon.append(b.as_str()),
        Option::None => (),
    }
    canon.append("|");
    canon.append(headers_str.as_str());
    canon.append("|");
    canon.append(run_str.as_str());
    proof {
        let bodyv = match body_text {
            Option::Some(b) => b@,
            Option::None => Seq::<char>::empty(),
        };
        let runv = match run_at_ms {
            Option::Some(t) => Option::Some(t as int),
            Option::None => Option::<int>::None,
        };
        assert(run_ts as int == run_ts_of(runv));
        assert(canon@ =~= canonical_text(
            method@,
            url@,
            bodyv,
            headers@.map_values(|h: HeaderEntry| h@),
            run_ts as int,
        ));
    }
    let digest = sha256_digest(canon.as_str());
    let r = hex_encode(&digest);
    proof {
        lemma_hex_str_len(digest@);
    }
    r
}


/// Keys never decrease along the sequence.
pub open spec fn sorted_keys(s: Seq<(Seq<char>, Seq<char>)>) -> bool {
    forall|a: int, b: int|
        0 <= a < b < s.len() ==> !text_lt((#[trigger] s[b]).0, (#[trigger] s[a]).0)
}

/// No two entries share a folded key.
pub open spec fn distinct_keys(s: Seq<(Seq<char>, Seq<char>)>) -> bool {
    forall|a: int, b: int|
        0 <= a < s.len() && 0 <= b < s.len() && a != b ==> (#[trigger] s[a]).0 != (
        #[trigger] s[b]).0
}

/// Inserting into a key-sorted sequence keeps it sorted, adds exactly
/// the new entry to the contents, and invents no entry.
proof fn lemma_insert_entry_props(s: Seq<(Seq<char>, Seq<char>)>, e: (Seq<char>, Seq<char>))
    requires
        sorted_keys(s),
    ensures
        sorted_keys(insert_entry(s, e)),
        insert_entry(s, e).to_multiset() == s.to_multiset().insert(e),
        insert_entry(s, e).len() == s.len() + 1,
        forall|k: int|
            0 <= k < insert_entry(s, e).len() ==> insert_entry(s, e)[k] == e || s.contains(
                #[trigger] insert_entry(s, e)[k],
            ),
    decreases s.len(),
{
    broadcast use vstd::seq_lib::group_to_multiset_ensures;
    broadcast use vstd::multiset::group_multiset_axioms;

    let r = insert_entry(s, e);
    if s.len() == 0 {
        assert(r =~= Seq::<(Seq<char>, Seq<char>)>::empty().push(e));
        assert(r.to_multiset() =~= s.to_multiset().insert(e));
    } else if !text_lt(e.0, s.last().0) {
        assert(r == s.push(e));
        assert forall|a: int, b: int| 0 <= a < b < r.len() implies !text_lt(
            (#[trigger] r[b]).0,
            (#[trigger] r[a]).0,
        ) by {
            if b == s.len() {
                crate::order::lemma_text_lt_trichotomy(s[a].0, s.last().0);
                if text_lt(e.0, s[a].0) {
                    if text_lt(s[a].0, s.last().0) {
                        crate::order::lemma_text_lt_trans(e.0, s[a].0, s.last().0);
                    }
                }
            }
        }
    } else {
        let d = s.drop_last();
        assert(forall|a: int, b: int|
            0 <= a < b < d.len() ==> !text_lt((#[trigger] d[b]).0, (#[trigger] d[a]).0));
        lemma_insert_entry_props(d, e);
        let rd = insert_entry(d, e);
        assert(r == rd.push(s.last()));
        // contents: d plus e, then the old last on top
        assert(s =~= d.push(s.last()));
        assert(s.to_multiset() == d.to_multiset().insert(s.last()));
        assert(r.to_multiset() == rd.to_multiset().insert(s.last()));
        assert(r.to_multiset() =~= s.to_multiset().insert(e));
        // order: everything below the reattached last is at or below it
        assert forall|a: int, b: int| 0 <= a < b < r.len() implies !text_lt(
            (#[trigger] r[b]).0,
            (#[trigger] r[a]).0,
        ) by {
            if b == r.len() - 1 {
                if r[a] == e {
                    crate::order::lemma_text_lt_trichotomy(e.0, s.last().0);
                } else {
                    assert(d.contains(r[a]));
                    let m = choose|m: int| 0 <= m < d.len() && d[m] == r[a];
                    assert(s[m] == d[m]);
                    assert(!text_lt(s.last().0, s[m].0));
                }
            }
        }
        assert forall|k: int| 0 <= k < r.len() implies r[k] == e || s.contains(#[trigger] r[k]) by {
            if k < r.len() - 1 {
                if rd[k] != e {
                    assert(d.contains(rd[k]));
                    let m = choose|m: int| 0 <= m < d.len() && d[m] == rd[k];
                    assert(s[m] == rd[k]);
                }
            } else {
                assert(r[k] == s.last());
                assert(s[s.len() - 1] == s.last());
            }
        }
    }
}

/// The stable sort orders the entries by key and neither loses, invents
/// nor multiplies an entry.
pub proof fn lemma_sort_entries_props(s: Seq<(Seq<char>, Seq<char>)>)
    ensures
        sorted_keys(sort_entries(s)),
        sort_entries(s).to_multiset() == s.to_multiset(),
        sort_entries(s).len() == s.len(),
    decreases s.len(),
{
    broadcast use vstd::seq_lib::group_to_multiset_ensures;
    broadcast use vstd::multiset::group_multiset_axioms;

    if s.len() > 0 {
        let d = s.drop_last();
        lemma_sort_entries_props(d);
        lemma_insert_entry_props(sort_entries(d), s.last());
        assert(s =~= d.push(s.last()));
        assert(s.to_multiset() == d.to_multiset().insert(s.last()));
    }
}

/// Two key-sorted sequences with the same contents are the same
/// sequence, when no key repeats.
proof fn lemma_sorted_unique(s1: Seq<(Seq<char>, Seq<char>)>, s2: Seq<(Seq<char>, Seq<char>)>)
    requires
        sorted_keys(s1),
        sorted_keys(s2),
        distinct_keys(s1),
        s1.to_multiset() == s2.to_multiset(),
    ensures
        s1 == s2,
    decreases s1.len(),
{
    broadcast use vstd::seq_lib::group_to_multiset_ensures;
    broadcast use vstd::multiset::group_multiset_axioms;

    assert(s1.len() == s1.to_multiset().len());
    assert(s2.len() == s2.to_multiset().len());
    if s1.len() == 0 {
        assert(s1 =~= s2);
    } else {
        let x = s1.last();
        let y = s2.last();
        assert(s1[s1.len() - 1] == x);
        assert(s2[s2.len() - 1] == y);
        assert(s1.contains(x));
        assert(s2.contains(y));
        assert(s2.to_multiset().contains(x));
        assert(s1.to_multiset().contains(y));
        assert(s2.contains(x));
        assert(s1.contains(y));
        let k = choose|k: int| 0 <= k < s2.len() && s2[k] == x;
        let m = choose|m: int| 0 <= m < s1.len() && s1[m] == y;
        if m < s1.len() - 1 {
            assert(!text_lt(x.0, y.0));
        }
        if k < s2.len() - 1 {
            assert(!text_lt(y.0, x.0));
        }
        if x != y {
            assert(m < s1.len() - 1);
            assert(k < s2.len() - 1);
            crate::order::lemma_text_lt_trichotomy(x.0, y.0);
            assert(x.0 == y.0);
            assert(s1[m].0 != s1[s1.len() - 1].0);
            assert(false);
        }
        let d1 = s1.drop_last();
        let d2 = s2.drop_last();
        assert(d1 =~= s1.remove(s1.len() - 1));
        assert(d2 =~= s2.remove(s2.len() - 1));
        assert(d1.to_multiset() == s1.to_multiset().remove(x));
        assert(d2.to_multiset() == s2.to_multiset().remove(y));
        assert(forall|a: int, b: int|
            0 <= a < b < d1.len() ==> !text_lt((#[trigger] d1[b]).0, (#[trigger] d1[a]).0));
        assert(forall|a: int, b: int|
            0 <= a < b < d2.len() ==> !text_lt((#[trigger] d2[b]).0, (#[trigger] d2[a]).0));
        assert(forall|a: int, b: int|
            0 <= a < d1.len() && 0 <= b < d1.len() && a != b ==> (#[trigger] d1[a]).0 != (
            #[trigger] d1[b]).0);
        lemma_sorted_unique(d1, d2);
        assert(x == y);
        assert forall|i: int| 0 <= i < s1.len() implies s1[i] == s2[i] by {
            if i < s1.len() - 1 {
                assert(d1[i] == s1[i]);
                assert(d2[i] == s2[i]);
                assert(d1[i] == d2[i]);
            }
        }
        assert(s1 =~= s2);
    }
}

/// Distinct folded keys survive the sort.
proof fn lemma_distinct_keys_sorted(f: Seq<(Seq<char>, Seq<char>)>)
    requires
        distinct_keys(f),
    ensures
        distinct_keys(sort_entries(f)),
{
    broadcast use vstd::seq_lib::group_to_multiset_ensures;
    broadcast use vstd::multiset::group_multiset_axioms;

    lemma_sort_entries_props(f);
    let s = sort_entries(f);
    assert(f.no_duplicates()) by {
        assert forall|i: int, j: int|
            0 <= i < f.len() && 0 <= j < f.len() && i != j implies f[i] != f[j] by {
            assert(f[i].0 != f[j].0);
        }
    }
    f.lemma_multiset_has_no_duplicates();
    s.lemma_multiset_has_no_duplicates_conv();
    assert forall|a: int, b: int|
        0 <= a < s.len() && 0 <= b < s.len() && a != b implies (#[trigger] s[a]).0 != (
    #[trigger] s[b]).0 by {
        if s[a].0 == s[b].0 {
            assert(s[a] != s[b]);
            assert(s.contains(s[a]));
            assert(s.contains(s[b]));
            assert(f.to_multiset().contains(s[a]));
            assert(f.to_multiset().contains(s[b]));
            assert(f.contains(s[a]));
            assert(f.contains(s[b]));
            let p = choose|p: int| 0 <= p < f.len() && f[p] == s[a];
            let q = choose|q: int| 0 <= q < f.len() && f[q] == s[b];
            assert(p != q);
            assert(f[p].0 != f[q].0);
            assert(false);
        }
    }
}

/// Reordering the header entries does not change the fingerprint, as
/// long as no two entries fold to the same key. (With duplicate folded
/// keys the stable sort keeps submission order, so the order of such
/// entries can reach the hash.)
pub proof fn lemma_fingerprint_header_order(
    method: Seq<char>,
    url: Seq<char>,
    body_text: Option<Seq<char>>,
    h1: Seq<HeaderV>,
    h2: Seq<HeaderV>,
    run_at_ms: Option<int>,
)
    requires
        folded_headers(h1).to_multiset() == folded_headers(h2).to_multiset(),
        distinct_keys(folded_headers(h1)),
    ensures
        fingerprint_v(method, url, body_text, h1, run_at_ms) == fingerprint_v(
            method,
            url,
            body_text,
            h2,
            run_at_ms,
        ),
{
    lemma_sort_entries_props(folded_headers(h1));
    lemma_sort_entries_props(folded_headers(h2));
    lemma_distinct_keys_sorted(folded_headers(h1));
    lemma_sorted_unique(sort_entries(folded_headers(h1)), sort_entries(folded_headers(h2)));
}

/// Changing only the case of header keys — so that each entry folds to
/// the same key and value as before — does not change the fingerprint.
pub proof fn lemma_fingerprint_key_casing(
    method: Seq<char>,
    url: Seq<char>,
    body_text: Option<Seq<char>>,
    h1: Seq<HeaderV>,
    h2: Seq<HeaderV>,
    run_at_ms: Option<int>,
)
    requires
        h1.len() == h2.len(),
        forall|i: int|
            0 <= i < h1.len() ==> lowered((#[trigger] h1[i]).name) == lowered(h2[i].name)
                && h1[i].text == h2[i].text,
    ensures
        fingerprint_v(method, url, body_text, h1, run_at_ms) == fingerprint_v(
            method,
            url,
            body_text,
            h2,
            run_at_ms,
        ),
{
    assert(folded_headers(h1) =~= folded_headers(h2));
}

} // verus!

