//! The library-wide search: which artists, albums, genres, years and folders
//! a query matches.
//!
//! Songs are searched by the database's full-text index (see [`crate::db`]);
//! the other sections are filtered here. A name matches when its lower-cased
//! text contains the lower-cased query, and each section shows at most
//! [`SECTION_LIMIT`] results, in library order.

use vstd::prelude::*;

use crate::models::{Album, Artist};
use crate::text::{
    chars_of, contains_infix, has_infix, push_signed_decimal, spec_to_lowercase,
    signed_decimal, to_lowercase,
};

verus! {

/// How many results each section shows at most.
pub const SECTION_LIMIT: usize = 20;

/// The elements of `s` that satisfy `p`, in order.
pub open spec fn keep_where<T>(s: Seq<T>, p: spec_fn(T) -> bool) -> Seq<T>
    decreases s.len(),
{
    if s.len() == 0 {
        s
    } else if p(s.last()) {
        keep_where(s.drop_last(), p).push(s.last())
    } else {
        keep_where(s.drop_last(), p)
    }
}

/// The first `n` elements of `s`, or all of them when there are fewer.
pub open spec fn at_most<T>(s: Seq<T>, n: nat) -> Seq<T> {
    if s.len() <= n {
        s
    } else {
        s.take(n as int)
    }
}

/// The first [`SECTION_LIMIT`] elements of `s` that satisfy `p`.
pub open spec fn section<T>(s: Seq<T>, p: spec_fn(T) -> bool) -> Seq<T> {
    at_most(keep_where(s, p), SECTION_LIMIT as nat)
}

/// Whether a name matches a lower-cased query.
pub open spec fn name_matches(name: Seq<char>, key: Seq<char>) -> bool {
    has_infix(spec_to_lowercase(name), key)
}

/// The key a query is matched with: its lower-cased text.
pub open spec fn search_key(query: Seq<char>) -> Seq<char> {
    spec_to_lowercase(query)
}

proof fn lemma_section_step<T>(s: Seq<T>, p: spec_fn(T) -> bool, i: int)
    requires
        0 <= i < s.len(),
    ensures
        section(s.take(i + 1), p) == if p(s[i]) && section(s.take(i), p).len()
            < SECTION_LIMIT {
            section(s.take(i), p).push(s[i])
        } else {
            section(s.take(i), p)
        },
{
    let n = SECTION_LIMIT as nat;
    assert(s.take(i + 1).drop_last() =~= s.take(i));
    assert(s.take(i + 1).last() == s[i]);
    let k = keep_where(s.take(i), p);
    if p(s[i]) {
        assert(keep_where(s.take(i + 1), p) == k.push(s[i]));
        if k.len() < n {
        } else {
            assert(k.push(s[i]).take(n as int) =~= k.take(n as int));
            if k.len() == n {
                assert(k.take(n as int) =~= k);
            }
        }
    } else {
        assert(keep_where(s.take(i + 1), p) == k);
    }
}

/// Every element of a section satisfies the filter, comes from the input in
/// the input's order, and a section holds at most [`SECTION_LIMIT`] elements.
pub proof fn law_section_is_a_capped_filter<T>(s: Seq<T>, p: spec_fn(T) -> bool)
    ensures
        section(s, p).len() <= SECTION_LIMIT,
        section(s, p).len() <= s.len(),
        forall|i: int| 0 <= i < section(s, p).len() ==> p(#[trigger] section(s, p)[i]),
        section(s, p) == at_most(keep_where(s, p), SECTION_LIMIT as nat),
{
    lemma_keep_where(s, p);
}

proof fn lemma_keep_where<T>(s: Seq<T>, p: spec_fn(T) -> bool)
    ensures
        keep_where(s, p).len() <= s.len(),
        forall|i: int| 0 <= i < keep_where(s, p).len() ==> p(#[trigger] keep_where(s, p)[i]),
    decreases s.len(),
{
    if s.len() > 0 {
        lemma_keep_where(s.drop_last(), p);
        let k = keep_where(s.drop_last(), p);
        if p(s.last()) {
            assert forall|i: int| 0 <= i < k.len() + 1 implies p(#[trigger] k.push(s.last())[i]) by {
                if i < k.len() {
                    assert(k.push(s.last())[i] == k[i]);
                }
            }
        }
    }
}

/// Whether `name` matches the lower-cased query `key`.
fn name_hits(name: &str, key: &Vec<char>) -> (r: bool)
    ensures
        r == has_infix(spec_to_lowercase(name@), key@),
{
    let lowered = to_lowercase(name);
    contains_infix(&chars_of(lowered.as_str()), key)
}

/// The lower-cased query.
fn key_of(query: &str) -> (r: Vec<char>)
    ensures
        r@ == search_key(query@),
{
    let lowered = to_lowercase(query);
    chars_of(lowered.as_str())
}

/// The artists whose name matches `query`.
pub fn matching_artists(artists: &Vec<Artist>, query: &str) -> (r: Vec<Artist>)
    ensures
        r@ == section(artists@, |a: Artist| name_matches(a.name@, search_key(query@))),
{
    let key = key_of(query);
    let ghost p = |a: Artist| name_matches(a.name@, search_key(query@));
    let mut out: Vec<Artist> = Vec::new();
    for i in 0..artists.len()
        invariant
            key@ == search_key(query@),
            p == (|a: Artist| name_matches(a.name@, search_key(query@))),
            out@ == section(artists@.take(i as int), p),
    {
        proof {
            lemma_section_step(artists@, p, i as int);
        }
        if out.len() < SECTION_LIMIT && name_hits(artists[i].name.as_str(), &key) {
            out.push(artists[i].copy());
        }
    }
    assert(artists@.take(artists@.len() as int) =~= artists@);
    out
}

/// The albums whose name matches `query`.
pub fn matching_albums(albums: &Vec<Album>, query: &str) -> (r: Vec<Album>)
    ensures
        r@ == section(albums@, |a: Album| name_matches(a.name@, search_key(query@))),
{
    let key = key_of(query);
    let ghost p = |a: Album| name_matches(a.name@, search_key(query@));
    let mut out: Vec<Album> = Vec::new();
    for i in 0..albums.len()
        invariant
            key@ == search_key(query@),
            p == (|a: Album| name_matches(a.name@, search_key(query@))),
            out@ == section(albums@.take(i as int), p),
    {
        proof {
            lemma_section_step(albums@, p, i as int);
        }
        if out.len() < SECTION_LIMIT && name_hits(albums[i].name.as_str(), &key) {
            out.push(albums[i].copy());
        }
    }
    assert(albums@.take(albums@.len() as int) =~= albums@);
    out
}

/// The names (genres, or folder paths as displayed) that match `query`.
pub fn matching_names(names: &Vec<String>, query: &str) -> (r: Vec<String>)
    ensures
        r@ == section(names@, |n: String| name_matches(n@, search_key(query@))),
{
    let key = key_of(query);
    let ghost p = |n: String| name_matches(n@, search_key(query@));
    let mut out: Vec<String> = Vec::new();
    for i in 0..names.len()
        invariant
            key@ == search_key(query@),
            p == (|n: String| name_matches(n@, search_key(query@))),
            out@ == section(names@.take(i as int), p),
    {
        proof {
            lemma_section_step(names@, p, i as int);
        }
        if out.len() < SECTION_LIMIT && name_hits(names[i].as_str(), &key) {
            out.push(names[i].clone());
        }
    }
    assert(names@.take(names@.len() as int) =~= names@);
    out
}

/// The genres that match `query`.
pub fn matching_genres(genres: &Vec<String>, query: &str) -> (r: Vec<String>)
    ensures
        r@ == section(genres@, |n: String| name_matches(n@, search_key(query@))),
{
    matching_names(genres, query)
}

/// The library folders whose displayed path matches `query`.
pub fn matching_folders(folders: &Vec<String>, query: &str) -> (r: Vec<String>)
    ensures
        r@ == section(folders@, |n: String| name_matches(n@, search_key(query@))),
{
    matching_names(folders, query)
}

/// The years whose decimal text contains the lower-cased `query`.
pub fn matching_years(years: &Vec<i32>, query: &str) -> (r: Vec<i32>)
    ensures
        r@ == section(years@, |y: i32| has_infix(signed_decimal(y as int), search_key(query@))),
{
    let key = key_of(query);
    let ghost p = |y: i32| has_infix(signed_decimal(y as int), search_key(query@));
    let mut out: Vec<i32> = Vec::new();
    for i in 0..years.len()
        invariant
            key@ == search_key(query@),
            p == (|y: i32| has_infix(signed_decimal(y as int), search_key(query@))),
            out@ == section(years@.take(i as int), p),
    {
        proof {
            lemma_section_step(years@, p, i as int);
        }
        if out.len() < SECTION_LIMIT {
            let mut text: Vec<char> = Vec::new();
            push_signed_decimal(years[i] as i64, &mut text);
            assert(text@ =~= signed_decimal(years@[i as int] as int));
            if contains_infix(&text, &key) {
                out.push(years[i]);
            }
        }
    }
    assert(years@.take(years@.len() as int) =~= years@);
    out
}

// ---------------------------------------------------------------------------
// Newest albums
// ---------------------------------------------------------------------------

/// How many albums the library home shows as recently added.
pub const RECENT_ALBUMS: usize = 12;

/// The position of the first album with the largest id.
pub open spec fn first_max_index(s: Seq<Album>) -> int
    decreases s.len(),
{
    if s.len() <= 1 {
        0
    } else {
        let j = first_max_index(s.drop_last());
        if s.last().id.0 > s[j].id.0 {
            s.len() - 1
        } else {
            j
        }
    }
}

/// The albums by id, largest first; albums with equal ids keep their order
/// (a stable sort).
pub open spec fn by_id_desc(s: Seq<Album>) -> Seq<Album>
    decreases s.len(),
{
    if s.len() == 0 {
        s
    } else {
        let i = first_max_index(s);
        proof {
            lemma_first_max_in_range(s);
        }
        seq![s[i]] + by_id_desc(s.remove(i))
    }
}

/// The first largest album lies within the sequence.
pub proof fn lemma_first_max_in_range(s: Seq<Album>)
    requires
        s.len() > 0,
    ensures
        0 <= first_max_index(s) < s.len(),
    decreases s.len(),
{
    if s.len() > 1 {
        lemma_first_max_in_range(s.drop_last());
    }
}

proof fn lemma_by_id_desc_len(s: Seq<Album>)
    ensures
        by_id_desc(s).len() == s.len(),
    decreases s.len(),
{
    if s.len() > 0 {
        lemma_first_max_in_range(s);
        lemma_by_id_desc_len(s.remove(first_max_index(s)));
    }
}

proof fn lemma_first_max_is_max(s: Seq<Album>)
    requires
        s.len() > 0,
    ensures
        forall|k: int| 0 <= k < s.len() ==> (#[trigger] s[k]).id.0 <= s[first_max_index(s)].id.0,
    decreases s.len(),
{
    if s.len() > 1 {
        let p = s.drop_last();
        lemma_first_max_is_max(p);
        lemma_first_max_in_range(p);
        let j = first_max_index(p);
        assert(p[j] == s[j]);
        assert forall|k: int| 0 <= k < s.len() implies (#[trigger] s[k]).id.0 <= s[first_max_index(
            s,
        )].id.0 by {
            if k < s.len() - 1 {
                assert(p[k] == s[k]);
            }
        }
    }
}

/// Recently added albums come newest first: ordering by id keeps every
/// album exactly once and puts larger ids before smaller ones.
pub proof fn law_newest_first(s: Seq<Album>)
    ensures
        by_id_desc(s).len() == s.len(),
        by_id_desc(s).to_multiset() == s.to_multiset(),
        forall|i: int, j: int|
            0 <= i < j < by_id_desc(s).len() ==> (#[trigger] by_id_desc(s)[i]).id.0 >= (
            #[trigger] by_id_desc(s)[j]).id.0,
    decreases s.len(),
{
    broadcast use vstd::seq_lib::group_to_multiset_ensures;

    if s.len() == 0 {
        assert(by_id_desc(s) =~= s);
    } else {
        lemma_first_max_in_range(s);
        lemma_first_max_is_max(s);
        let m = first_max_index(s);
        let rest = s.remove(m);
        law_newest_first(rest);
        let r = by_id_desc(rest);
        let out = by_id_desc(s);
        assert(out == seq![s[m]] + r);
        vstd::seq_lib::to_multiset_remove(s, m);
        vstd::seq_lib::lemma_multiset_commutative(seq![s[m]], r);
        assert(seq![s[m]].to_multiset() =~= vstd::multiset::Multiset::empty().insert(s[m])) by {
            assert(seq![s[m]] =~= Seq::<Album>::empty().push(s[m]));
        }
        assert(out.to_multiset() =~= s.to_multiset());
        assert forall|k: int| 0 <= k < r.len() implies (#[trigger] r[k]).id.0 <= s[m].id.0 by {
            assert(r.contains(r[k]));
            vstd::seq_lib::to_multiset_contains(r, r[k]);
            vstd::seq_lib::to_multiset_contains(rest, r[k]);
            let q = choose|q: int| 0 <= q < rest.len() && rest[q] == r[k];
            if q < m {
                assert(rest[q] == s[q]);
            } else {
                assert(rest[q] == s[q + 1]);
            }
        }
        assert forall|i: int, j: int|
            0 <= i < j < out.len() implies (#[trigger] out[i]).id.0 >= (#[trigger] out[j]).id.0 by {
            assert(out[j] == r[j - 1]);
            if i > 0 {
                assert(out[i] == r[i - 1]);
            } else {
                assert(out[i] == s[m]);
            }
        }
    }
}

fn first_max_position(s: &Vec<Album>) -> (r: usize)
    requires
        s@.len() > 0,
    ensures
        r == first_max_index(s@),
        r < s@.len(),
{
    let mut best: usize = 0;
    for i in 1..s.len()
        invariant
            s@.len() > 0,
            best < i,
            best == first_max_index(s@.take(i as int)),
    {
        let ghost pre = s@.take(i as int);
        let ghost next = s@.take(i + 1);
        assert(next.drop_last() =~= pre);
        assert(next.last() == s@[i as int]);
        assert(next[best as int] == s@[best as int]);
        if s[i].id.0 > s[best].id.0 {
            best = i;
        }
    }
    assert(s@.take(s@.len() as int) =~= s@);
    best
}

/// The most recently added albums for the library home: the albums by id,
/// largest first (a stable sort), at most [`RECENT_ALBUMS`] of them.
pub fn recent_albums(albums: &Vec<Album>) -> (r: Vec<Album>)
    ensures
        r@ == at_most(by_id_desc(albums@), RECENT_ALBUMS as nat),
{
    let mut rest: Vec<Album> = Vec::new();
    for i in 0..albums.len()
        invariant
            rest@ == albums@.take(i as int),
    {
        rest.push(albums[i].copy());
        assert(rest@ =~= albums@.take(i + 1));
    }
    assert(albums@.take(albums@.len() as int) =~= albums@);
    let mut out: Vec<Album> = Vec::new();
    proof {
        lemma_by_id_desc_len(albums@);
    }
    while out.len() < RECENT_ALBUMS && rest.len() > 0
        invariant
            by_id_desc(albums@) == out@ + by_id_desc(rest@),
            out@.len() <= RECENT_ALBUMS,
            by_id_desc(albums@).len() == albums@.len(),
        decreases rest@.len(),
    {
        let i = first_max_position(&rest);
        let ghost before = rest@;
        let a = rest.remove(i);
        assert(by_id_desc(before) == seq![before[i as int]] + by_id_desc(before.remove(i as int)));
        out.push(a);
        assert(out@ + by_id_desc(rest@) =~= (out@.drop_last() + seq![a]) + by_id_desc(rest@));
    }
    proof {
        lemma_by_id_desc_len(rest@);
        if rest@.len() == 0 {
            assert(by_id_desc(rest@) =~= Seq::<Album>::empty());
            assert(by_id_desc(albums@) =~= out@);
        } else {
            assert(out@.len() == RECENT_ALBUMS);
            assert(by_id_desc(albums@).take(RECENT_ALBUMS as int) =~= out@);
        }
    }
    out
}

} // verus!
