//! Path operations and the XDG base-directory locations of Cadence's data and
//! caches.
//!
//! Paths are carried as `String`s. Their component-wise meaning is that of
//! `std::path::Path` on Unix, reached through small wrappers whose results
//! are named by the `spec_path_*` functions below. Equality of paths and
//! "lies below" are stated over the components.

use vstd::prelude::*;

use crate::models::eq_lit;
use crate::text::{ascii_lower_seq, ascii_lowercase, chars_of, opt_text, string_of};
use crate::APP_NAME;

verus! {

/// What `Path::join` returns for `base.join(rel)`.
pub uninterp spec fn spec_path_join(base: Seq<char>, rel: Seq<char>) -> Seq<char>;


/// What `Path::components` yields for `p`, each component as text: `/` for
/// the root, `.` and `..` as such, and every other component as its name.
pub uninterp spec fn spec_path_components(p: Seq<char>) -> Seq<Seq<char>>;

/// Whether two paths are equal as `Path`s: they have the same components.
pub open spec fn spec_path_eq(a: Seq<char>, b: Seq<char>) -> bool {
    spec_path_components(a) == spec_path_components(b)
}

/// Whether the components of `base` begin those of `p`
/// (`Path::starts_with`: only whole components match).
pub open spec fn spec_path_starts_with(p: Seq<char>, base: Seq<char>) -> bool {
    let c = spec_path_components(p);
    let b = spec_path_components(base);
    b.len() <= c.len() && c.take(b.len() as int) == b
}

/// Path equality is an equivalence: every path equals itself, equality is
/// symmetric and transitive; a path lies below itself.
pub proof fn law_path_eq_is_equivalence(a: Seq<char>, b: Seq<char>, c: Seq<char>)
    ensures
        spec_path_eq(a, a),
        spec_path_eq(a, b) == spec_path_eq(b, a),
        spec_path_eq(a, b) && spec_path_eq(b, c) ==> spec_path_eq(a, c),
        spec_path_starts_with(a, a),
{
    assert(spec_path_components(a).take(spec_path_components(a).len() as int)
        =~= spec_path_components(a));
}

/// The file name of a path (`Path::file_name`): its last component when
/// that is a name, not the root, `.` or `..`.
pub open spec fn spec_path_file_name(p: Seq<char>) -> Option<Seq<char>> {
    let c = spec_path_components(p);
    if c.len() > 0 && c.last() != "/"@ && c.last() != "."@ && c.last() != ".."@ {
        Some(c.last())
    } else {
        None
    }
}

/// The position of the last `.` of a name, if any.
pub open spec fn last_dot(n: Seq<char>) -> Option<int>
    decreases n.len(),
{
    if n.len() == 0 {
        None
    } else if n.last() == '.' {
        Some(n.len() - 1)
    } else {
        last_dot(n.drop_last())
    }
}

/// The extension of a path (`Path::extension`): none without a file name,
/// without a `.` in it, or when its only `.` comes first; otherwise what
/// follows its last `.`.
pub open spec fn spec_path_extension(p: Seq<char>) -> Option<Seq<char>> {
    match spec_path_file_name(p) {
        Some(n) => match last_dot(n) {
            Some(k) => if k > 0 {
                Some(n.skip(k + 1))
            } else {
                None
            },
            None => None,
        },
        None => None,
    }
}

/// The stem of a path (`Path::file_stem`): none without a file name; the
/// whole name without a `.` in it or when its only `.` comes first;
/// otherwise what precedes its last `.`.
pub open spec fn spec_path_file_stem(p: Seq<char>) -> Option<Seq<char>> {
    match spec_path_file_name(p) {
        Some(n) => match last_dot(n) {
            Some(k) => if k > 0 {
                Some(n.take(k))
            } else {
                Some(n)
            },
            None => Some(n),
        },
        None => None,
    }
}

/// Calls `Path::join` on `base` and `rel`. The result is a function of the
/// two texts alone, named by [`spec_path_join`]; joining UTF-8 texts gives
/// UTF-8, so the conversion back to `String` loses nothing.
#[verifier::external_body]
pub(crate) fn path_join(base: &str, rel: &str) -> (r: String)
    ensures
        r@ == spec_path_join(base@, rel@),
{
    std::path::Path::new(base).join(rel).to_string_lossy().into_owned()
}

/// The file name of a path, as characters.
fn file_name_chars(p: &str) -> (r: Option<Vec<char>>)
    ensures
        match r {
            Some(n) => spec_path_file_name(p@) == Some(n@),
            None => spec_path_file_name(p@) is None,
        },
{
    let comps = path_components(p);
    let n = comps.len();
    if n == 0 {
        return None;
    }
    let last = chars_of(comps[n - 1].as_str());
    assert(last@ == spec_path_components(p@).last());
    if eq_lit(&last, "/") || eq_lit(&last, ".") || eq_lit(&last, "..") {
        None
    } else {
        Some(last)
    }
}

/// The position of the last `.` of `n`, if any.
fn find_last_dot(n: &Vec<char>) -> (r: Option<usize>)
    ensures
        match r {
            Some(k) => last_dot(n@) == Some(k as int) && k < n@.len(),
            None => last_dot(n@) is None,
        },
{
    let mut i: usize = n.len();
    assert(n@.take(i as int) =~= n@);
    while i > 0
        invariant
            i <= n@.len(),
            last_dot(n@) == last_dot(n@.take(i as int)),
        decreases i,
    {
        if n[i - 1] == '.' {
            return Some(i - 1);
        }
        assert(n@.take(i as int).drop_last() =~= n@.take(i - 1));
        i = i - 1;
    }
    None
}

/// The characters of `n` from `a` up to `b`.
fn chars_between(n: &Vec<char>, a: usize, b: usize) -> (r: String)
    requires
        a <= b <= n@.len(),
    ensures
        r@ == n@.subrange(a as int, b as int),
{
    let mut out: Vec<char> = Vec::new();
    for k in a..b
        invariant
            a <= b <= n@.len(),
            out@ == n@.subrange(a as int, k as int),
    {
        out.push(n[k]);
        assert(out@ =~= n@.subrange(a as int, k + 1));
    }
    string_of(&out)
}

/// The extension of a path (`Path::extension`).
pub fn path_extension(p: &str) -> (r: Option<String>)
    ensures
        r matches Some(e) ==> spec_path_extension(p@) == Some(e@),
        r is None ==> spec_path_extension(p@) is None,
{
    match file_name_chars(p) {
        Some(n) => match find_last_dot(&n) {
            Some(k) => if k > 0 {
                let len = n.len();
                let e = chars_between(&n, k + 1, len);
                assert(n@.subrange(k + 1, n@.len() as int) =~= n@.skip(k + 1));
                Some(e)
            } else {
                None
            },
            None => None,
        },
        None => None,
    }
}

/// Calls `Path::components` and converts each component to text. The
/// result is a function of the path alone, named by
/// [`spec_path_components`]; components of a UTF-8 text are UTF-8, so the
/// conversion loses nothing.
#[verifier::external_body]
pub(crate) fn path_components(p: &str) -> (r: Vec<String>)
    ensures
        r@.len() == spec_path_components(p@).len(),
        forall|i: int| 0 <= i < r@.len() ==> (#[trigger] r@[i])@ == spec_path_components(p@)[i],
{
    let mut out: Vec<String> = Vec::new();
    for c in std::path::Path::new(p).components() {
        out.push(c.as_os_str().to_string_lossy().into_owned());
    }
    out
}

/// Whether the first `n` components of `a` and `b` are the same texts.
fn same_components(a: &Vec<String>, b: &Vec<String>, n: usize) -> (r: bool)
    requires
        n <= a@.len(),
        n <= b@.len(),
    ensures
        r == forall|i: int| 0 <= i < n ==> (#[trigger] a@[i])@ == b@[i]@,
{
    for i in 0..n
        invariant
            n <= a@.len(),
            n <= b@.len(),
            forall|k: int| 0 <= k < i ==> (#[trigger] a@[k])@ == b@[k]@,
    {
        if a[i] != b[i] {
            assert(a@[i as int]@ != b@[i as int]@);
            return false;
        }
    }
    true
}

/// Whether two texts are the same path (`==` on `Path`s).
pub fn paths_equal(a: &str, b: &str) -> (r: bool)
    ensures
        r == spec_path_eq(a@, b@),
{
    let ca = path_components(a);
    let cb = path_components(b);
    if ca.len() != cb.len() {
        return false;
    }
    let r = same_components(&ca, &cb, ca.len());
    proof {
        let sa = spec_path_components(a@);
        let sb = spec_path_components(b@);
        if r {
            assert(sa =~= sb) by {
                assert forall|i: int| 0 <= i < sa.len() implies sa[i] == sb[i] by {
                    assert(ca@[i]@ == cb@[i]@);
                }
            }
        } else {
            let i = choose|i: int| 0 <= i < ca@.len() && !((#[trigger] ca@[i])@ == cb@[i]@);
            assert(sa[i] != sb[i]);
        }
    }
    r
}

/// Whether `p` lies below `base` (`Path::starts_with`: only whole
/// components match).
pub fn path_starts_with(p: &str, base: &str) -> (r: bool)
    ensures
        r == spec_path_starts_with(p@, base@),
{
    let cp = path_components(p);
    let cb = path_components(base);
    if cb.len() > cp.len() {
        return false;
    }
    let r = same_components(&cp, &cb, cb.len());
    proof {
        let sp = spec_path_components(p@);
        let sb = spec_path_components(base@);
        if r {
            assert(sp.take(sb.len() as int) =~= sb) by {
                assert forall|i: int| 0 <= i < sb.len() implies sp[i] == sb[i] by {
                    assert(cp@[i]@ == cb@[i]@);
                }
            }
        } else {
            let i = choose|i: int| 0 <= i < cb@.len() && !((#[trigger] cp@[i])@ == cb@[i]@);
            assert(sp.take(sb.len() as int)[i] != sb[i]);
        }
    }
    r
}

/// The stem of a path (`Path::file_stem`).
pub fn path_file_stem(p: &str) -> (r: Option<String>)
    ensures
        r matches Some(s) ==> spec_path_file_stem(p@) == Some(s@),
        r is None ==> spec_path_file_stem(p@) is None,
{
    match file_name_chars(p) {
        Some(n) => match find_last_dot(&n) {
            Some(k) => if k > 0 {
                let s = chars_between(&n, 0, k);
                assert(n@.subrange(0, k as int) =~= n@.take(k as int));
                Some(s)
            } else {
                Some(string_of(&n))
            },
            None => Some(string_of(&n)),
        },
        None => None,
    }
}

/// Calls `dirs::data_dir`, which reads the environment. Nothing is stated of
/// the result: it depends on the user's environment.
#[verifier::external_body]
fn xdg_data_dir() -> (r: Option<String>) {
    dirs::data_dir().map(|p| p.to_string_lossy().into_owned())
}

/// Calls `dirs::cache_dir`, which reads the environment. Nothing is stated of
/// the result: it depends on the user's environment.
#[verifier::external_body]
fn xdg_cache_dir() -> (r: Option<String>) {
    dirs::cache_dir().map(|p| p.to_string_lossy().into_owned())
}

/// The base directory a platform directory falls back to: the current one.
pub open spec fn base_or_current(dir: Option<Seq<char>>) -> Seq<char> {
    match dir {
        Some(d) => d,
        None => "."@,
    }
}

/// The application's own directory below a platform directory.
pub open spec fn app_dir_below(dir: Option<Seq<char>>) -> Seq<char> {
    spec_path_join(base_or_current(dir), ascii_lower_seq(APP_NAME@))
}

/// The application directory below `platform_dir` (or below `.` when the
/// platform has none): `<platform_dir>/cadence`.
pub fn app_dir_in(platform_dir: Option<String>) -> (r: String)
    ensures
        r@ == app_dir_below(opt_text(platform_dir)),
{
    let base = match platform_dir {
        Some(d) => d,
        None => string_of(&chars_of(".")),
    };
    let name = string_of(&ascii_lowercase(&chars_of(APP_NAME)));
    path_join(base.as_str(), name.as_str())
}

/// `$XDG_DATA_HOME/cadence` (or `~/.local/share/cadence`).
pub fn data_dir() -> (r: String)
    ensures
        exists|d: Option<Seq<char>>| r@ == app_dir_below(d),
{
    let d = xdg_data_dir();
    let ghost dv = opt_text(d);
    let r = app_dir_in(d);
    assert(r@ == app_dir_below(dv));
    r
}

/// `$XDG_CACHE_HOME/cadence` (or `~/.cache/cadence`).
pub fn cache_dir() -> (r: String)
    ensures
        exists|d: Option<Seq<char>>| r@ == app_dir_below(d),
{
    let d = xdg_cache_dir();
    let ghost dv = opt_text(d);
    let r = app_dir_in(d);
    assert(r@ == app_dir_below(dv));
    r
}

/// The SQLite library database inside a data directory.
pub fn library_db_path_in(data_dir: &str) -> (r: String)
    ensures
        r@ == spec_path_join(data_dir@, "library.db"@),
{
    path_join(data_dir, "library.db")
}

/// The album artwork cache inside a cache directory.
pub fn artwork_cache_dir_in(cache_dir: &str) -> (r: String)
    ensures
        r@ == spec_path_join(cache_dir@, "artwork"@),
{
    path_join(cache_dir, "artwork")
}

/// The artist portrait cache inside a cache directory.
pub fn artist_image_cache_dir_in(cache_dir: &str) -> (r: String)
    ensures
        r@ == spec_path_join(cache_dir@, "artists"@),
{
    path_join(cache_dir, "artists")
}

/// The MusicBrainz / Cover Art Archive response cache inside a cache directory.
pub fn lookup_cache_dir_in(cache_dir: &str) -> (r: String)
    ensures
        r@ == spec_path_join(cache_dir@, "lookup"@),
{
    path_join(cache_dir, "lookup")
}

/// Path to the SQLite library database.
pub fn library_db_path() -> (r: String)
    ensures
        exists|d: Option<Seq<char>>| r@ == spec_path_join(app_dir_below(d), "library.db"@),
{
    let dir = data_dir();
    library_db_path_in(dir.as_str())
}

/// Directory for cached album artwork.
pub fn artwork_cache_dir() -> (r: String)
    ensures
        exists|d: Option<Seq<char>>| r@ == spec_path_join(app_dir_below(d), "artwork"@),
{
    let dir = cache_dir();
    artwork_cache_dir_in(dir.as_str())
}

/// Directory for cached artist portraits.
pub fn artist_image_cache_dir() -> (r: String)
    ensures
        exists|d: Option<Seq<char>>| r@ == spec_path_join(app_dir_below(d), "artists"@),
{
    let dir = cache_dir();
    artist_image_cache_dir_in(dir.as_str())
}

/// Directory for MusicBrainz / CAA response caches (optional).
pub fn lookup_cache_dir() -> (r: String)
    ensures
        exists|d: Option<Seq<char>>| r@ == spec_path_join(app_dir_below(d), "lookup"@),
{
    let dir = cache_dir();
    lookup_cache_dir_in(dir.as_str())
}

} // verus!
