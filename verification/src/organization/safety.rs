//! What sanitising guarantees about path components, and hence about the
//! relative paths that templates render.
//!
//! A cleaned component holds no character that is illegal in file names,
//! no white space but single interior spaces, and neither starts nor ends
//! with a space or a dot; it is empty exactly when the input held no
//! character worth keeping. A sanitised component is a cleaned one, or `_`
//! where cleaning leaves nothing, so it is never empty; sanitising it again
//! changes nothing. Every component of a rendered path is a safe, non-empty
//! component, so it is never `.` or `..` and never holds a `/`.

use vstd::prelude::*;

use crate::models::TrackMetadata;
use crate::organization::template::{
    cleaned, disc_folder, is_illegal, is_trimmed, render_segments, render_spec, rendered_segments,
    replace_illegal, sanitize, trim_ends, with_compilations, with_disc_folder, Template,
};
use crate::text::{decimal, is_white, lemma_split_join, seq_join, split_on, ws_words};

verus! {

/// A character that survives sanitising: not illegal, not white space and
/// not a dot.
pub open spec fn keeper(c: char) -> bool {
    !is_illegal(c) && !is_white(c) && c != '.'
}

/// The only white space is the plain space, and never two in a row.
pub open spec fn spaced(y: Seq<char>) -> bool {
    &&& forall|i: int| 0 <= i < y.len() && is_white(#[trigger] y[i]) ==> y[i] == ' '
    &&& forall|i: int, j: int|
        0 <= i && j == i + 1 && j < y.len() && #[trigger] y[i] == ' ' ==> #[trigger] y[j] != ' '
}

/// Spaced, and with no space at either end.
pub open spec fn tidy(y: Seq<char>) -> bool {
    spaced(y) && (y.len() > 0 ==> y[0] != ' ' && y.last() != ' ')
}

/// A component that is safe to use in a path: non-empty, tidy, free of
/// illegal characters, and neither starting nor ending with a space or dot.
pub open spec fn safe_component(y: Seq<char>) -> bool {
    &&& y.len() > 0
    &&& tidy(y)
    &&& forall|j: int| 0 <= j < y.len() ==> !is_illegal(#[trigger] y[j])
    &&& !is_trimmed(y[0])
    &&& !is_trimmed(y.last())
}

/// A word: non-empty, with no white space, every character satisfying `p`.
pub open spec fn word_ok(x: Seq<char>, p: spec_fn(char) -> bool) -> bool {
    x.len() > 0 && forall|j: int| 0 <= j < x.len() ==> !is_white(#[trigger] x[j]) && p(x[j])
}

/// Every word is [`word_ok`].
pub open spec fn words_ok(w: Seq<Seq<char>>, p: spec_fn(char) -> bool) -> bool {
    forall|k: int| 0 <= k < w.len() ==> word_ok(#[trigger] w[k], p)
}

/// `c` occurs in one of the words.
pub open spec fn in_words(w: Seq<Seq<char>>, c: char) -> bool {
    exists|k: int, j: int| 0 <= k < w.len() && 0 <= j < w[k].len() && #[trigger] w[k][j] == c
}

/// `c` occurs in `y`.
pub open spec fn occurs(y: Seq<char>, c: char) -> bool {
    exists|m: int| 0 <= m < y.len() && #[trigger] y[m] == c
}

proof fn lemma_words_ok(s: Seq<char>, p: spec_fn(char) -> bool)
    requires
        forall|i: int| 0 <= i < s.len() && !is_white(#[trigger] s[i]) ==> p(s[i]),
    ensures
        words_ok(ws_words(s), p),
    decreases s.len(),
{
    if s.len() > 0 {
        let t = s.drop_last();
        assert forall|i: int| 0 <= i < t.len() && !is_white(#[trigger] t[i]) implies p(t[i]) by {
            assert(t[i] == s[i]);
        }
        lemma_words_ok(t, p);
        let w = ws_words(t);
        let c = s.last();
        assert(!is_white(c) ==> p(c)) by {
            assert(c == s[s.len() - 1]);
        }
        if is_white(c) {
        } else if s.len() >= 2 && !is_white(s[s.len() - 2]) {
            assert(t.last() == s[s.len() - 2]);
            crate::text::lemma_words_nonempty_after_word_char(t);
            let w2 = w.update(w.len() - 1, w.last().push(c));
            assert forall|k: int| 0 <= k < w2.len() implies word_ok(#[trigger] w2[k], p) by {
                if k == w.len() - 1 {
                    assert(word_ok(w[k], p));
                    assert forall|j: int| 0 <= j < w2[k].len() implies !is_white(
                        #[trigger] w2[k][j],
                    ) && p(w2[k][j]) by {
                        if j < w[k].len() {
                            assert(w2[k][j] == w[k][j]);
                        }
                    }
                } else {
                    assert(w2[k] == w[k]);
                }
            }
        } else {
            let w2 = w.push(seq![c]);
            assert forall|k: int| 0 <= k < w2.len() implies word_ok(#[trigger] w2[k], p) by {
                if k < w.len() {
                    assert(w2[k] == w[k]);
                } else {
                    assert(w2[k] == seq![c]);
                }
            }
        }
    }
}

proof fn lemma_words_cover(s: Seq<char>, i: int)
    requires
        0 <= i < s.len(),
        !is_white(s[i]),
    ensures
        in_words(ws_words(s), s[i]),
    decreases s.len(),
{
    let t = s.drop_last();
    let w = ws_words(t);
    let c = s.last();
    if i == s.len() - 1 {
        if s.len() >= 2 && !is_white(s[s.len() - 2]) {
            assert(t.last() == s[s.len() - 2]);
            crate::text::lemma_words_nonempty_after_word_char(t);
            let w2 = w.update(w.len() - 1, w.last().push(c));
            assert(w2[w.len() - 1][w.last().len() as int] == c);
        } else {
            let w2 = w.push(seq![c]);
            assert(w2[w.len() as int][0] == c);
        }
    } else {
        assert(t[i] == s[i]);
        lemma_words_cover(t, i);
        let (k, j) = choose|k: int, j: int|
            0 <= k < w.len() && 0 <= j < w[k].len() && #[trigger] w[k][j] == s[i];
        if is_white(c) {
        } else if s.len() >= 2 && !is_white(s[s.len() - 2]) {
            let w2 = w.update(w.len() - 1, w.last().push(c));
            assert(w2[k][j] == w[k][j]);
        } else {
            let w2 = w.push(seq![c]);
            assert(w2[k][j] == w[k][j]);
        }
    }
}

proof fn lemma_join(w: Seq<Seq<char>>, p: spec_fn(char) -> bool)
    requires
        words_ok(w, p),
    ensures
        tidy(seq_join(w, seq![' '])),
        forall|i: int|
            0 <= i < seq_join(w, seq![' ']).len() ==> #[trigger] seq_join(w, seq![' '])[i] == ' '
                || p(seq_join(w, seq![' '])[i]),
        w.len() > 0 ==> seq_join(w, seq![' ']).len() > 0,
        forall|c: char| in_words(w, c) ==> occurs(seq_join(w, seq![' ']), c),
    decreases w.len(),
{
    let y = seq_join(w, seq![' ']);
    if w.len() == 0 {
    } else if w.len() == 1 {
        assert(y == w[0]);
        assert(word_ok(w[0], p));
        assert forall|c: char| in_words(w, c) implies occurs(y, c) by {
            let (k, j) = choose|k: int, j: int|
                0 <= k < w.len() && 0 <= j < w[k].len() && #[trigger] w[k][j] == c;
            assert(y[j] == c);
        }
    } else {
        let v = w.drop_last();
        let x = w.last();
        assert forall|k: int| 0 <= k < v.len() implies word_ok(#[trigger] v[k], p) by {
            assert(v[k] == w[k]);
        }
        lemma_join(v, p);
        let z = seq_join(v, seq![' ']);
        assert(y == z + seq![' '] + x);
        assert(word_ok(x, p)) by {
            assert(x == w[w.len() - 1]);
        }
        let zl = z.len() as int;
        assert forall|i: int| 0 <= i < y.len() && is_white(#[trigger] y[i]) implies y[i] == ' ' by {
            if i < zl {
                assert(y[i] == z[i]);
            } else if i > zl {
                assert(y[i] == x[i - zl - 1]);
            }
        }
        assert forall|i: int, j: int|
            0 <= i && j == i + 1 && j < y.len() && #[trigger] y[i] == ' ' implies #[trigger] y[j]
            != ' ' by {
            if j < zl {
                assert(y[i] == z[i] && y[j] == z[j]);
            } else if j == zl {
                assert(y[i] == z[zl - 1]);
            } else if j == zl + 1 {
                assert(y[j] == x[0]);
            } else {
                assert(y[j] == x[j - zl - 1]);
            }
        }
        assert(y[0] == z[0]);
        assert(y.last() == x.last());
        assert forall|i: int| 0 <= i < y.len() implies #[trigger] y[i] == ' ' || p(y[i]) by {
            if i < zl {
                assert(y[i] == z[i]);
            } else if i > zl {
                assert(y[i] == x[i - zl - 1]);
            }
        }
        assert forall|c: char| in_words(w, c) implies occurs(y, c) by {
            let (k, j) = choose|k: int, j: int|
                0 <= k < w.len() && 0 <= j < w[k].len() && #[trigger] w[k][j] == c;
            if k < v.len() {
                assert(v[k][j] == c);
                assert(in_words(v, c));
                let m = choose|m: int| 0 <= m < z.len() && #[trigger] z[m] == c;
                assert(y[m] == c);
            } else {
                assert(y[zl + 1 + j] == x[j]);
            }
        }
    }
}

proof fn lemma_trim(y: Seq<char>, p: spec_fn(char) -> bool)
    requires
        forall|i: int| 0 <= i < y.len() ==> p(#[trigger] y[i]),
    ensures
        forall|i: int| 0 <= i < trim_ends(y).len() ==> p(#[trigger] trim_ends(y)[i]),
        spaced(y) ==> spaced(trim_ends(y)),
        trim_ends(y).len() > 0 ==> !is_trimmed(trim_ends(y)[0]) && !is_trimmed(
            trim_ends(y).last(),
        ),
        trim_ends(y).len() == 0 <==> forall|i: int| 0 <= i < y.len() ==> is_trimmed(#[trigger] y[i]),
    decreases y.len(),
{
    if y.len() > 0 && is_trimmed(y[0]) {
        let t = y.drop_first();
        assert forall|i: int| 0 <= i < t.len() implies p(#[trigger] t[i]) by {
            assert(t[i] == y[i + 1]);
        }
        lemma_trim(t, p);
        if spaced(y) {
            assert forall|i: int| 0 <= i < t.len() && is_white(#[trigger] t[i]) implies t[i]
                == ' ' by {
                assert(t[i] == y[i + 1]);
            }
            assert forall|i: int, j: int|
                0 <= i && j == i + 1 && j < t.len() && #[trigger] t[i] == ' ' implies #[trigger] t[j]
                != ' ' by {
                assert(t[i] == y[i + 1] && t[j] == y[j + 1]);
            }
        }
        if forall|i: int| 0 <= i < t.len() ==> is_trimmed(#[trigger] t[i]) {
            assert forall|i: int| 0 <= i < y.len() implies is_trimmed(#[trigger] y[i]) by {
                if i > 0 {
                    assert(y[i] == t[i - 1]);
                }
            }
        }
        if forall|i: int| 0 <= i < y.len() ==> is_trimmed(#[trigger] y[i]) {
            assert forall|i: int| 0 <= i < t.len() implies is_trimmed(#[trigger] t[i]) by {
                assert(t[i] == y[i + 1]);
            }
        }
    } else if y.len() > 0 && is_trimmed(y.last()) {
        let t = y.drop_last();
        assert forall|i: int| 0 <= i < t.len() implies p(#[trigger] t[i]) by {
            assert(t[i] == y[i]);
        }
        lemma_trim(t, p);
        if spaced(y) {
            assert forall|i: int| 0 <= i < t.len() && is_white(#[trigger] t[i]) implies t[i]
                == ' ' by {
                assert(t[i] == y[i]);
            }
            assert forall|i: int, j: int|
                0 <= i && j == i + 1 && j < t.len() && #[trigger] t[i] == ' ' implies #[trigger] t[j]
                != ' ' by {
                assert(t[i] == y[i] && t[j] == y[j]);
            }
        }
        if forall|i: int| 0 <= i < t.len() ==> is_trimmed(#[trigger] t[i]) {
            assert forall|i: int| 0 <= i < y.len() implies is_trimmed(#[trigger] y[i]) by {
                if i < t.len() {
                    assert(y[i] == t[i]);
                }
            }
        }
        if forall|i: int| 0 <= i < y.len() ==> is_trimmed(#[trigger] y[i]) {
            assert forall|i: int| 0 <= i < t.len() implies is_trimmed(#[trigger] t[i]) by {
                assert(t[i] == y[i]);
            }
        }
    } else {
        if y.len() > 0 {
            assert(!is_trimmed(y[0]));
        }
    }
}

proof fn lemma_tidy_words_join(y: Seq<char>)
    requires
        tidy(y),
    ensures
        seq_join(ws_words(y), seq![' ']) == y,
    decreases y.len(),
{
    if y.len() == 0 {
        assert(ws_words(y) =~= Seq::<Seq<char>>::empty());
    } else {
        let t = y.drop_last();
        let c = y.last();
        assert(c != ' ');
        assert(!is_white(c)) by {
            assert(c == y[y.len() - 1]);
        }
        if y.len() >= 2 && !is_white(y[y.len() - 2]) {
            assert(t.last() == y[y.len() - 2]);
            assert(t.last() != ' ');
            assert(tidy(t)) by {
                assert forall|i: int| 0 <= i < t.len() && is_white(#[trigger] t[i]) implies t[i]
                    == ' ' by {
                    assert(t[i] == y[i]);
                }
                assert forall|i: int, j: int|
                    0 <= i && j == i + 1 && j < t.len() && #[trigger] t[i] == ' ' implies #[trigger] t[j]
                    != ' ' by {
                    assert(t[i] == y[i] && t[j] == y[j]);
                }
                assert(t[0] == y[0]);
            }
            lemma_tidy_words_join(t);
            crate::text::lemma_words_nonempty_after_word_char(t);
            crate::text::lemma_join_extend_last(ws_words(t), c);
            assert(t.push(c) =~= y);
        } else if y.len() == 1 {
            assert(t =~= Seq::<char>::empty());
            assert(ws_words(t) =~= Seq::<Seq<char>>::empty());
            crate::text::lemma_join_push(ws_words(t), seq![c]);
            assert(seq![c] =~= y);
        } else {
            // The character before the last is white space, so it is a space,
            // and what comes before that space is tidy again.
            let sp = y[y.len() - 2];
            assert(sp == ' ');
            let u = t.drop_last();
            assert(t.last() == sp);
            assert(ws_words(t) == ws_words(u));
            assert(u.len() > 0) by {
                if u.len() == 0 {
                    assert(y[0] == sp);
                }
            }
            assert(u.last() == y[y.len() - 3]);
            assert(u.last() != ' ') by {
                let i = y.len() - 3;
                let j = y.len() - 2;
                assert(y[j] == ' ');
                if y[i] == ' ' {
                    assert(y[j] != ' ');
                }
            }
            assert(tidy(u)) by {
                assert forall|i: int| 0 <= i < u.len() && is_white(#[trigger] u[i]) implies u[i]
                    == ' ' by {
                    assert(u[i] == y[i]);
                }
                assert forall|i: int, j: int|
                    0 <= i && j == i + 1 && j < u.len() && #[trigger] u[i] == ' ' implies #[trigger] u[j]
                    != ' ' by {
                    assert(u[i] == y[i] && u[j] == y[j]);
                }
                assert(u[0] == y[0]);
            }
            lemma_tidy_words_join(u);
            assert(!is_white(u.last()));
            crate::text::lemma_words_nonempty_after_word_char(u);
            crate::text::lemma_join_push(ws_words(t), seq![c]);
            assert(u + seq![' '] + seq![c] =~= y);
        }
    }
}

/// The facts about `cleaned(s)` that the laws are made of.
proof fn lemma_cleaned_facts(s: Seq<char>)
    ensures
        tidy(cleaned(s)),
        forall|j: int| 0 <= j < cleaned(s).len() ==> !is_illegal(#[trigger] cleaned(s)[j]),
        cleaned(s).len() > 0 ==> !is_trimmed(cleaned(s)[0]) && !is_trimmed(cleaned(s).last()),
        forall|j: int|
            0 <= j < cleaned(s).len() ==> #[trigger] cleaned(s)[j] == ' ' || occurs(
                s,
                cleaned(s)[j],
            ),
        cleaned(s).len() == 0 <==> forall|i: int| 0 <= i < s.len() ==> !keeper(#[trigger] s[i]),
{
    let x = replace_illegal(s);
    let p = |c: char| !is_illegal(c) && occurs(s, c);
    assert forall|i: int| 0 <= i < x.len() && !is_white(#[trigger] x[i]) implies p(x[i]) by {
        assert(x[i] == (if is_illegal(s[i]) {
            ' '
        } else {
            s[i]
        }));
        assert(x[i] == s[i]);
    }
    lemma_words_ok(x, p);
    let w = ws_words(x);
    lemma_join(w, p);
    let z = seq_join(w, seq![' ']);
    let q = |c: char| c == ' ' || p(c);
    assert forall|i: int| 0 <= i < z.len() implies q(#[trigger] z[i]) by {}
    lemma_trim(z, q);
    let t = trim_ends(z);
    assert(t == cleaned(s));
    assert forall|j: int| 0 <= j < t.len() implies !is_illegal(#[trigger] t[j]) by {
        assert(q(t[j]));
    }
    assert forall|j: int| 0 <= j < t.len() implies #[trigger] t[j] == ' ' || occurs(s, t[j]) by {
        assert(q(t[j]));
    }
    if forall|i: int| 0 <= i < s.len() ==> !keeper(#[trigger] s[i]) {
        if t.len() > 0 {
            assert(q(t[0]));
            assert(t[0] != ' ');
            assert(!is_white(t[0]));
            let m = choose|m: int| 0 <= m < s.len() && #[trigger] s[m] == t[0];
            assert(keeper(s[m]));
        }
    } else {
        let i = choose|i: int| 0 <= i < s.len() && keeper(#[trigger] s[i]);
        assert(x[i] == s[i]);
        lemma_words_cover(x, i);
        assert(in_words(w, s[i]));
        let m = choose|m: int| 0 <= m < z.len() && #[trigger] z[m] == s[i];
        assert(!is_trimmed(z[m]));
    }
}

/// A component that is tidy, free of illegal characters and neither starts
/// nor ends with a space or a dot comes out of cleaning unchanged.
proof fn lemma_clean_fixed(y: Seq<char>)
    requires
        tidy(y),
        forall|j: int| 0 <= j < y.len() ==> !is_illegal(#[trigger] y[j]),
        y.len() > 0 ==> !is_trimmed(y[0]) && !is_trimmed(y.last()),
    ensures
        cleaned(y) == y,
{
    assert(replace_illegal(y) =~= y) by {
        assert forall|i: int| 0 <= i < y.len() implies replace_illegal(y)[i] == y[i] by {
            assert(!is_illegal(y[i]));
        }
    }
    lemma_tidy_words_join(y);
    assert(trim_ends(y) == y);
}

/// `_` is a safe component.
proof fn lemma_placeholder_safe()
    ensures
        safe_component(seq!['_']),
{
    let u = seq!['_'];
    assert(u[0] == '_');
    assert(u.last() == '_');
}

/// A sanitised component is safe: never empty, no illegal characters, no
/// white space but single interior spaces, and no space or dot at either
/// end.
pub proof fn law_sanitized_is_safe(s: Seq<char>)
    ensures
        safe_component(sanitize(s)),
{
    lemma_cleaned_facts(s);
    lemma_placeholder_safe();
}

/// Cleaning leaves nothing exactly when the input holds no character worth
/// keeping (one that is not illegal, not white space and not a dot); for
/// example `...` cleans to nothing, and such a template segment is left out
/// of a rendered path.
pub proof fn law_cleaned_empty_iff_nothing_kept(s: Seq<char>)
    ensures
        cleaned(s).len() == 0 <==> forall|i: int| 0 <= i < s.len() ==> !keeper(#[trigger] s[i]),
{
    lemma_cleaned_facts(s);
}

/// Sanitising a sanitised component changes nothing.
pub proof fn law_sanitize_idempotent(s: Seq<char>)
    ensures
        sanitize(sanitize(s)) == sanitize(s),
{
    lemma_cleaned_facts(s);
    lemma_placeholder_safe();
    let y = sanitize(s);
    lemma_clean_fixed(y);
}

proof fn lemma_rendered_safe(pieces: Seq<Seq<char>>, meta: TrackMetadata)
    ensures
        forall|k: int|
            0 <= k < rendered_segments(pieces, meta).len() ==> safe_component(
                #[trigger] rendered_segments(pieces, meta)[k],
            ),
    decreases pieces.len(),
{
    if pieces.len() > 0 {
        lemma_rendered_safe(pieces.drop_last(), meta);
        let prev = rendered_segments(pieces.drop_last(), meta);
        let s = cleaned(crate::organization::template::render_seg(pieces.last(), meta));
        lemma_cleaned_facts(crate::organization::template::render_seg(pieces.last(), meta));
        if s.len() > 0 {
            let r = prev.push(s);
            assert forall|k: int| 0 <= k < r.len() implies safe_component(#[trigger] r[k]) by {
                if k < prev.len() {
                    assert(r[k] == prev[k]);
                }
            }
        }
    }
}

/// Every component of a rendered relative path is a safe, non-empty
/// component: so it is never `.` or `..` and never holds a `/`.
pub proof fn law_rendered_components_are_safe(t: Template, meta: TrackMetadata)
    ensures
        forall|k: int|
            0 <= k < render_segments(t, meta).len() ==> safe_component(
                #[trigger] render_segments(t, meta)[k],
            ),
{
    let base = rendered_segments(
        crate::text::split_on(crate::organization::template::layout_pattern(t, meta), '/'),
        meta,
    );
    lemma_rendered_safe(
        crate::text::split_on(crate::organization::template::layout_pattern(t, meta), '/'),
        meta,
    );
    let d = with_disc_folder(base, meta);
    assert forall|k: int| 0 <= k < d.len() implies safe_component(#[trigger] d[k]) by {
        match (meta.disc_number, meta.disc_total) {
            (Some(disc), Some(total)) => {
                if total > 1 && base.len() >= 2 {
                    let label = "Disc "@ + decimal(disc as nat);
                    reveal_strlit("Disc ");
                    assert(label[0] == 'D');
                    assert(keeper(label[0]));
                    lemma_cleaned_facts(label);
                    assert(disc_folder(disc) == cleaned(label));
                    let r = base.drop_last().push(disc_folder(disc)).push(base.last());
                    assert(d == r);
                    if k < base.len() - 1 {
                        assert(r[k] == base[k]);
                    } else if k == base.len() - 1 {
                        assert(r[k] == disc_folder(disc));
                    } else {
                        assert(r[k] == base[base.len() - 1]);
                    }
                }
            },
            _ => {},
        }
    }
    let c = with_compilations(d, meta);
    assert forall|k: int| 0 <= k < c.len() implies safe_component(#[trigger] c[k]) by {
        if meta.compilation {
            reveal_strlit("Compilations");
            let name = "Compilations"@;
            assert(c == seq![name] + d);
            if k == 0 {
                assert(c[0] == name);
                assert(name.len() == 12);
                assert forall|j: int| 0 <= j < name.len() implies !is_illegal(#[trigger] name[j])
                    && !is_white(name[j]) by {}
                assert(name[0] == 'C');
                assert(name.last() == 's');
            } else {
                assert(c[k] == d[k - 1]);
            }
        }
    }
}

/// The rendered relative path, split at `/`, gives back its segments, so
/// every component of the path text is a safe, non-empty component (never
/// `.` or `..`); a template that renders no segment gives the empty path.
pub proof fn law_rendered_path_components_are_safe(t: Template, meta: TrackMetadata)
    ensures
        render_segments(t, meta).len() > 0 ==> split_on(render_spec(t, meta), '/')
            == render_segments(t, meta),
        render_segments(t, meta).len() == 0 ==> render_spec(t, meta).len() == 0,
        forall|k: int|
            0 <= k < render_segments(t, meta).len() ==> safe_component(
                #[trigger] render_segments(t, meta)[k],
            ),
{
    let segs = render_segments(t, meta);
    law_rendered_components_are_safe(t, meta);
    if segs.len() > 0 {
        assert forall|k: int, i: int| 0 <= k < segs.len() && 0 <= i < segs[k].len() implies #[trigger] segs[k][i]
            != '/' by {
            assert(safe_component(segs[k]));
            assert(!is_illegal(segs[k][i]));
        }
        lemma_split_join(segs, '/');
    }
}

} // verus!
