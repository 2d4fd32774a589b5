//! The guarantees of the encoder and the text sanitizer, stated and proved
//! once over the specification functions that the executable contracts
//! use.
use vstd::prelude::*;
use crate::encode::{encode_char, html_special, spec_encode_from};
use crate::fields::spec_sanitize_text;
use crate::strip::{lemma_strip_no_lt, spec_strip_tags};

verus! {

/// How many characters at or after `i` in `s` equal `c`.
pub open spec fn count_char_from(s: Seq<char>, c: char, i: int) -> int
    decreases s.len() - i,
{
    if i < 0 || i >= s.len() {
        0
    } else {
        (if s[i] == c {
            1int
        } else {
            0int
        }) + count_char_from(s, c, i + 1)
    }
}

/// How many HTML-significant characters stand at or after `i` in `s`.
pub open spec fn count_specials_from(s: Seq<char>, i: int) -> int
    decreases s.len() - i,
{
    if i < 0 || i >= s.len() {
        0
    } else {
        (if html_special(s[i]) {
            1int
        } else {
            0int
        }) + count_specials_from(s, i + 1)
    }
}

/// `s` holds no raw `<`, `>`, `"` or `'` at or after `i`.
pub open spec fn no_raw_specials_from(s: Seq<char>, i: int) -> bool {
    forall|j: int| i <= j < s.len() ==> s[j] != '<' && s[j] != '>' && s[j] != '"' && s[j] != '\''
}

proof fn lemma_count_char_concat(a: Seq<char>, b: Seq<char>, c: char, m: int)
    requires
        0 <= m <= b.len(),
    ensures
        count_char_from(a + b, c, a.len() + m) == count_char_from(b, c, m),
    decreases b.len() - m,
{
    if m < b.len() {
        lemma_count_char_concat(a, b, c, m + 1);
    }
}

proof fn lemma_count_char_prefix(a: Seq<char>, b: Seq<char>, c: char, i: int)
    requires
        0 <= i <= a.len(),
    ensures
        count_char_from(a + b, c, i) == count_char_from(a, c, i) + count_char_from(b, c, 0),
    decreases a.len() - i,
{
    if i < a.len() {
        lemma_count_char_prefix(a, b, c, i + 1);
    } else {
        lemma_count_char_concat(a, b, c, 0);
    }
}

proof fn lemma_encode_char_amp(c: char)
    ensures
        count_char_from(encode_char(c), '&', 0) == if html_special(c) {
            1int
        } else {
            0int
        },
        forall|j: int| 0 <= j < encode_char(c).len() ==> encode_char(c)[j] != '<' && encode_char(
            c,
        )[j] != '>' && encode_char(c)[j] != '"' && encode_char(c)[j] != '\'',
        forall|j: int| 1 <= j < encode_char(c).len() ==> encode_char(c)[j] != '&',
        encode_char(c).len() >= 1,
        html_special(c) ==> encode_char(c)[0] == '&' && encode_char(c).len() >= 4,
{
    reveal_with_fuel(count_char_from, 8);
}

/// The HTML encoding of any text holds no raw `<`, `>`, `"` or `'`, and it
/// holds exactly one `&` for every HTML-significant character of the
/// original (each escaped character becomes one entity, and every entity
/// begins with the only `&` it contains).
pub proof fn lemma_encode_counts(s: Seq<char>, i: int)
    ensures
        no_raw_specials_from(spec_encode_from(s, i), 0),
        count_char_from(spec_encode_from(s, i), '&', 0) == count_specials_from(s, i),
        spec_encode_from(s, i).len() >= if 0 <= i <= s.len() {
            s.len() - i
        } else {
            0
        },
        count_specials_from(s, i) > 0 ==> spec_encode_from(s, i).len() > s.len() - i,
    decreases s.len() - i,
{
    if i < 0 || i >= s.len() {
    } else {
        let e = encode_char(s[i]);
        let rest = spec_encode_from(s, i + 1);
        lemma_encode_counts(s, i + 1);
        lemma_encode_char_amp(s[i]);
        lemma_count_char_prefix(e, rest, '&', 0);
        assert(count_char_from(e, '&', 0) == count_char_from(e + rest, '&', 0) - count_char_from(
            rest,
            '&',
            0,
        ));
        assert forall|j: int| 0 <= j < (e + rest).len() implies (e + rest)[j] != '<' && (e
            + rest)[j] != '>' && (e + rest)[j] != '"' && (e + rest)[j] != '\'' by {
            if j < e.len() {
                assert((e + rest)[j] == e[j]);
            } else {
                assert((e + rest)[j] == rest[j - e.len()]);
            }
        }
    }
}

/// The output of the text sanitizer holds no raw `<` or `>` at all: every
/// tag is stripped and every remaining special character is encoded.
pub proof fn lemma_sanitize_text_no_raw_markup(t: Seq<char>)
    ensures
        no_raw_specials_from(spec_sanitize_text(t), 0),
{
    lemma_encode_counts(spec_strip_tags(t), 0);
}

/// The text sanitizer is not idempotent: whenever an HTML-significant
/// character survives tag stripping, sanitizing a second time changes the
/// text again (the `&` of each entity is re-encoded).
pub proof fn lemma_sanitize_text_not_idempotent(t: Seq<char>)
    requires
        count_specials_from(spec_strip_tags(t), 0) > 0,
    ensures
        spec_sanitize_text(spec_sanitize_text(t)) != spec_sanitize_text(t),
{
    let u = spec_strip_tags(t);
    let out = spec_encode_from(u, 0);
    lemma_encode_counts(u, 0);
    assert(count_char_from(out, '&', 0) > 0);
    lemma_count_char_pos_exists(out, '&', 0);
    assert(no_raw_specials_from(out, 0));
    lemma_strip_no_lt(out, 0);
    assert(spec_strip_tags(out) =~= out);
    let j = choose|j: int| 0 <= j < out.len() && out[j] == '&';
    lemma_count_specials_at(out, j);
    lemma_encode_counts(out, 0);
    assert(spec_sanitize_text(out).len() > out.len());
}

proof fn lemma_count_char_pos_exists(s: Seq<char>, c: char, i: int)
    requires
        count_char_from(s, c, i) > 0,
    ensures
        exists|j: int| i <= j < s.len() && s[j] == c,
    decreases s.len() - i,
{
    if i < 0 || i >= s.len() {
    } else if s[i] == c {
    } else {
        lemma_count_char_pos_exists(s, c, i + 1);
    }
}

proof fn lemma_count_specials_at(s: Seq<char>, j: int)
    requires
        0 <= j < s.len(),
        html_special(s[j]),
    ensures
        count_specials_from(s, 0) > 0,
{
    lemma_count_specials_at_from(s, 0, j);
}

proof fn lemma_count_specials_at_from(s: Seq<char>, i: int, j: int)
    requires
        0 <= i <= j < s.len(),
        html_special(s[j]),
    ensures
        count_specials_from(s, i) > 0,
    decreases j - i,
{
    if i < j {
        lemma_count_specials_at_from(s, i + 1, j);
    } else {
        lemma_count_specials_nonneg(s, j + 1);
    }
}

proof fn lemma_count_specials_nonneg(s: Seq<char>, i: int)
    ensures
        count_specials_from(s, i) >= 0,
    decreases s.len() - i,
{
    if 0 <= i < s.len() {
        lemma_count_specials_nonneg(s, i + 1);
    }
}

/// The pattern `p` occurs in `s` at position `i`.
pub open spec fn match_at(p: Seq<char>, s: Seq<char>, i: int) -> bool {
    &&& 0 <= i
    &&& i + p.len() <= s.len()
    &&& forall|k: int| 0 <= k < p.len() ==> s[i + k] == p[k]
}

/// How many positions at or after `i` hold an occurrence of `p` in `s`.
pub open spec fn count_sub_from(p: Seq<char>, s: Seq<char>, i: int) -> int
    decreases s.len() - i,
{
    if i < 0 || p.len() < 1 || i + p.len() > s.len() {
        0
    } else {
        (if match_at(p, s, i) {
            1int
        } else {
            0int
        }) + count_sub_from(p, s, i + 1)
    }
}

proof fn lemma_count_sub_shift(p: Seq<char>, e: Seq<char>, rest: Seq<char>, m: int)
    requires
        0 <= m,
        p.len() >= 1,
    ensures
        count_sub_from(p, e + rest, e.len() + m) == count_sub_from(p, rest, m),
    decreases rest.len() - m,
{
    let t = e + rest;
    if m + p.len() <= rest.len() {
        lemma_count_sub_shift(p, e, rest, m + 1);
        assert(match_at(p, t, e.len() + m) == match_at(p, rest, m)) by {
            if match_at(p, rest, m) {
                assert forall|k: int| 0 <= k < p.len() implies t[e.len() + m + k] == p[k] by {
                    assert(t[e.len() + m + k] == rest[m + k]);
                }
            }
            if match_at(p, t, e.len() + m) {
                assert forall|k: int| 0 <= k < p.len() implies rest[m + k] == p[k] by {
                    assert(t[e.len() + m + k] == rest[m + k]);
                }
            }
        }
    }
}

proof fn lemma_count_sub_peel_tail(p: Seq<char>, e: Seq<char>, rest: Seq<char>, j: int)
    requires
        1 <= j <= e.len(),
        p.len() >= 1,
        p[0] == '&',
        forall|jj: int| 1 <= jj < e.len() ==> e[jj] != '&',
    ensures
        count_sub_from(p, e + rest, j) == count_sub_from(p, rest, 0),
    decreases e.len() - j,
{
    let t = e + rest;
    if j == e.len() {
        lemma_count_sub_shift(p, e, rest, 0);
    } else {
        lemma_count_sub_peel_tail(p, e, rest, j + 1);
        if j + p.len() <= t.len() {
            assert(t[j] == e[j]);
            assert(!match_at(p, t, j));
        } else {
            assert(count_sub_from(p, t, j) == 0);
            assert(p.len() > rest.len());
            assert(count_sub_from(p, rest, 0) == 0);
        }
    }
}

proof fn lemma_count_entity(s: Seq<char>, i: int, c0: char)
    requires
        html_special(c0),
    ensures
        count_sub_from(encode_char(c0), spec_encode_from(s, i), 0) == count_char_from(s, c0, i),
    decreases s.len() - i,
{
    let p = encode_char(c0);
    lemma_encode_char_amp(c0);
    if i < 0 || i >= s.len() {
        assert(count_sub_from(p, spec_encode_from(s, i), 0) == 0);
    } else {
        let c = s[i];
        let e = encode_char(c);
        let rest = spec_encode_from(s, i + 1);
        let t = e + rest;
        lemma_count_entity(s, i + 1, c0);
        lemma_encode_char_amp(c);
        lemma_count_sub_peel_tail(p, e, rest, 1);
        if c == c0 {
            assert(match_at(p, t, 0)) by {
                assert forall|k: int| 0 <= k < p.len() implies t[k] == p[k] by {
                    assert(t[k] == e[k]);
                }
            }
            assert(count_sub_from(p, t, 0) == 1 + count_sub_from(p, t, 1));
        } else {
            assert(!match_at(p, t, 0)) by {
                if match_at(p, t, 0) {
                    if html_special(c) {
                        assert(t[1] == e[1]);
                        assert(e[1] != p[1]);
                    } else {
                        assert(t[0] == e[0]);
                        assert(e[0] == c);
                        assert(c != '&');
                    }
                }
            }
            if p.len() <= t.len() {
                assert(count_sub_from(p, t, 0) == count_sub_from(p, t, 1));
            } else {
                assert(count_sub_from(p, t, 0) == 0);
                assert(p.len() > rest.len());
                assert(count_sub_from(p, rest, 0) == 0);
            }
        }
    }
}

/// Every escaped character becomes exactly one entity: in the encoding of
/// any text, the number of `&amp;` occurrences equals the number of `&` in
/// the original, and likewise `&lt;` for `<`, `&gt;` for `>`, `&quot;` for
/// `"` and `&#x27;` for `'`.
pub proof fn lemma_encode_entity_counts(s: Seq<char>)
    ensures
        count_sub_from(seq!['&', 'a', 'm', 'p', ';'], spec_encode_from(s, 0), 0)
            == count_char_from(s, '&', 0),
        count_sub_from(seq!['&', 'l', 't', ';'], spec_encode_from(s, 0), 0) == count_char_from(
            s,
            '<',
            0,
        ),
        count_sub_from(seq!['&', 'g', 't', ';'], spec_encode_from(s, 0), 0) == count_char_from(
            s,
            '>',
            0,
        ),
        count_sub_from(seq!['&', 'q', 'u', 'o', 't', ';'], spec_encode_from(s, 0), 0)
            == count_char_from(s, '"', 0),
        count_sub_from(seq!['&', '#', 'x', '2', '7', ';'], spec_encode_from(s, 0), 0)
            == count_char_from(s, '\'', 0),
{
    lemma_count_entity(s, 0, '&');
    lemma_count_entity(s, 0, '<');
    lemma_count_entity(s, 0, '>');
    lemma_count_entity(s, 0, '"');
    lemma_count_entity(s, 0, '\'');
}

} // verus!
