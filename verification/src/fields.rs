//! The field-specific sanitizers: free text (strip tags, then encode),
//! e-mail fields (strip tags, narrow the character set, trim, lowercase)
//! and URLs (protocol deny-list, then allow-list, on a trimmed copy).
use vstd::prelude::*;
use crate::chars::{alnum_char, char_is_alnum, char_is_space, chars_of, lower_of, space_char,
    string_of, to_lowercase};
use crate::dangerous::char_eq_ci;
use crate::encode::{encode_html, spec_encode};
use crate::strip::{spec_strip_tags, strip_tags};

verus! {

/// The text sanitized for HTML contexts: all lexical tags removed, then the
/// remaining special characters entity-encoded.
pub open spec fn spec_sanitize_text(s: Seq<char>) -> Seq<char> {
    spec_encode(spec_strip_tags(s))
}

/// Sanitizes free-form text: strips all tags, then HTML-encodes what is
/// left. Not idempotent: a second application re-encodes the `&` of the
/// entities the first one produced.
pub fn sanitize_text(input: &str) -> (r: String)
    ensures
        r@ == spec_sanitize_text(input@),
{
    let stripped = strip_tags(input);
    encode_html(stripped.as_str())
}

/// A character the e-mail sanitizer keeps: a word character (alphanumeric
/// or underscore) or one of `@`, `.`, `-`, `+`.
pub open spec fn email_char(c: char) -> bool {
    alnum_char(c) || c == '_' || c == '@' || c == '.' || c == '-' || c == '+'
}

/// The suffix of `s` starting at `i` with every non-e-mail character
/// removed.
pub open spec fn spec_filter_email_from(s: Seq<char>, i: int) -> Seq<char>
    decreases s.len() - i,
{
    if i < 0 || i >= s.len() {
        Seq::empty()
    } else if email_char(s[i]) {
        seq![s[i]] + spec_filter_email_from(s, i + 1)
    } else {
        spec_filter_email_from(s, i + 1)
    }
}

/// `s` with every non-e-mail character removed.
pub open spec fn spec_filter_email(s: Seq<char>) -> Seq<char> {
    spec_filter_email_from(s, 0)
}

/// The first index at or after `i` that does not hold whitespace, or the
/// length if only whitespace follows.
pub open spec fn skip_space(s: Seq<char>, i: int) -> int
    decreases s.len() - i,
{
    if 0 <= i < s.len() && space_char(s[i]) {
        skip_space(s, i + 1)
    } else {
        i
    }
}

/// Scanning left from `j`, the end of the last non-whitespace character
/// strictly above `a`, or `a` if only whitespace lies between.
pub open spec fn rstrip_above(s: Seq<char>, j: int, a: int) -> int
    decreases j - a,
{
    if j > a && 0 <= j - 1 < s.len() && space_char(s[j - 1]) {
        rstrip_above(s, j - 1, a)
    } else {
        j
    }
}

/// `s` with leading and trailing whitespace removed.
pub open spec fn trim_spec(s: Seq<char>) -> Seq<char> {
    let a = skip_space(s, 0);
    let b = rstrip_above(s, s.len() as int, a);
    s.subrange(a, b)
}

proof fn lemma_skip_space_bounds(s: Seq<char>, i: int)
    requires
        0 <= i <= s.len(),
    ensures
        i <= skip_space(s, i) <= s.len(),
    decreases s.len() - i,
{
    if 0 <= i < s.len() && space_char(s[i]) {
        lemma_skip_space_bounds(s, i + 1);
    }
}

proof fn lemma_rstrip_bounds(s: Seq<char>, j: int, a: int)
    requires
        0 <= a <= j <= s.len(),
    ensures
        a <= rstrip_above(s, j, a) <= j,
    decreases j - a,
{
    if j > a && 0 <= j - 1 < s.len() && space_char(s[j - 1]) {
        lemma_rstrip_bounds(s, j - 1, a);
    }
}

/// Removes leading and trailing whitespace.
pub(crate) fn trim_chars(cs: &Vec<char>) -> (r: Vec<char>)
    ensures
        r@ == trim_spec(cs@),
{
    let n = cs.len();
    let mut a: usize = 0;
    while a < n && char_is_space(cs[a])
        invariant
            n == cs@.len(),
            a <= n,
            skip_space(cs@, 0) == skip_space(cs@, a as int),
        decreases n - a,
    {
        a += 1;
    }
    proof {
        assert(skip_space(cs@, a as int) == a);
    }
    let mut b: usize = n;
    while b > a && char_is_space(cs[b - 1])
        invariant
            n == cs@.len(),
            a <= b <= n,
            rstrip_above(cs@, n as int, a as int) == rstrip_above(cs@, b as int, a as int),
        decreases b,
    {
        b -= 1;
    }
    proof {
        assert(rstrip_above(cs@, b as int, a as int) == b);
    }
    let mut out: Vec<char> = Vec::new();
    let mut k = a;
    while k < b
        invariant
            n == cs@.len(),
            a <= k <= b <= n,
            out@ =~= cs@.subrange(a as int, k as int),
        decreases b - k,
    {
        out.push(cs[k]);
        k += 1;
    }
    proof {
        assert(out@ =~= cs@.subrange(a as int, b as int));
    }
    out
}

/// Sanitizes an e-mail field: strips tags, keeps only word characters and
/// `@ . - +`, trims surrounding whitespace, and lowercases the result.
pub fn sanitize_email(email: &str) -> (r: String)
    ensures
        r@ == lower_of(trim_spec(spec_filter_email(spec_strip_tags(email@)))),
{
    let stripped = strip_tags(email);
    let cs = chars_of(stripped.as_str());
    let n = cs.len();
    let mut kept: Vec<char> = Vec::new();
    let mut i: usize = 0;
    while i < n
        invariant
            n == cs@.len(),
            cs@ == spec_strip_tags(email@),
            i <= n,
            spec_filter_email(cs@) == kept@ + spec_filter_email_from(cs@, i as int),
        decreases n - i,
    {
        let ghost prev = kept@;
        let c = cs[i];
        if char_is_alnum(c) || c == '_' || c == '@' || c == '.' || c == '-' || c == '+' {
            kept.push(c);
            proof {
                assert(prev + (seq![cs@[i as int]] + spec_filter_email_from(cs@, i + 1)) =~= (
                prev + seq![cs@[i as int]]) + spec_filter_email_from(cs@, i + 1));
                assert(kept@ =~= prev + seq![cs@[i as int]]);
            }
        }
        i += 1;
    }
    proof {
        assert(kept@ + spec_filter_email_from(cs@, n as int) =~= kept@);
    }
    let trimmed = trim_chars(&kept);
    let trimmed_str = string_of(&trimmed);
    to_lowercase(trimmed_str.as_str())
}

/// The prefixes whose presence (after trimming, compared
/// case-insensitively) rejects a URL outright.
pub open spec fn denied_url(t: Seq<char>) -> bool {
    ||| starts_ci(t, "javascript:"@)
    ||| starts_ci(t, "data:"@)
    ||| starts_ci(t, "vbscript:"@)
    ||| starts_ci(t, "file:"@)
}

/// The prefixes a URL must carry (after trimming, compared
/// case-insensitively) to be accepted.
pub open spec fn allowed_url(t: Seq<char>) -> bool {
    ||| starts_ci(t, "http://"@)
    ||| starts_ci(t, "https://"@)
    ||| starts_ci(t, "mailto:"@)
    ||| (t.len() >= 1 && t[0] == '/')
}

/// `s` begins, ASCII-case-insensitively, with the lowercase pattern `p`.
pub open spec fn starts_ci(s: Seq<char>, p: Seq<char>) -> bool {
    p.len() <= s.len() && forall|k: int| 0 <= k < p.len() ==> char_eq_ci(s[k], p[k])
}

/// The sanitized URL: the trimmed original if its protocol is allowed and
/// not denied, the empty text otherwise — never a partially modified URL.
pub open spec fn spec_sanitize_url(s: Seq<char>) -> Seq<char> {
    let t = trim_spec(s);
    if denied_url(t) {
        Seq::empty()
    } else if allowed_url(t) {
        t
    } else {
        Seq::empty()
    }
}

/// Checks the case-insensitive prefix.
pub(crate) fn starts_ci_exec(v: &Vec<char>, p: &Vec<char>) -> (r: bool)
    ensures
        r == starts_ci(v@, p@),
{
    if p.len() > v.len() {
        return false;
    }
    let mut k: usize = 0;
    while k < p.len()
        invariant
            p@.len() <= v@.len(),
            k <= p@.len(),
            forall|m: int| 0 <= m < k ==> char_eq_ci(v@[m], p@[m]),
        decreases p@.len() - k,
    {
        if !(v[k] == p[k] || (65 <= v[k] as u32 && v[k] as u32 <= 90 && v[k] as u32 + 32 == p[k]
            as u32)) {
            return false;
        }
        k += 1;
    }
    true
}

/// Sanitizes a URL for use as a link target: the input is trimmed; it is
/// rejected (empty result) if it starts, case-insensitively, with
/// `javascript:`, `data:`, `vbscript:` or `file:`; it is accepted — and
/// returned exactly as trimmed — only if it starts with `http://`,
/// `https://`, `mailto:` or `/`; anything else is rejected.
pub fn sanitize_url(url: &str) -> (r: String)
    ensures
        r@ == spec_sanitize_url(url@),
        denied_url(trim_spec(url@)) ==> r@ == Seq::<char>::empty(),
        !denied_url(trim_spec(url@)) && allowed_url(trim_spec(url@)) ==> r@ == trim_spec(url@),
        !denied_url(trim_spec(url@)) && !allowed_url(trim_spec(url@)) ==> r@ == Seq::<
            char,
        >::empty(),
{
    let cs = chars_of(url);
    let t = trim_chars(&cs);
    let deny = starts_ci_exec(&t, &chars_of("javascript:")) || starts_ci_exec(
        &t,
        &chars_of("data:"),
    ) || starts_ci_exec(&t, &chars_of("vbscript:")) || starts_ci_exec(&t, &chars_of("file:"));
    if deny {
        return String::new();
    }
    let allow = starts_ci_exec(&t, &chars_of("http://")) || starts_ci_exec(
        &t,
        &chars_of("https://"),
    ) || starts_ci_exec(&t, &chars_of("mailto:")) || (t.len() >= 1 && t[0] == '/');
    if allow {
        string_of(&t)
    } else {
        String::new()
    }
}

} // verus!
