//! Character-level HTML encoding: the five HTML-significant characters are
//! replaced by their fixed entity encodings, all other characters pass
//! through unchanged.
use vstd::prelude::*;
use crate::chars::{chars_of, string_of};

verus! {

/// The five HTML-significant characters that the encoder escapes.
pub open spec fn html_special(c: char) -> bool {
    c == '&' || c == '<' || c == '>' || c == '"' || c == '\''
}

/// The encoding of a single character: an entity for the five special
/// characters, the character itself otherwise.
pub open spec fn encode_char(c: char) -> Seq<char> {
    if c == '&' {
        seq!['&', 'a', 'm', 'p', ';']
    } else if c == '<' {
        seq!['&', 'l', 't', ';']
    } else if c == '>' {
        seq!['&', 'g', 't', ';']
    } else if c == '"' {
        seq!['&', 'q', 'u', 'o', 't', ';']
    } else if c == '\'' {
        seq!['&', '#', 'x', '2', '7', ';']
    } else {
        seq![c]
    }
}

/// The encoding of the suffix of `s` that starts at `i`.
pub open spec fn spec_encode_from(s: Seq<char>, i: int) -> Seq<char>
    decreases s.len() - i,
{
    if i < 0 || i >= s.len() {
        Seq::empty()
    } else {
        encode_char(s[i]) + spec_encode_from(s, i + 1)
    }
}

/// The HTML encoding of a whole text.
pub open spec fn spec_encode(s: Seq<char>) -> Seq<char> {
    spec_encode_from(s, 0)
}

/// Escapes the five HTML-significant characters in a single pass:
/// `&` to `&amp;`, `<` to `&lt;`, `>` to `&gt;`, `"` to `&quot;`,
/// `'` to `&#x27;`; every other character passes through unchanged.
pub fn encode_html(text: &str) -> (r: String)
    ensures
        r@ == spec_encode(text@),
{
    let cs = chars_of(text);
    let n = cs.len();
    let mut out: Vec<char> = Vec::new();
    let mut i: usize = 0;
    while i < n
        invariant
            cs@ == text@,
            n == cs@.len(),
            i <= n,
            spec_encode(text@) == out@ + spec_encode_from(text@, i as int),
        decreases n - i,
    {
        let ghost prev = out@;
        let c = cs[i];
        if c == '&' {
            out.push('&');
            out.push('a');
            out.push('m');
            out.push('p');
            out.push(';');
        } else if c == '<' {
            out.push('&');
            out.push('l');
            out.push('t');
            out.push(';');
        } else if c == '>' {
            out.push('&');
            out.push('g');
            out.push('t');
            out.push(';');
        } else if c == '"' {
            out.push('&');
            out.push('q');
            out.push('u');
            out.push('o');
            out.push('t');
            out.push(';');
        } else if c == '\'' {
            out.push('&');
            out.push('#');
            out.push('x');
            out.push('2');
            out.push('7');
            out.push(';');
        } else {
            out.push(c);
        }
        proof {
            assert(out@ =~= prev + encode_char(text@[i as int]));
            assert(prev + (encode_char(text@[i as int]) + spec_encode_from(text@, i + 1)) =~= (
            prev + encode_char(text@[i as int])) + spec_encode_from(text@, i + 1));
        }
        i += 1;
    }
    proof {
        assert(out@ + spec_encode_from(text@, n as int) =~= out@);
    }
    string_of(&out)
}

} // verus!
