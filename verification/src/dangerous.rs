//! Removal of a fixed set of high-risk HTML elements by name, matched
//! case-insensitively on ASCII letters. Both the paired form
//! `<name ...>...</name>` (shortest content first) and the self-closing
//! form `<name ... />` are removed; the scan is left to right and a removed
//! region is never rescanned.
use vstd::prelude::*;
use crate::chars::{chars_of, string_of};
use crate::strip::{find_gt, first_gt_from};

verus! {

/// ASCII-case-insensitive character match against a lowercase pattern
/// character: `a` matches `b` if they are equal or `a` is the ASCII
/// uppercase form of `b`.
pub open spec fn char_eq_ci(a: char, b: char) -> bool {
    a == b || (65 <= a as u32 && a as u32 <= 90 && a as u32 + 32 == b as u32)
}

/// The fixed set of dangerous element names, in match order.
pub open spec fn dangerous_names() -> Seq<Seq<char>> {
    seq![
        seq!['s', 'c', 'r', 'i', 'p', 't'],
        seq!['i', 'f', 'r', 'a', 'm', 'e'],
        seq!['o', 'b', 'j', 'e', 'c', 't'],
        seq!['e', 'm', 'b', 'e', 'd'],
        seq!['l', 'i', 'n', 'k'],
        seq!['s', 't', 'y', 'l', 'e'],
        seq!['b', 'a', 's', 'e'],
        seq!['m', 'e', 't', 'a'],
        seq!['a', 'p', 'p', 'l', 'e', 't'],
        seq!['f', 'o', 'r', 'm'],
    ]
}

/// An opening tag of element `name` begins at `i`: a `<` followed by the
/// name, case-insensitively.
pub open spec fn tag_name_at(s: Seq<char>, i: int, name: Seq<char>) -> bool {
    &&& 0 <= i
    &&& i + 1 + name.len() <= s.len()
    &&& s[i] == '<'
    &&& forall|k: int| 0 <= k < name.len() ==> char_eq_ci(s[i + 1 + k], name[k])
}

/// The first listed name (at or after list position `k`) whose opening tag
/// begins at `i`, or -1 if none does.
pub open spec fn matched_name_from(s: Seq<char>, i: int, k: int) -> int
    decreases dangerous_names().len() - k,
{
    if k < 0 || k >= dangerous_names().len() {
        -1
    } else if tag_name_at(s, i, dangerous_names()[k]) {
        k
    } else {
        matched_name_from(s, i, k + 1)
    }
}

/// A closing tag `</name>` begins at `j`, the name matched
/// case-insensitively.
pub open spec fn close_tag_at(s: Seq<char>, j: int, name: Seq<char>) -> bool {
    &&& 0 <= j
    &&& j + name.len() + 3 <= s.len()
    &&& s[j] == '<'
    &&& s[j + 1] == '/'
    &&& forall|k: int| 0 <= k < name.len() ==> char_eq_ci(s[j + 2 + k], name[k])
    &&& s[j + 2 + name.len()] == '>'
}

/// The start of the first closing tag of `name` at or after `j`, or -1.
pub open spec fn first_close_from(s: Seq<char>, name: Seq<char>, j: int) -> int
    decreases s.len() - j,
{
    if j < 0 || j >= s.len() {
        -1
    } else if close_tag_at(s, j, name) {
        j
    } else {
        first_close_from(s, name, j + 1)
    }
}

/// The length of the dangerous-element match that begins at `i`, or 0 if no
/// match begins there. A match needs an opening tag of a listed name whose
/// head runs to the first `>`; then either the nearest closing tag of the
/// same name ends the match (paired form), or, failing that, a head ending
/// in `/>` is the whole match (self-closing form).
pub open spec fn match_len_at(s: Seq<char>, i: int) -> int {
    let k = matched_name_from(s, i, 0);
    if k == -1 {
        0
    } else {
        let name = dangerous_names()[k];
        let g = first_gt_from(s, i);
        if g == -1 {
            0
        } else {
            let c = first_close_from(s, name, g + 1);
            if c != -1 {
                c + name.len() + 3 - i
            } else if 1 <= g && s[g - 1] == '/' {
                g + 1 - i
            } else {
                0
            }
        }
    }
}

/// The suffix of `s` starting at `i` with every dangerous element removed,
/// scanning left to right.
pub open spec fn spec_strip_dangerous_from(s: Seq<char>, i: int) -> Seq<char>
    decreases s.len() - i,
{
    if i < 0 || i >= s.len() {
        Seq::empty()
    } else {
        let l = match_len_at(s, i);
        if 0 < l && i + l <= s.len() {
            spec_strip_dangerous_from(s, i + l)
        } else {
            seq![s[i]] + spec_strip_dangerous_from(s, i + 1)
        }
    }
}

/// The text with every dangerous element removed.
pub open spec fn spec_strip_dangerous(s: Seq<char>) -> Seq<char> {
    spec_strip_dangerous_from(s, 0)
}

pub(crate) fn char_eq_ci_exec(a: char, b: char) -> (r: bool)
    ensures
        r == char_eq_ci(a, b),
{
    a == b || (65 <= a as u32 && a as u32 <= 90 && a as u32 + 32 == b as u32)
}

/// Checks for an opening tag of `name` at `i`.
pub(crate) fn tag_name_at_exec(cs: &Vec<char>, i: usize, name: &Vec<char>) -> (r: bool)
    requires
        name@.len() <= 8,
    ensures
        r == tag_name_at(cs@, i as int, name@),
{
    let n = cs.len();
    if i >= n || n - i < 1 + name.len() || cs[i] != '<' {
        return false;
    }
    let mut k: usize = 0;
    while k < name.len()
        invariant
            name@.len() <= 8,
            n == cs@.len(),
            i + 1 + name@.len() <= cs@.len(),
            cs@[i as int] == '<',
            k <= name@.len(),
            forall|m: int| 0 <= m < k ==> char_eq_ci(cs@[i + 1 + m], name@[m]),
        decreases name@.len() - k,
    {
        if !char_eq_ci_exec(cs[i + 1 + k], name[k]) {
            return false;
        }
        k += 1;
    }
    true
}

/// Finds the first listed name whose opening tag begins at `i`.
pub(crate) fn find_name(cs: &Vec<char>, i: usize, names: &Vec<Vec<char>>) -> (r: Option<usize>)
    requires
        names@.len() == dangerous_names().len(),
        forall|k: int| 0 <= k < names@.len() ==> (#[trigger] names@[k])@ == dangerous_names()[k]
            && names@[k]@.len() <= 8,
    ensures
        match r {
            Some(k) => matched_name_from(cs@, i as int, 0) == k && k < names@.len(),
            None => matched_name_from(cs@, i as int, 0) == -1,
        },
{
    let mut k: usize = 0;
    while k < names.len()
        invariant
            names@.len() == dangerous_names().len(),
            forall|m: int| 0 <= m < names@.len() ==> (#[trigger] names@[m])@
                == dangerous_names()[m] && names@[m]@.len() <= 8,
            k <= names@.len(),
            matched_name_from(cs@, i as int, 0) == matched_name_from(cs@, i as int, k as int),
        decreases names@.len() - k,
    {
        if tag_name_at_exec(cs, i, &names[k]) {
            return Some(k);
        }
        k += 1;
    }
    None
}

/// Checks for a closing tag of `name` at `j`.
pub(crate) fn close_tag_at_exec(cs: &Vec<char>, j: usize, name: &Vec<char>) -> (r: bool)
    requires
        name@.len() <= 8,
    ensures
        r == close_tag_at(cs@, j as int, name@),
{
    let n = cs.len();
    if j >= n || n - j < name.len() + 3 {
        return false;
    }
    if cs[j] != '<' || cs[j + 1] != '/' || cs[j + 2 + name.len()] != '>' {
        return false;
    }
    let mut k: usize = 0;
    while k < name.len()
        invariant
            name@.len() <= 8,
            n == cs@.len(),
            j + name@.len() + 3 <= cs@.len(),
            cs@[j as int] == '<',
            cs@[j + 1] == '/',
            cs@[j + 2 + name@.len()] == '>',
            k <= name@.len(),
            forall|m: int| 0 <= m < k ==> char_eq_ci(cs@[j + 2 + m], name@[m]),
        decreases name@.len() - k,
    {
        if !char_eq_ci_exec(cs[j + 2 + k], name[k]) {
            return false;
        }
        k += 1;
    }
    true
}

/// Finds the first closing tag of `name` at or after `from`.
pub(crate) fn find_close(cs: &Vec<char>, name: &Vec<char>, from: usize) -> (r: Option<usize>)
    requires
        name@.len() <= 8,
    ensures
        match r {
            Some(j) => first_close_from(cs@, name@, from as int) == j && from <= j
                && j + name@.len() + 3 <= cs@.len(),
            None => first_close_from(cs@, name@, from as int) == -1,
        },
{
    let n = cs.len();
    let mut j = from;
    while j < n
        invariant
            n == cs@.len(),
            name@.len() <= 8,
            from <= j,
            first_close_from(cs@, name@, from as int) == first_close_from(cs@, name@, j as int),
        decreases n - j,
    {
        if close_tag_at_exec(cs, j, name) {
            return Some(j);
        }
        j += 1;
    }
    None
}

/// Builds the executable list of dangerous element names.
fn name_vecs() -> (r: Vec<Vec<char>>)
    ensures
        r@.len() == dangerous_names().len(),
        forall|k: int| 0 <= k < r@.len() ==> (#[trigger] r@[k])@ == dangerous_names()[k]
            && r@[k]@.len() <= 8,
{
    let mut r: Vec<Vec<char>> = Vec::new();
    let v0 = chars_of("script");
    proof {
        reveal_strlit("script");
        assert(v0@ =~= dangerous_names()[0]);
    }
    r.push(v0);
    let v1 = chars_of("iframe");
    proof {
        reveal_strlit("iframe");
        assert(v1@ =~= dangerous_names()[1]);
    }
    r.push(v1);
    let v2 = chars_of("object");
    proof {
        reveal_strlit("object");
        assert(v2@ =~= dangerous_names()[2]);
    }
    r.push(v2);
    let v3 = chars_of("embed");
    proof {
        reveal_strlit("embed");
        assert(v3@ =~= dangerous_names()[3]);
    }
    r.push(v3);
    let v4 = chars_of("link");
    proof {
        reveal_strlit("link");
        assert(v4@ =~= dangerous_names()[4]);
    }
    r.push(v4);
    let v5 = chars_of("style");
    proof {
        reveal_strlit("style");
        assert(v5@ =~= dangerous_names()[5]);
    }
    r.push(v5);
    let v6 = chars_of("base");
    proof {
        reveal_strlit("base");
        assert(v6@ =~= dangerous_names()[6]);
    }
    r.push(v6);
    let v7 = chars_of("meta");
    proof {
        reveal_strlit("meta");
        assert(v7@ =~= dangerous_names()[7]);
    }
    r.push(v7);
    let v8 = chars_of("applet");
    proof {
        reveal_strlit("applet");
        assert(v8@ =~= dangerous_names()[8]);
    }
    r.push(v8);
    let v9 = chars_of("form");
    proof {
        reveal_strlit("form");
        assert(v9@ =~= dangerous_names()[9]);
    }
    r.push(v9);
    r
}

/// Removes every element of the fixed dangerous set (`script`, `iframe`,
/// `object`, `embed`, `link`, `style`, `base`, `meta`, `applet`, `form`),
/// in both the paired and the self-closing form, matching the names
/// case-insensitively; all other markup is left untouched.
pub fn strip_dangerous_tags(html: &str) -> (r: String)
    ensures
        r@ == spec_strip_dangerous(html@),
{
    let cs = chars_of(html);
    let names = name_vecs();
    let n = cs.len();
    let mut out: Vec<char> = Vec::new();
    let mut i: usize = 0;
    while i < n
        invariant
            cs@ == html@,
            n == cs@.len(),
            i <= n,
            names@.len() == dangerous_names().len(),
            forall|m: int| 0 <= m < names@.len() ==> (#[trigger] names@[m])@
                == dangerous_names()[m] && names@[m]@.len() <= 8,
            spec_strip_dangerous(html@) == out@ + spec_strip_dangerous_from(html@, i as int),
        decreases n - i,
    {
        let ghost prev = out@;
        let mut skip_to: Option<usize> = None;
        match find_name(&cs, i, &names) {
            Some(k) => {
                match find_gt(&cs, i) {
                    Some(g) => {
                        match find_close(&cs, &names[k], g + 1) {
                            Some(c) => {
                                skip_to = Some(c + names[k].len() + 3);
                            },
                            None => {
                                if g >= 1 && cs[g - 1] == '/' {
                                    skip_to = Some(g + 1);
                                }
                            },
                        }
                    },
                    None => {},
                }
            },
            None => {},
        }
        match skip_to {
            Some(next) => {
                proof {
                    assert(match_len_at(html@, i as int) == next - i);
                    assert(spec_strip_dangerous_from(html@, i as int)
                        == spec_strip_dangerous_from(html@, next as int));
                }
                i = next;
            },
            None => {
                out.push(cs[i]);
                proof {
                    assert(match_len_at(html@, i as int) == 0);
                    assert(spec_strip_dangerous_from(html@, i as int) == seq![html@[i as int]]
                        + spec_strip_dangerous_from(html@, i + 1));
                    assert(prev + (seq![html@[i as int]] + spec_strip_dangerous_from(
                        html@,
                        i + 1,
                    )) =~= (prev + seq![html@[i as int]]) + spec_strip_dangerous_from(
                        html@,
                        i + 1,
                    ));
                    assert(out@ =~= prev + seq![html@[i as int]]);
                }
                i += 1;
            },
        }
    }
    proof {
        assert(out@ + spec_strip_dangerous_from(html@, n as int) =~= out@);
    }
    string_of(&out)
}

} // verus!
