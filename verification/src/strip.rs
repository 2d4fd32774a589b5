//! Lexical tag stripping: every substring that starts at a `<` and runs to
//! the first `>` after it is removed; a `<` with no later `>` is kept.
use vstd::prelude::*;
use crate::chars::{chars_of, string_of};

verus! {

/// The index of the first `>` at or after `i`, or -1 if there is none.
pub open spec fn first_gt_from(s: Seq<char>, i: int) -> int
    decreases s.len() - i,
{
    if i < 0 || i >= s.len() {
        -1
    } else if s[i] == '>' {
        i
    } else {
        first_gt_from(s, i + 1)
    }
}

/// What is left of the suffix of `s` starting at `i` once every lexical tag
/// `<`...`>` is removed: at a `<` that has a later `>`, everything through
/// the first such `>` is dropped; any other character is kept.
pub open spec fn spec_strip_from(s: Seq<char>, i: int) -> Seq<char>
    decreases s.len() - i,
{
    if i < 0 || i >= s.len() {
        Seq::empty()
    } else if s[i] == '<' && i < first_gt_from(s, i) + 1 && first_gt_from(s, i) < s.len() {
        spec_strip_from(s, first_gt_from(s, i) + 1)
    } else {
        seq![s[i]] + spec_strip_from(s, i + 1)
    }
}

/// The text with every lexical tag removed.
pub open spec fn spec_strip_tags(s: Seq<char>) -> Seq<char> {
    spec_strip_from(s, 0)
}

/// Finds the first `>` at or after `from`.
pub(crate) fn find_gt(cs: &Vec<char>, from: usize) -> (r: Option<usize>)
    ensures
        match r {
            Some(j) => first_gt_from(cs@, from as int) == j && from <= j < cs@.len(),
            None => first_gt_from(cs@, from as int) == -1,
        },
{
    let n = cs.len();
    let mut j = from;
    while j < n
        invariant
            n == cs@.len(),
            from <= j,
            first_gt_from(cs@, from as int) == first_gt_from(cs@, j as int),
        decreases n - j,
    {
        if cs[j] == '>' {
            return Some(j);
        }
        j += 1;
    }
    None
}

/// Removes every lexical tag from the text, leaving the content between
/// tags; a `<` that is never closed by a `>` passes through.
pub fn strip_tags(input: &str) -> (r: String)
    ensures
        r@ == spec_strip_tags(input@),
{
    let cs = chars_of(input);
    let n = cs.len();
    let mut out: Vec<char> = Vec::new();
    let mut i: usize = 0;
    while i < n
        invariant
            cs@ == input@,
            n == cs@.len(),
            i <= n,
            spec_strip_tags(input@) == out@ + spec_strip_from(input@, i as int),
        decreases n - i,
    {
        let ghost prev = out@;
        let c = cs[i];
        if c == '<' {
            match find_gt(&cs, i) {
                Some(j) => {
                    proof {
                        assert(spec_strip_from(input@, i as int) == spec_strip_from(
                            input@,
                            j + 1,
                        ));
                    }
                    i = j + 1;
                },
                None => {
                    out.push(c);
                    proof {
                        assert(spec_strip_from(input@, i as int) == seq![input@[i as int]]
                            + spec_strip_from(input@, i + 1));
                        assert(prev + (seq![input@[i as int]] + spec_strip_from(input@, i + 1))
                            =~= (prev + seq![input@[i as int]]) + spec_strip_from(input@, i + 1));
                        assert(out@ =~= prev + seq![input@[i as int]]);
                    }
                    i += 1;
                },
            }
        } else {
            out.push(c);
            proof {
                assert(spec_strip_from(input@, i as int) == seq![input@[i as int]]
                    + spec_strip_from(input@, i + 1));
                assert(prev + (seq![input@[i as int]] + spec_strip_from(input@, i + 1)) =~= (prev
                    + seq![input@[i as int]]) + spec_strip_from(input@, i + 1));
                assert(out@ =~= prev + seq![input@[i as int]]);
            }
            i += 1;
        }
    }
    proof {
        assert(out@ + spec_strip_from(input@, n as int) =~= out@);
    }
    string_of(&out)
}

/// A text without `<` is left exactly as it is by the tag stripper.
pub proof fn lemma_strip_no_lt(s: Seq<char>, i: int)
    requires
        0 <= i <= s.len(),
        forall|k: int| i <= k < s.len() ==> s[k] != '<',
    ensures
        spec_strip_from(s, i) == s.subrange(i, s.len() as int),
    decreases s.len() - i,
{
    if i == s.len() {
        assert(spec_strip_from(s, i) =~= s.subrange(i, s.len() as int));
    } else {
        lemma_strip_no_lt(s, i + 1);
        assert(seq![s[i]] + s.subrange(i + 1, s.len() as int) =~= s.subrange(i, s.len() as int));
    }
}

} // verus!
