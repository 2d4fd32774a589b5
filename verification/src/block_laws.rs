//! The guarantee of the dangerous-element filter on well-formed script
//! blocks: a `<script ...>...</script>` region, written in any letter
//! case, is removed whole, and markup-free surroundings pass through
//! unchanged.
use vstd::prelude::*;
use crate::dangerous::{close_tag_at, dangerous_names, char_eq_ci, match_len_at, matched_name_from,
    spec_strip_dangerous, spec_strip_dangerous_from, tag_name_at};
use crate::strip::first_gt_from;

verus! {

/// The name of the script element.
pub open spec fn script_name() -> Seq<char> {
    seq!['s', 'c', 'r', 'i', 'p', 't']
}

/// An opening tag made of a raw (possibly upper-case) name and a raw
/// attribute region.
pub open spec fn open_tag_of(rawname: Seq<char>, attrs: Seq<char>) -> Seq<char> {
    seq!['<'] + rawname + attrs + seq!['>']
}

/// A closing tag made of a raw (possibly upper-case) name.
pub open spec fn close_tag_of(rawclose: Seq<char>) -> Seq<char> {
    seq!['<', '/'] + rawclose + seq!['>']
}

proof fn lemma_no_name_when_not_lt(s: Seq<char>, i: int, k: int)
    requires
        !(0 <= i < s.len()) || s[i] != '<',
    ensures
        matched_name_from(s, i, k) == -1,
    decreases dangerous_names().len() - k,
{
    if 0 <= k < dangerous_names().len() {
        lemma_no_name_when_not_lt(s, i, k + 1);
    }
}

/// A text region without `<` passes through the dangerous-element filter
/// unchanged.
pub proof fn lemma_dangerous_keep_all(s: Seq<char>, i: int)
    requires
        0 <= i <= s.len(),
        forall|k: int| i <= k < s.len() ==> s[k] != '<',
    ensures
        spec_strip_dangerous_from(s, i) == s.subrange(i, s.len() as int),
    decreases s.len() - i,
{
    if i == s.len() {
        assert(spec_strip_dangerous_from(s, i) =~= s.subrange(i, s.len() as int));
    } else {
        lemma_no_name_when_not_lt(s, i, 0);
        assert(match_len_at(s, i) == 0);
        lemma_dangerous_keep_all(s, i + 1);
        assert(seq![s[i]] + s.subrange(i + 1, s.len() as int) =~= s.subrange(i, s.len() as int));
    }
}

proof fn lemma_dangerous_prefix(s: Seq<char>, i: int, i0: int)
    requires
        0 <= i <= i0 <= s.len(),
        forall|k: int| i <= k < i0 ==> s[k] != '<',
    ensures
        spec_strip_dangerous_from(s, i) == s.subrange(i, i0) + spec_strip_dangerous_from(s, i0),
    decreases i0 - i,
{
    if i == i0 {
        assert(s.subrange(i, i0) + spec_strip_dangerous_from(s, i0) =~= spec_strip_dangerous_from(
            s,
            i0,
        ));
    } else {
        lemma_no_name_when_not_lt(s, i, 0);
        assert(match_len_at(s, i) == 0);
        lemma_dangerous_prefix(s, i + 1, i0);
        assert(seq![s[i]] + (s.subrange(i + 1, i0) + spec_strip_dangerous_from(s, i0)) =~= s
            .subrange(i, i0) + spec_strip_dangerous_from(s, i0));
    }
}

proof fn lemma_first_gt_exact(s: Seq<char>, i: int, g: int)
    requires
        0 <= i <= g < s.len(),
        s[g] == '>',
        forall|k: int| i <= k < g ==> s[k] != '>',
    ensures
        first_gt_from(s, i) == g,
    decreases g - i,
{
    if i < g {
        lemma_first_gt_exact(s, i + 1, g);
    }
}

proof fn lemma_first_close_exact(s: Seq<char>, name: Seq<char>, from: int, c0: int)
    requires
        0 <= from <= c0 < s.len(),
        close_tag_at(s, c0, name),
        forall|j: int| from <= j < c0 ==> !close_tag_at(s, j, name),
    ensures
        crate::dangerous::first_close_from(s, name, from) == c0,
    decreases c0 - from,
{
    if from < c0 {
        lemma_first_close_exact(s, name, from + 1, c0);
    }
}

/// For markup of the shape `pre <script attrs> content </script> post` —
/// the two tag names written in any letter case, `pre` and `post` free of
/// `<`, the attribute region free of `>`, and `content` free of closing
/// script tags — the dangerous-element filter removes the whole script
/// block, and nothing else: the result is exactly `pre + post`, and it
/// holds no opening script tag, compared case-insensitively.
pub proof fn lemma_strip_dangerous_removes_script_block(
    pre: Seq<char>,
    rawname: Seq<char>,
    attrs: Seq<char>,
    content: Seq<char>,
    rawclose: Seq<char>,
    post: Seq<char>,
)
    requires
        forall|k: int| 0 <= k < pre.len() ==> pre[k] != '<',
        rawname.len() == 6,
        forall|k: int| 0 <= k < 6 ==> char_eq_ci(#[trigger] rawname[k], script_name()[k]),
        rawclose.len() == 6,
        forall|k: int| 0 <= k < 6 ==> char_eq_ci(#[trigger] rawclose[k], script_name()[k]),
        forall|k: int| 0 <= k < attrs.len() ==> attrs[k] != '>',
        forall|j: int| 0 <= j < content.len() ==> !close_tag_at(
            content + close_tag_of(rawclose),
            j,
            script_name(),
        ),
        forall|k: int| 0 <= k < post.len() ==> post[k] != '<',
    ensures
        spec_strip_dangerous(
            pre + open_tag_of(rawname, attrs) + content + close_tag_of(rawclose) + post,
        ) == pre + post,
        forall|j: int| !tag_name_at(pre + post, j, script_name()),
{
    let name = script_name();
    let opent = open_tag_of(rawname, attrs);
    let closet = close_tag_of(rawclose);
    let s = pre + opent + content + closet + post;
    let i0 = pre.len() as int;
    let hg = i0 + 7 + attrs.len();
    let cstart = hg + 1 + content.len();
    let pos_after = cstart + 9;
    assert(opent.len() == 8 + attrs.len());
    assert(closet.len() == 9);
    assert(s.len() == pre.len() + opent.len() + content.len() + 9 + post.len());

    // Where each region's characters stand in the assembled text.
    assert forall|m: int| 0 <= m < pre.len() implies s[m] == pre[m] by {}
    assert forall|m: int| 0 <= m < opent.len() implies s[i0 + m] == opent[m] by {}
    assert forall|m: int| 0 <= m < content.len() + 9 implies s[hg + 1 + m] == (content + closet)[m]
        by {
        if m < content.len() {
            assert((content + closet)[m] == content[m]);
        } else {
            assert((content + closet)[m] == closet[m - content.len()]);
        }
    }
    assert forall|m: int| 0 <= m < post.len() implies s[pos_after + m] == post[m] by {}
    assert(s[i0] == '<');
    assert forall|k: int| 0 <= k < 6 implies s[i0 + 1 + k] == rawname[k] by {
        assert(opent[1 + k] == rawname[k]);
    }
    assert forall|k: int| 0 <= k < attrs.len() implies s[i0 + 7 + k] == attrs[k] by {
        assert(opent[7 + k] == attrs[k]);
    }
    assert(s[hg] == '>') by {
        assert(opent[opent.len() - 1] == '>');
    }
    assert(s[cstart] == '<') by {
        assert(closet[0] == '<');
    }
    assert(s[cstart + 1] == '/') by {
        assert(closet[1] == '/');
    }
    assert forall|k: int| 0 <= k < 6 implies s[cstart + 2 + k] == rawclose[k] by {
        assert(closet[2 + k] == rawclose[k]);
    }
    assert(s[cstart + 8] == '>') by {
        assert(closet[8] == '>');
    }

    // The opening tag of `script` is matched first.
    assert(tag_name_at(s, i0, name));
    assert(dangerous_names()[0] == name);
    assert(matched_name_from(s, i0, 0) == 0);

    // The head of the tag runs to its own `>`.
    assert forall|k: int| i0 <= k < hg implies s[k] != '>' by {
        if k == i0 {
        } else if k < i0 + 7 {
            let b = name[k - i0 - 1];
            assert(char_eq_ci(s[k], b));
        } else {
            assert(s[k] == attrs[k - i0 - 7]);
        }
    }
    lemma_first_gt_exact(s, i0, hg);

    // The nearest closing tag is the block's own.
    assert(close_tag_at(s, cstart, name));
    assert forall|j: int| hg + 1 <= j < cstart implies !close_tag_at(s, j, name) by {
        let m = j - (hg + 1);
        assert(!close_tag_at(content + closet, m, name));
        if close_tag_at(s, j, name) {
            assert forall|k: int| 0 <= k < 6 implies char_eq_ci(
                #[trigger] (content + closet)[m + 2 + k],
                name[k],
            ) by {
                assert((content + closet)[m + 2 + k] == s[j + 2 + k]);
            }
            assert((content + closet)[m] == s[j]);
            assert((content + closet)[m + 1] == s[j + 1]);
            assert((content + closet)[m + 8] == s[j + 8]);
            assert(close_tag_at(content + closet, m, name));
        }
    }
    lemma_first_close_exact(s, name, hg + 1, cstart);

    // So the match at the block start spans the whole block.
    assert(match_len_at(s, i0) == pos_after - i0);
    assert(spec_strip_dangerous_from(s, i0) == spec_strip_dangerous_from(s, pos_after));

    // Nothing before or after the block is touched.
    lemma_dangerous_prefix(s, 0, i0);
    assert(s.subrange(0, i0) =~= pre);
    lemma_dangerous_keep_all(s, pos_after);
    assert(s.subrange(pos_after, s.len() as int) =~= post);
    assert(spec_strip_dangerous(s) == pre + post);

    // And what remains holds no opening script tag at all.
    assert forall|j: int| !tag_name_at(pre + post, j, script_name()) by {
        if 0 <= j < (pre + post).len() {
            if j < pre.len() {
                assert((pre + post)[j] == pre[j]);
            } else {
                assert((pre + post)[j] == post[j - pre.len()]);
            }
        }
    }
}

} // verus!
