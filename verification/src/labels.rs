//! Display labels: the `Mon DD` rendering of a period date and the
//! capitalized form of a breakdown key.
use vstd::prelude::*;
use crate::chars::{char_upper, chars_of, string_of, upper_of};
use crate::timeparse::{find_char_in, find_in};

verus! {

/// The three-letter label of a two-digit month field, `???` for anything
/// that is not `01` through `12`.
pub open spec fn month_label(s: Seq<char>, a: int, b: int) -> Seq<char> {
    if b - a == 2 && 0 <= a && b <= s.len() {
        if s[a] == '0' && s[a + 1] == '1' {
            "Jan"@
        } else if s[a] == '0' && s[a + 1] == '2' {
            "Feb"@
        } else if s[a] == '0' && s[a + 1] == '3' {
            "Mar"@
        } else if s[a] == '0' && s[a + 1] == '4' {
            "Apr"@
        } else if s[a] == '0' && s[a + 1] == '5' {
            "May"@
        } else if s[a] == '0' && s[a + 1] == '6' {
            "Jun"@
        } else if s[a] == '0' && s[a + 1] == '7' {
            "Jul"@
        } else if s[a] == '0' && s[a + 1] == '8' {
            "Aug"@
        } else if s[a] == '0' && s[a + 1] == '9' {
            "Sep"@
        } else if s[a] == '1' && s[a + 1] == '0' {
            "Oct"@
        } else if s[a] == '1' && s[a + 1] == '1' {
            "Nov"@
        } else if s[a] == '1' && s[a + 1] == '2' {
            "Dec"@
        } else {
            "???"@
        }
    } else {
        "???"@
    }
}

/// The first index in `[i, end)` that does not hold `0`, or `end`.
pub open spec fn skip_zeros(s: Seq<char>, i: int, end: int) -> int
    decreases end - i,
{
    if 0 <= i < end && i < s.len() && s[i] == '0' {
        skip_zeros(s, i + 1, end)
    } else {
        i
    }
}

/// The `Mon DD` rendering of a period date: the month field of the date
/// part (before any `T`) as a three-letter label, a space, and the day
/// field with its leading zeros removed. A text whose date part has fewer
/// than three dash-separated fields is returned unchanged.
pub open spec fn spec_format_period(s: Seq<char>) -> Seq<char> {
    let n = s.len() as int;
    let tpos = find_in(s, 'T', 0, n);
    let dend = if tpos == -1 {
        n
    } else {
        tpos
    };
    let d1 = find_in(s, '-', 0, dend);
    let d2 = if d1 == -1 {
        -1
    } else {
        find_in(s, '-', d1 + 1, dend)
    };
    if d1 == -1 || d2 == -1 {
        s
    } else {
        let d3 = find_in(s, '-', d2 + 1, dend);
        let p3end = if d3 == -1 {
            dend
        } else {
            d3
        };
        let ds = skip_zeros(s, d2 + 1, p3end);
        month_label(s, d1 + 1, d2) + seq![' '] + s.subrange(ds, p3end)
    }
}

/// Formats an ISO date text's period into the `Mon DD` form.
#[verifier::loop_isolation(false)]
pub fn format_period_date(period: &str) -> (r: String)
    ensures
        r@ == spec_format_period(period@),
{
    let cs = chars_of(period);
    let n = cs.len();
    let dend: usize = match find_char_in(&cs, 'T', 0, n) {
        Some(t) => t,
        None => n,
    };
    let d1 = match find_char_in(&cs, '-', 0, dend) {
        Some(j) => j,
        None => {
            return String::from_str(period);
        },
    };
    let d2 = match find_char_in(&cs, '-', d1 + 1, dend) {
        Some(j) => j,
        None => {
            return String::from_str(period);
        },
    };
    let p3end: usize = match find_char_in(&cs, '-', d2 + 1, dend) {
        Some(j) => j,
        None => dend,
    };
    let a = d1 + 1;
    let name: &str = if d2 - a == 2 {
        let c1 = cs[a];
        let c2 = cs[a + 1];
        if c1 == '0' && c2 == '1' {
            "Jan"
        } else if c1 == '0' && c2 == '2' {
            "Feb"
        } else if c1 == '0' && c2 == '3' {
            "Mar"
        } else if c1 == '0' && c2 == '4' {
            "Apr"
        } else if c1 == '0' && c2 == '5' {
            "May"
        } else if c1 == '0' && c2 == '6' {
            "Jun"
        } else if c1 == '0' && c2 == '7' {
            "Jul"
        } else if c1 == '0' && c2 == '8' {
            "Aug"
        } else if c1 == '0' && c2 == '9' {
            "Sep"
        } else if c1 == '1' && c2 == '0' {
            "Oct"
        } else if c1 == '1' && c2 == '1' {
            "Nov"
        } else if c1 == '1' && c2 == '2' {
            "Dec"
        } else {
            "???"
        }
    } else {
        "???"
    };
    let mut v = chars_of(name);
    proof {
        assert(v@ == month_label(cs@, a as int, d2 as int));
    }
    v.push(' ');
    proof {
        assert(v@ =~= month_label(cs@, a as int, d2 as int) + seq![' ']);
    }
    let mut ds = d2 + 1;
    while ds < p3end && cs[ds] == '0'
        invariant
            d2 + 1 <= ds <= p3end,
            skip_zeros(cs@, d2 + 1, p3end as int) == skip_zeros(cs@, ds as int, p3end as int),
        decreases p3end - ds,
    {
        ds += 1;
    }
    proof {
        assert(skip_zeros(cs@, ds as int, p3end as int) == ds);
    }
    proof {
        assert((month_label(cs@, a as int, d2 as int) + seq![' ']) + cs@.subrange(
            ds as int,
            ds as int,
        ) =~= month_label(cs@, a as int, d2 as int) + seq![' ']);
    }
    let mut k = ds;
    while k < p3end
        invariant
            ds <= k <= p3end,
            v@ == month_label(cs@, a as int, d2 as int) + seq![' '] + cs@.subrange(
                ds as int,
                k as int,
            ),
        decreases p3end - k,
    {
        let ghost prev = v@;
        v.push(cs[k]);
        proof {
            assert(cs@.subrange(ds as int, k as int).push(cs@[k as int]) =~= cs@.subrange(
                ds as int,
                k + 1,
            ));
            assert(v@ =~= month_label(cs@, a as int, d2 as int) + seq![' '] + cs@.subrange(
                ds as int,
                k + 1,
            ));
        }
        k += 1;
    }
    proof {
        assert(v@ == month_label(cs@, a as int, d2 as int) + seq![' '] + cs@.subrange(
            ds as int,
            p3end as int,
        ));
    }
    string_of(&v)
}

/// A text with its first character mapped to uppercase, the rest kept.
pub open spec fn spec_capitalize(s: Seq<char>) -> Seq<char> {
    if s.len() == 0 {
        Seq::empty()
    } else {
        upper_of(s[0]) + s.subrange(1, s.len() as int)
    }
}

/// Capitalizes the first character of a label.
#[verifier::loop_isolation(false)]
pub fn capitalize_first(s: &str) -> (r: String)
    ensures
        r@ == spec_capitalize(s@),
{
    let cs = chars_of(s);
    if cs.len() == 0 {
        return String::new();
    }
    let mut v = char_upper(cs[0]);
    proof {
        assert(v@ =~= upper_of(cs@[0]) + cs@.subrange(1, 1));
    }
    let mut k: usize = 1;
    while k < cs.len()
        invariant
            1 <= k <= cs@.len(),
            v@ == upper_of(cs@[0]) + cs@.subrange(1, k as int),
        decreases cs@.len() - k,
    {
        let ghost prev = v@;
        v.push(cs[k]);
        proof {
            assert(cs@.subrange(1, k as int).push(cs@[k as int]) =~= cs@.subrange(1, k + 1));
            assert(v@ =~= upper_of(cs@[0]) + cs@.subrange(1, k + 1));
        }
        k += 1;
    }
    string_of(&v)
}

} // verus!
