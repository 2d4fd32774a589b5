//! A small ISO-8601 date-time parser: good enough for millisecond
//! differences between timestamps, as the export views need. The date part
//! must have three dash-separated numeric fields; the time part is
//! optional, loses any trailing zone markers and fractional seconds, and
//! missing or malformed time fields count as zero.
use vstd::prelude::*;
use crate::chars::chars_of;
use crate::display::{days_from_epoch, resolution_duration_from_ms, spec_days_from_epoch,
    spec_format_hm};

verus! {

/// What the resolution-time report shows for two ISO-8601 timestamps: the
/// difference rendered as `Xh Ym` when both parse (a resolution before its
/// creation counting as zero), and `N/A` when the resolution is missing,
/// the literal `null`, or either timestamp is unreadable.
pub open spec fn spec_resolution_time(created: Seq<char>, resolved: Seq<char>) -> Seq<char> {
    if resolved.len() == 0 || resolved == "null"@ {
        "N/A"@
    } else {
        match (spec_parse_iso_ms(created), spec_parse_iso_ms(resolved)) {
            (Some(c), Some(r)) => spec_format_hm(
                (if r > c {
                    r - c
                } else {
                    0
                }) / 60000,
            ),
            _ => "N/A"@,
        }
    }
}

/// Whether two character vectors hold the same text.
pub(crate) fn chars_equal(a: &Vec<char>, b: &Vec<char>) -> (r: bool)
    ensures
        r == (a@ == b@),
{
    if a.len() != b.len() {
        return false;
    }
    let mut k: usize = 0;
    while k < a.len()
        invariant
            a@.len() == b@.len(),
            k <= a@.len(),
            forall|m: int| 0 <= m < k ==> a@[m] == b@[m],
        decreases a@.len() - k,
    {
        if a[k] != b[k] {
            return false;
        }
        k += 1;
    }
    proof {
        assert(a@ =~= b@);
    }
    true
}

/// Computes the resolution time between two ISO date texts as `Xh Ym`, or
/// `N/A` when the resolution is missing, `null`, or unreadable.
pub fn compute_resolution_time(created_at: &str, resolved_at: &str) -> (r: String)
    ensures
        r@ == spec_resolution_time(created_at@, resolved_at@),
{
    let rc = chars_of(resolved_at);
    if rc.len() == 0 || chars_equal(&rc, &chars_of("null")) {
        return String::from_str("N/A");
    }
    let created_ms = parse_iso_to_ms(created_at);
    let resolved_ms = parse_iso_to_ms(resolved_at);
    match (created_ms, resolved_ms) {
        (Some(c), Some(r)) => resolution_duration_from_ms(c, r),
        _ => String::from_str("N/A"),
    }
}

/// The first index of `c` inside `[i, end)`, or -1 if there is none.
pub open spec fn find_in(s: Seq<char>, c: char, i: int, end: int) -> int
    decreases end - i,
{
    if i < 0 || i >= end || i >= s.len() {
        -1
    } else if s[i] == c {
        i
    } else {
        find_in(s, c, i + 1, end)
    }
}

/// A decimal digit.
pub open spec fn is_digit(c: char) -> bool {
    48 <= c as u32 <= 57
}

/// The value of a decimal digit.
pub open spec fn digit_val(c: char) -> int {
    c as u32 - 48
}

/// Every character in `[i, end)` is a decimal digit.
pub open spec fn all_digits(s: Seq<char>, i: int, end: int) -> bool {
    forall|j: int| i <= j < end ==> is_digit(s[j])
}

/// The value of the decimal digits in `[i, end)`, most significant first.
pub open spec fn dec_val(s: Seq<char>, i: int, end: int) -> int
    decreases end - i,
{
    if i >= end {
        0
    } else {
        dec_val(s, i, end - 1) * 10 + digit_val(s[end - 1])
    }
}

/// The region `[i, end)` parses as an unsigned number: non-empty digits,
/// after an optional leading plus sign.
pub open spec fn is_number(s: Seq<char>, i: int, end: int) -> bool {
    let start = if 0 <= i < s.len() && s[i] == '+' {
        i + 1
    } else {
        i
    };
    start < end && all_digits(s, start, end)
}

/// What parsing the region `[i, end)` as a u64 yields: its value when it
/// is a number that fits, nothing otherwise.
pub open spec fn spec_parse_u64(s: Seq<char>, i: int, end: int) -> Option<u64> {
    let start = if 0 <= i < s.len() && s[i] == '+' {
        i + 1
    } else {
        i
    };
    if is_number(s, i, end) && dec_val(s, start, end) <= u64::MAX {
        Some(dec_val(s, start, end) as u64)
    } else {
        None
    }
}

proof fn lemma_dec_val_grows(s: Seq<char>, i: int, j: int, end: int)
    requires
        i <= j <= end,
        all_digits(s, i, end),
    ensures
        dec_val(s, i, end) >= dec_val(s, i, j),
        dec_val(s, i, j) >= 0,
    decreases end - j,
{
    if j == end {
        lemma_dec_val_nonneg(s, i, j);
    } else {
        lemma_dec_val_grows(s, i, j + 1, end);
        lemma_dec_val_nonneg(s, i, j);
    }
}

proof fn lemma_dec_val_nonneg(s: Seq<char>, i: int, end: int)
    ensures
        (all_digits(s, i, end) ==> dec_val(s, i, end) >= 0),
    decreases end - i,
{
    if i < end {
        lemma_dec_val_nonneg(s, i, end - 1);
    }
}

/// Parses the region `[i, end)` as a u64.
#[verifier::loop_isolation(false)]
pub(crate) fn parse_u64_region(cs: &Vec<char>, i: usize, end: usize) -> (r: Option<u64>)
    requires
        i <= end <= cs@.len(),
    ensures
        r == spec_parse_u64(cs@, i as int, end as int),
{
    if i >= end {
        return None;
    }
    let start: usize = if cs[i] == '+' {
        i + 1
    } else {
        i
    };
    if start >= end {
        return None;
    }
    let mut acc: u64 = 0;
    let mut j = start;
    while j < end
        invariant
            start <= j <= end <= cs@.len(),
            all_digits(cs@, start as int, j as int),
            acc == dec_val(cs@, start as int, j as int),
        decreases end - j,
    {
        let c = cs[j];
        let cu = c as u32;
        if !(48 <= cu && cu <= 57) {
            return None;
        }
        let d: u64 = (cu - 48) as u64;
        if acc > (u64::MAX - d) / 10 {
            proof {
                assert(dec_val(cs@, start as int, j + 1) > u64::MAX);
            }
            let mut k = j + 1;
            while k < end
                invariant
                    start <= j < k <= end <= cs@.len(),
                    all_digits(cs@, start as int, k as int),
                    dec_val(cs@, start as int, j + 1) > u64::MAX,
                decreases end - k,
            {
                if !(48 <= cs[k] as u32 && cs[k] as u32 <= 57) {
                    return None;
                }
                k += 1;
            }
            proof {
                lemma_dec_val_grows(cs@, start as int, j + 1, end as int);
            }
            return None;
        }
        acc = acc * 10 + d;
        j += 1;
    }
    Some(acc)
}

/// How many trailing `Z` characters close the region `[i, end)`.
pub open spec fn strip_trailing_z(s: Seq<char>, i: int, end: int) -> int
    decreases end - i,
{
    if end > i && 0 <= end - 1 < s.len() && s[end - 1] == 'Z' {
        strip_trailing_z(s, i, end - 1)
    } else {
        end
    }
}

/// The milliseconds since the Unix epoch encoded by an ISO-8601 date-time
/// text: the date's three dash-separated fields drive the day count, the
/// optional time part contributes hours, minutes and seconds, trailing
/// zone markers and fractional seconds are ignored, and a malformed or
/// oversized field of the date makes the whole text unreadable.
pub open spec fn spec_parse_iso_ms(s: Seq<char>) -> Option<u64> {
    let n = s.len() as int;
    let tpos = find_in(s, 'T', 0, n);
    let dend = if tpos == -1 {
        n
    } else {
        tpos
    };
    let d1 = find_in(s, '-', 0, dend);
    let d2 = if d1 == -1 {
        -1
    } else {
        find_in(s, '-', d1 + 1, dend)
    };
    if d1 == -1 || d2 == -1 {
        None
    } else {
        let d3 = find_in(s, '-', d2 + 1, dend);
        let p3end = if d3 == -1 {
            dend
        } else {
            d3
        };
        let year = spec_parse_u64(s, 0, d1);
        let month = spec_parse_u64(s, d1 + 1, d2);
        let day = spec_parse_u64(s, d2 + 1, p3end);
        match (year, month, day) {
            (Some(y), Some(mo), Some(d)) => {
                if !(1 <= y <= 1000000 && mo <= 1000000 && d <= 1000000) {
                    None
                } else {
                    let (hh, mm, ss) = spec_time_fields(s, tpos, n);
                    if hh > 1000000 || mm > 1000000 || ss > 1000000 {
                        None
                    } else {
                        let days = spec_days_from_epoch(y as int, mo as int, d as int);
                        Some(((days * 86400 + hh * 3600 + mm * 60 + ss) * 1000) as u64)
                    }
                }
            },
            _ => None,
        }
    }
}

/// The hour, minute and second fields of the time part that follows the
/// first `T`, each zero when missing or malformed.
pub open spec fn spec_time_fields(s: Seq<char>, tpos: int, n: int) -> (int, int, int) {
    if tpos == -1 {
        (0, 0, 0)
    } else {
        let tstart = tpos + 1;
        let tend = {
            let t2 = find_in(s, 'T', tstart, n);
            if t2 == -1 {
                n
            } else {
                t2
            }
        };
        let zend = strip_trailing_z(s, tstart, tend);
        let pend = {
            let p = find_in(s, '+', tstart, zend);
            if p == -1 {
                zend
            } else {
                p
            }
        };
        let cend = {
            let dot = find_in(s, '.', tstart, pend);
            if dot == -1 {
                pend
            } else {
                dot
            }
        };
        let c1 = find_in(s, ':', tstart, cend);
        let hend = if c1 == -1 {
            cend
        } else {
            c1
        };
        let hh = opt_or_zero(spec_parse_u64(s, tstart, hend));
        if c1 == -1 {
            (hh, 0, 0)
        } else {
            let c2 = find_in(s, ':', c1 + 1, cend);
            let mend = if c2 == -1 {
                cend
            } else {
                c2
            };
            let mm = opt_or_zero(spec_parse_u64(s, c1 + 1, mend));
            if c2 == -1 {
                (hh, mm, 0)
            } else {
                let c3 = find_in(s, ':', c2 + 1, cend);
                let send = if c3 == -1 {
                    cend
                } else {
                    c3
                };
                let ss = opt_or_zero(spec_parse_u64(s, c2 + 1, send));
                (hh, mm, ss)
            }
        }
    }
}

/// The value of an optional number, zero when it is missing.
pub open spec fn opt_or_zero(o: Option<u64>) -> int {
    match o {
        Some(v) => v as int,
        None => 0,
    }
}

/// Finds the first `c` inside `[from, end)`.
pub(crate) fn find_char_in(cs: &Vec<char>, c: char, from: usize, end: usize) -> (r: Option<usize>)
    requires
        end <= cs@.len(),
    ensures
        match r {
            Some(j) => find_in(cs@, c, from as int, end as int) == j && from <= j < end,
            None => find_in(cs@, c, from as int, end as int) == -1,
        },
{
    let mut j = from;
    while j < end
        invariant
            end <= cs@.len(),
            from <= j,
            find_in(cs@, c, from as int, end as int) == find_in(cs@, c, j as int, end as int),
        decreases end - j,
    {
        if cs[j] == c {
            return Some(j);
        }
        j += 1;
    }
    None
}

/// Parses an ISO-8601 date-time text into milliseconds since the Unix
/// epoch, or nothing when the date part cannot be read.
pub fn parse_iso_to_ms(iso: &str) -> (r: Option<u64>)
    ensures
        r == spec_parse_iso_ms(iso@),
{
    let cs = chars_of(iso);
    let n = cs.len();
    let tpos = find_char_in(&cs, 'T', 0, n);
    let dend: usize = match tpos {
        Some(t) => t,
        None => n,
    };
    let d1 = match find_char_in(&cs, '-', 0, dend) {
        Some(j) => j,
        None => {
            return None;
        },
    };
    let d2 = match find_char_in(&cs, '-', d1 + 1, dend) {
        Some(j) => j,
        None => {
            return None;
        },
    };
    let p3end: usize = match find_char_in(&cs, '-', d2 + 1, dend) {
        Some(j) => j,
        None => dend,
    };
    let year = match parse_u64_region(&cs, 0, d1) {
        Some(v) => v,
        None => {
            return None;
        },
    };
    let month = match parse_u64_region(&cs, d1 + 1, d2) {
        Some(v) => v,
        None => {
            return None;
        },
    };
    let day = match parse_u64_region(&cs, d2 + 1, p3end) {
        Some(v) => v,
        None => {
            return None;
        },
    };
    if !(1 <= year && year <= 1000000 && month <= 1000000 && day <= 1000000) {
        return None;
    }
    let (hh, mm, ss) = time_fields(&cs, tpos);
    if hh > 1000000 || mm > 1000000 || ss > 1000000 {
        return None;
    }
    let days = days_from_epoch(year, month, day);
    Some((days * 86400 + hh * 3600 + mm * 60 + ss) * 1000)
}

/// Reads the hour, minute and second fields after the first `T`.
fn time_fields(cs: &Vec<char>, tpos: Option<usize>) -> (r: (u64, u64, u64))
    requires
        match tpos {
            Some(t) => find_in(cs@, 'T', 0, cs@.len() as int) == t && t < cs@.len(),
            None => find_in(cs@, 'T', 0, cs@.len() as int) == -1,
        },
    ensures
        ({
            let (hh, mm, ss) = spec_time_fields(
                cs@,
                match tpos {
                    Some(t) => t as int,
                    None => -1,
                },
                cs@.len() as int,
            );
            r.0 == hh && r.1 == mm && r.2 == ss
        }),
{
    let n = cs.len();
    let t = match tpos {
        Some(t) => t,
        None => {
            return (0, 0, 0);
        },
    };
    let tstart = t + 1;
    let tend: usize = match find_char_in(&cs, 'T', tstart, n) {
        Some(j) => j,
        None => n,
    };
    let mut zend = tend;
    while zend > tstart && cs[zend - 1] == 'Z'
        invariant
            tstart <= zend <= tend <= cs@.len(),
            strip_trailing_z(cs@, tstart as int, tend as int) == strip_trailing_z(
                cs@,
                tstart as int,
                zend as int,
            ),
        decreases zend,
    {
        zend -= 1;
    }
    proof {
        assert(strip_trailing_z(cs@, tstart as int, zend as int) == zend);
    }
    let pend: usize = match find_char_in(&cs, '+', tstart, zend) {
        Some(j) => j,
        None => zend,
    };
    let cend: usize = match find_char_in(&cs, '.', tstart, pend) {
        Some(j) => j,
        None => pend,
    };
    let c1 = find_char_in(&cs, ':', tstart, cend);
    let hend: usize = match c1 {
        Some(j) => j,
        None => cend,
    };
    let hh = match parse_u64_region(&cs, tstart, hend) {
        Some(v) => v,
        None => 0,
    };
    let c1v = match c1 {
        Some(j) => j,
        None => {
            return (hh, 0, 0);
        },
    };
    let c2 = find_char_in(&cs, ':', c1v + 1, cend);
    let mend: usize = match c2 {
        Some(j) => j,
        None => cend,
    };
    let mm = match parse_u64_region(&cs, c1v + 1, mend) {
        Some(v) => v,
        None => 0,
    };
    let c2v = match c2 {
        Some(j) => j,
        None => {
            return (hh, mm, 0);
        },
    };
    let send: usize = match find_char_in(&cs, ':', c2v + 1, cend) {
        Some(j) => j,
        None => cend,
    };
    let ss = match parse_u64_region(&cs, c2v + 1, send) {
        Some(v) => v,
        None => 0,
    };
    (hh, mm, ss)
}

} // verus!
