//! Display-side helpers invoked around the sanitization core: duration
//! formatting, pagination arithmetic and calendar-day arithmetic. They
//! carry no trust boundary but their arithmetic is exact, so it is stated
//! and proved here; the host keeps only the floating-point and transport
//! edges.
use vstd::prelude::*;
use crate::chars::string_of;

verus! {

/// The decimal digit character for a value below ten.
pub open spec fn dec_digit(d: int) -> char {
    if d == 0 {
        '0'
    } else if d == 1 {
        '1'
    } else if d == 2 {
        '2'
    } else if d == 3 {
        '3'
    } else if d == 4 {
        '4'
    } else if d == 5 {
        '5'
    } else if d == 6 {
        '6'
    } else if d == 7 {
        '7'
    } else if d == 8 {
        '8'
    } else {
        '9'
    }
}

/// The decimal digits of a non-negative number, most significant first.
pub open spec fn spec_dec(n: int) -> Seq<char>
    decreases n,
{
    if n <= 9 {
        seq![dec_digit(n)]
    } else {
        spec_dec(n / 10) + seq![dec_digit(n % 10)]
    }
}

fn digit_char(d: u64) -> (c: char)
    requires
        d <= 9,
    ensures
        c == dec_digit(d as int),
{
    if d == 0 {
        '0'
    } else if d == 1 {
        '1'
    } else if d == 2 {
        '2'
    } else if d == 3 {
        '3'
    } else if d == 4 {
        '4'
    } else if d == 5 {
        '5'
    } else if d == 6 {
        '6'
    } else if d == 7 {
        '7'
    } else if d == 8 {
        '8'
    } else {
        '9'
    }
}

fn u64_to_dec(n: u64) -> (v: Vec<char>)
    ensures
        v@ == spec_dec(n as int),
    decreases n,
{
    if n <= 9 {
        let mut v: Vec<char> = Vec::new();
        v.push(digit_char(n));
        proof {
            assert(v@ =~= seq![dec_digit(n as int)]);
        }
        v
    } else {
        let mut v = u64_to_dec(n / 10);
        v.push(digit_char(n % 10));
        proof {
            assert(v@ =~= spec_dec(n as int / 10) + seq![dec_digit(n as int % 10)]);
        }
        v
    }
}

/// A duration in whole minutes rendered as `Xh Ym` when at least an hour,
/// and as `Ym` below one hour.
pub open spec fn spec_format_hm(total_minutes: int) -> Seq<char> {
    let h = total_minutes / 60;
    let m = total_minutes % 60;
    if h > 0 {
        spec_dec(h) + seq!['h', ' '] + spec_dec(m) + seq!['m']
    } else {
        spec_dec(m) + seq!['m']
    }
}

/// Renders a whole-minute duration as `Xh Ym`, or `Ym` under one hour.
pub fn format_minutes_to_duration(total_minutes: u64) -> (r: String)
    ensures
        r@ == spec_format_hm(total_minutes as int),
{
    let hours = total_minutes / 60;
    let minutes = total_minutes % 60;
    let mut v: Vec<char> = Vec::new();
    if hours > 0 {
        let mut hd = u64_to_dec(hours);
        v.append(&mut hd);
        v.push('h');
        v.push(' ');
    }
    let mut md = u64_to_dec(minutes);
    v.append(&mut md);
    v.push('m');
    proof {
        if total_minutes as int / 60 > 0 {
            assert(v@ =~= spec_dec(total_minutes as int / 60) + seq!['h', ' '] + spec_dec(
                total_minutes as int % 60,
            ) + seq!['m']);
        } else {
            assert(v@ =~= spec_dec(total_minutes as int % 60) + seq!['m']);
        }
    }
    string_of(&v)
}

/// The duration between two moments given in milliseconds, rendered as
/// `Xh Ym`; a resolution before its creation counts as zero.
pub fn resolution_duration_from_ms(created_ms: u64, resolved_ms: u64) -> (r: String)
    ensures
        r@ == spec_format_hm(
            (if resolved_ms > created_ms {
                resolved_ms - created_ms
            } else {
                0
            }) as int / 60000,
        ),
{
    let diff_ms: u64 = if resolved_ms > created_ms {
        resolved_ms - created_ms
    } else {
        0
    };
    format_minutes_to_duration(diff_ms / 60_000)
}

/// The window of visible page numbers: centred on the current page where
/// possible, clamped to the total, and widened back toward the start when
/// the end of the range cuts it short.
pub open spec fn page_window(current: int, total: int, max_shown: int) -> (int, int) {
    let half = max_shown / 2;
    let s0 = if current > half {
        current - half
    } else {
        1
    };
    let e = if s0 + max_shown - 1 <= total {
        s0 + max_shown - 1
    } else {
        total
    };
    let s = if e - s0 < max_shown - 1 {
        if e >= max_shown {
            e - max_shown + 1
        } else {
            1
        }
    } else {
        s0
    };
    (s, e)
}

/// Computes the visible page numbers for pagination: the pages
/// `page_window` selects, in increasing order; no pages when there are
/// none.
pub fn compute_page_numbers(current_page: u32, total_pages: u32, max_pages_to_show: u32) -> (r: Vec<
    u32,
>)
    requires
        max_pages_to_show >= 1,
        current_page <= total_pages + max_pages_to_show / 2,
    ensures
        total_pages == 0 ==> r@.len() == 0,
        total_pages > 0 ==> {
            let (s, e) = page_window(
                current_page as int,
                total_pages as int,
                max_pages_to_show as int,
            );
            &&& r@.len() == e + 1 - s
            &&& forall|i: int| 0 <= i < r@.len() ==> r@[i] == s + i
        },
{
    if total_pages == 0 {
        return Vec::new();
    }
    let current: u64 = current_page as u64;
    let total: u64 = total_pages as u64;
    let max_shown: u64 = max_pages_to_show as u64;
    let half = max_shown / 2;
    let start0: u64 = if current > half {
        current - half
    } else {
        1
    };
    let end: u64 = if start0 + max_shown - 1 <= total {
        start0 + max_shown - 1
    } else {
        total
    };
    let start: u64 = if end - start0 < max_shown - 1 {
        if end >= max_shown {
            end - max_shown + 1
        } else {
            1
        }
    } else {
        start0
    };
    let mut r: Vec<u32> = Vec::new();
    let mut p = start;
    while p <= end
        invariant
            1 <= start <= end <= total <= u32::MAX,
            start <= p <= end + 1,
            r@.len() == p - start,
            forall|i: int| 0 <= i < r@.len() ==> r@[i] == start + i,
        decreases end + 1 - p,
    {
        r.push(p as u32);
        p += 1;
    }
    r
}

/// The Rata Die day count of a calendar date, shifted so that the Unix
/// epoch is day zero; days before the epoch clamp to zero.
pub open spec fn spec_days_from_epoch(year: int, month: int, day: int) -> int {
    let y = if month <= 2 {
        year - 1
    } else {
        year
    };
    let m = if month <= 2 {
        month + 9
    } else {
        month - 3
    };
    let d = 365 * y + y / 4 - y / 100 + y / 400 + (m * 306 + 5) / 10 + day - 1;
    if d >= 719468 {
        d - 719468
    } else {
        0
    }
}

/// Calculates the days from the Unix epoch for a given date, by the Rata
/// Die algorithm, clamping dates before the epoch to zero.
pub fn days_from_epoch(year: u64, month: u64, day: u64) -> (r: u64)
    requires
        1 <= year <= 1000000,
        month <= 1000000,
        day <= 1000000,
    ensures
        r as int == spec_days_from_epoch(year as int, month as int, day as int),
{
    let y: u64 = if month <= 2 {
        year - 1
    } else {
        year
    };
    let m: u64 = if month <= 2 {
        month + 9
    } else {
        month - 3
    };
    let days: u64 = 365 * y + y / 4 - y / 100 + y / 400 + (m * 306 + 5) / 10 + day;
    proof {
        assert(365 * (y as int) + (y as int) / 4 - (y as int) / 100 + (y as int) / 400 >= 0);
        assert(((m as int) * 306 + 5) / 10 >= 0);
    }
    let days = days - 1;
    if days >= 719468 {
        days - 719468
    } else {
        0
    }
}

} // verus!
