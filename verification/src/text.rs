//! Pure text helpers: decimal rendering, failure reasons, byte-count and
//! star-rating display, release-date validation.

use vstd::prelude::*;
use vstd::string::StrSliceExecFns;
use vstd::string::StringExecFns;

verus! {

/// The character of one decimal digit.
pub open spec fn digit_char(d: int) -> char {
    if d == 0 {
        '0'
    } else if d == 1 {
        '1'
    } else if d == 2 {
        '2'
    } else if d == 3 {
        '3'
    } else if d == 4 {
        '4'
    } else if d == 5 {
        '5'
    } else if d == 6 {
        '6'
    } else if d == 7 {
        '7'
    } else if d == 8 {
        '8'
    } else {
        '9'
    }
}

/// The decimal digits of a non-negative number, most significant first.
pub open spec fn decimal_chars(n: int) -> Seq<char>
    recommends
        0 <= n,
    decreases n,
{
    if n < 10 {
        seq![digit_char(n)]
    } else {
        decimal_chars(n / 10).push(digit_char(n % 10))
    }
}

/// One decimal digit as a string slice.
fn digit_str(d: u8) -> (r: &'static str)
    requires
        d < 10,
    ensures
        r@ == seq![digit_char(d as int)],
{
    proof {
        reveal_strlit("0");
        reveal_strlit("1");
        reveal_strlit("2");
        reveal_strlit("3");
        reveal_strlit("4");
        reveal_strlit("5");
        reveal_strlit("6");
        reveal_strlit("7");
        reveal_strlit("8");
        reveal_strlit("9");
    }
    let r = match d {
        0 => "0",
        1 => "1",
        2 => "2",
        3 => "3",
        4 => "4",
        5 => "5",
        6 => "6",
        7 => "7",
        8 => "8",
        _ => "9",
    };
    proof {
        assert(r@ =~= seq![digit_char(d as int)]);
    }
    r
}

/// Append the decimal rendering of `n`.
fn push_decimal(s: &mut String, n: u64)
    ensures
        final(s)@ == old(s)@ + decimal_chars(n as int),
    decreases n,
{
    if n >= 10 {
        proof {
            assert(n / 10 < n);
        }
        push_decimal(s, n / 10);
    }
    let ghost mid = s@;
    let d = (n % 10) as u8;
    s.append(digit_str(d));
    proof {
        if n >= 10 {
            assert(decimal_chars(n as int) == decimal_chars(n as int / 10).push(
                digit_char(n as int % 10),
            ));
            assert(s@ =~= old(s)@ + decimal_chars(n as int));
        } else {
            assert(decimal_chars(n as int) == seq![digit_char(n as int)]);
            assert(s@ =~= old(s)@ + decimal_chars(n as int));
        }
    }
}

/// The decimal rendering of `n`.
pub fn u64_to_string(n: u64) -> (r: String)
    ensures
        r@ == decimal_chars(n as int),
{
    let mut s = String::new();
    push_decimal(&mut s, n);
    proof {
        assert(s@ =~= decimal_chars(n as int));
    }
    s
}

/// The decimal rendering of an integer, with a leading minus sign when
/// negative.
pub open spec fn int_chars(n: int) -> Seq<char> {
    if n < 0 {
        seq!['-'] + decimal_chars(-n)
    } else {
        decimal_chars(n)
    }
}

pub fn i64_to_string(n: i64) -> (r: String)
    ensures
        r@ == int_chars(n as int),
{
    if n >= 0 {
        u64_to_string(n as u64)
    } else {
        let m: u64 = ((-(n + 1)) as u64) + 1;
        let mut s = String::from_str("-");
        push_decimal(&mut s, m);
        proof {
            reveal_strlit("-");
            assert("-"@ =~= seq!['-']);
            assert(s@ =~= int_chars(n as int));
        }
        s
    }
}

/// The reason string of a protocol failure: `HTTP ` followed by the decimal
/// status code.
pub open spec fn http_reason_chars(code: int) -> Seq<char> {
    "HTTP "@ + decimal_chars(code)
}

pub fn http_status_reason(code: u16) -> (r: String)
    ensures
        r@ == http_reason_chars(code as int),
{
    let mut s = String::from_str("HTTP ");
    push_decimal(&mut s, code as u64);
    s
}

/// `bytes` scaled to tenths of `unit`, rounded to the nearest tenth; a value
/// exactly halfway between two tenths goes to the even one.
pub open spec fn scaled_tenths(bytes: int, unit: int) -> int
    recommends
        unit >= 2,
{
    let t = (10 * bytes) / unit;
    let r = (10 * bytes) % unit;
    if 2 * r < unit {
        t
    } else if 2 * r > unit {
        t + 1
    } else if t % 2 == 0 {
        t
    } else {
        t + 1
    }
}

/// A quantity in tenths, rendered with one decimal place.
pub open spec fn one_decimal_chars(tenths: int) -> Seq<char>
    recommends
        0 <= tenths,
{
    decimal_chars(tenths / 10) + seq!['.'] + seq![digit_char(tenths % 10)]
}

/// The human-readable rendering of a byte count: whole bytes under 1024 B,
/// otherwise tenths of KB (1024 bytes) or of MB (1048576 bytes), rounded to
/// the nearest tenth with ties to the even tenth.
pub open spec fn format_bytes_chars(bytes: int) -> Seq<char> {
    if bytes >= 1048576 {
        one_decimal_chars(scaled_tenths(bytes, 1048576)) + " MB"@
    } else if bytes >= 1024 {
        one_decimal_chars(scaled_tenths(bytes, 1024)) + " KB"@
    } else {
        decimal_chars(bytes) + " B"@
    }
}

/// Append `tenths` as a number with one decimal place.
fn push_one_decimal(s: &mut String, tenths: u64)
    ensures
        final(s)@ == old(s)@ + one_decimal_chars(tenths as int),
{
    push_decimal(s, tenths / 10);
    s.append(".");
    s.append(digit_str((tenths % 10) as u8));
    proof {
        reveal_strlit(".");
        assert("."@ =~= seq!['.']);
        assert(s@ =~= old(s)@ + one_decimal_chars(tenths as int));
    }
}

/// Format bytes into a human-readable string (B, KB, MB).
pub fn format_bytes(bytes: u64) -> (r: String)
    ensures
        r@ == format_bytes_chars(bytes as int),
{
    let mut s = String::new();
    if bytes >= 1048576 {
        let prod: u128 = (bytes as u128) * 10;
        let q: u128 = prod / 1048576;
        let r: u128 = prod % 1048576;
        let t128: u128 = if 2 * r < 1048576 {
            q
        } else if 2 * r > 1048576 {
            q + 1
        } else if q % 2 == 0 {
            q
        } else {
            q + 1
        };
        let t = t128 as u64;
        proof {
            assert(t as int == scaled_tenths(bytes as int, 1048576));
        }
        push_one_decimal(&mut s, t);
        s.append(" MB");
    } else if bytes >= 1024 {
        let prod: u64 = bytes * 10;
        let q: u64 = prod / 1024;
        let r: u64 = prod % 1024;
        let t: u64 = if 2 * r < 1024 {
            q
        } else if 2 * r > 1024 {
            q + 1
        } else if q % 2 == 0 {
            q
        } else {
            q + 1
        };
        proof {
            assert(t as int == scaled_tenths(bytes as int, 1024));
        }
        push_one_decimal(&mut s, t);
        s.append(" KB");
    } else {
        push_decimal(&mut s, bytes);
        s.append(" B");
    }
    proof {
        assert(s@ =~= format_bytes_chars(bytes as int));
    }
    s
}

/// The star-rating display: `stars` filled stars, then hollow stars up to
/// five.
pub open spec fn stars_chars(stars: int) -> Seq<char> {
    Seq::new(
        5,
        |i: int|
            if i < stars {
                '★'
            } else {
                '☆'
            },
    )
}

/// Render a star rating display.
pub fn render_stars(stars: i32) -> (r: String)
    requires
        0 <= stars <= 5,
    ensures
        r@ == stars_chars(stars as int),
{
    proof {
        reveal_strlit("★");
        reveal_strlit("☆");
    }
    let mut s = String::new();
    let mut i: i32 = 0;
    while i < 5
        invariant
            0 <= i <= 5,
            0 <= stars <= 5,
            s@ == stars_chars(stars as int).take(i as int),
        decreases 5 - i,
    {
        proof {
            assert(stars_chars(stars as int).take(i + 1) =~= stars_chars(stars as int).take(
                i as int,
            ).push(stars_chars(stars as int)[i as int]));
        }
        if i < stars {
            s.append("★");
        } else {
            s.append("☆");
        }
        proof {
            reveal_strlit("★");
            reveal_strlit("☆");
            assert(s@ =~= stars_chars(stars as int).take(i + 1));
        }
        i = i + 1;
    }
    proof {
        assert(stars_chars(stars as int).take(5) =~= stars_chars(stars as int));
    }
    s
}

pub open spec fn is_ascii_digit_char(c: char) -> bool {
    48 <= c as u32 <= 57
}

/// A release date is presentable when it has at least four characters and
/// opens with four decimal digits (a year).
pub open spec fn valid_release_date(s: Seq<char>) -> bool {
    s.len() >= 4 && forall|i: int| 0 <= i < 4 ==> is_ascii_digit_char(s[i])
}

/// Format a release date, returning `N/A` for invalid dates.
pub fn format_release_date<'a>(date: &'a str) -> (r: &'a str)
    ensures
        valid_release_date(date@) ==> r@ == date@,
        !valid_release_date(date@) ==> r@ == "N/A"@,
{
    let n = date.unicode_len();
    if n < 4 {
        return "N/A";
    }
    let mut i: usize = 0;
    while i < 4
        invariant
            i <= 4,
            date@.len() >= 4,
            forall|j: int| 0 <= j < i ==> is_ascii_digit_char(date@[j]),
        decreases 4 - i,
    {
        let c = date.get_char(i);
        let v = c as u32;
        if v < 48 || v > 57 {
            return "N/A";
        }
        i = i + 1;
    }
    date
}

} // verus!
