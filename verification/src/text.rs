//! Text building blocks: decimal rendering of integers, durations written
//! as hours and minutes, and thin wrappers over std string operations.

use vstd::prelude::*;

verus! {

/// The character for a decimal digit `d` (0..=9).
pub open spec fn digit_char(d: int) -> char {
    ((48 + d) as u8) as char
}

/// Decimal digits of a natural number, most significant first, no leading zeros.
pub open spec fn nat_text(n: nat) -> Seq<char>
    decreases n,
{
    if n < 10 {
        seq![digit_char(n as int)]
    } else {
        nat_text(n / 10).push(digit_char((n % 10) as int))
    }
}

/// Decimal text of an integer as Rust's `Display` writes it: a leading `-`
/// for negative values.
pub open spec fn int_text(i: int) -> Seq<char> {
    if i < 0 {
        seq!['-'] + nat_text((-i) as nat)
    } else {
        nat_text(i as nat)
    }
}

/// Rust's truncating integer division (rounds toward zero), for `b > 0`.
pub open spec fn trunc_div(a: int, b: int) -> int {
    if a >= 0 {
        a / b
    } else {
        -((-a) / b)
    }
}

/// Rust's remainder `%`, whose sign follows the dividend, for `b > 0`.
pub open spec fn trunc_rem(a: int, b: int) -> int {
    a - b * trunc_div(a, b)
}

/// Whole hours in `secs` seconds, as Rust's `secs / 3600` computes it.
pub open spec fn hours_of(secs: int) -> int {
    trunc_div(secs, 3600)
}

/// Whole minutes past the hour, as Rust's `(secs % 3600) / 60` computes it.
pub open spec fn minutes_of(secs: int) -> int {
    trunc_div(trunc_rem(secs, 3600), 60)
}

/// `"{h}h {m}m"` for a number of seconds.
pub open spec fn hm_text(secs: int) -> Seq<char> {
    int_text(hours_of(secs)) + "h "@ + int_text(minutes_of(secs)) + "m"@
}

/// `"{h}h {m}m"` when at least one whole hour is present, else `"{m}m"`.
pub open spec fn short_duration_text(secs: int) -> Seq<char> {
    if hours_of(secs) > 0 {
        hm_text(secs)
    } else {
        int_text(minutes_of(secs)) + "m"@
    }
}

/// Appends one character to a string.
///
/// Trusted: calls `String::push`, which std documents as appending the
/// given char to the end of the string.
#[verifier::external_body]
pub(crate) fn push_char(s: &mut String, c: char)
    ensures
        final(s)@ == old(s)@.push(c),
{
    s.push(c);
}

/// Equality of two string slices.
///
/// Trusted: calls `==` on `str`, which std defines as equality of the two
/// strings' contents; equal UTF-8 bytes are equal character sequences.
#[verifier::external_body]
pub(crate) fn str_eq(a: &str, b: &str) -> (r: bool)
    ensures
        r == (a@ == b@),
{
    a == b
}

/// The digit character for `d < 10`.
pub fn digit(d: u64) -> (c: char)
    requires
        d < 10,
    ensures
        c == digit_char(d as int),
{
    let code: u8 = 48 + d as u8;
    code as char
}

/// Decimal text of an unsigned number.
pub fn u64_text(n: u64) -> (s: String)
    ensures
        s@ == nat_text(n as nat),
    decreases n,
{
    if n < 10 {
        let mut s = String::new();
        push_char(&mut s, digit(n));
        proof {
            assert(s@ =~= seq![digit_char(n as int)]);
        }
        s
    } else {
        let mut s = u64_text(n / 10);
        push_char(&mut s, digit(n % 10));
        s
    }
}

/// Decimal text of a signed number, as `i64`'s `Display` writes it.
pub fn i64_text(n: i64) -> (s: String)
    ensures
        s@ == int_text(n as int),
{
    if n < 0 {
        let magnitude: u64 = (0i128 - n as i128) as u64;
        let digits = u64_text(magnitude);
        let mut s = String::new();
        push_char(&mut s, '-');
        s.append(digits.as_str());
        proof {
            assert(s@ =~= seq!['-'] + nat_text((-n) as nat));
        }
        s
    } else {
        u64_text(n as u64)
    }
}

/// Whole hours and whole minutes past the hour in `secs` seconds, with
/// Rust's truncating division: `(secs / 3600, (secs % 3600) / 60)`.
pub fn hours_minutes(secs: i64) -> (r: (i64, i64))
    ensures
        r.0 == hours_of(secs as int),
        r.1 == minutes_of(secs as int),
{
    let magnitude: u64 = if secs >= 0 {
        secs as u64
    } else {
        (0i128 - secs as i128) as u64
    };
    let h: u64 = magnitude / 3600;
    let m: u64 = (magnitude % 3600) / 60;
    assert(h <= 0x7fff_ffff_ffff_ffff);
    proof {
        let a = magnitude as int;
        assert(a % 3600 == a - 3600 * (a / 3600));
    }
    if secs >= 0 {
        (h as i64, m as i64)
    } else {
        (0 - h as i64, 0 - m as i64)
    }
}

/// `"{h}h {m}m"` for a number of seconds.
pub fn format_hm(secs: i64) -> (s: String)
    ensures
        s@ == hm_text(secs as int),
{
    let (h, m) = hours_minutes(secs);
    let mut s = i64_text(h);
    s.append("h ");
    let ms = i64_text(m);
    s.append(ms.as_str());
    s.append("m");
    s
}

/// `"{h}h {m}m"` when at least one whole hour is present, else `"{m}m"`.
pub fn format_short_duration(secs: i64) -> (s: String)
    ensures
        s@ == short_duration_text(secs as int),
{
    let (h, m) = hours_minutes(secs);
    if h > 0 {
        format_hm(secs)
    } else {
        let mut s = i64_text(m);
        s.append("m");
        s
    }
}

/// `n` spaces.
pub open spec fn spaces(n: int) -> Seq<char> {
    Seq::new(if n > 0 { n as nat } else { 0 }, |i: int| ' ')
}

/// `s` right-aligned in a field of `w` characters, as `{:>w}` writes it.
pub open spec fn align_right(s: Seq<char>, w: int) -> Seq<char> {
    spaces(w - s.len()) + s
}

/// `s` left-aligned in a field of `w` characters, as `{:w}` writes a string.
pub open spec fn align_left(s: Seq<char>, w: int) -> Seq<char> {
    s + spaces(w - s.len())
}

/// Appends `n` spaces.
pub fn push_spaces(s: &mut String, n: usize)
    ensures
        final(s)@ == old(s)@ + spaces(n as int),
{
    let ghost start = s@;
    let mut k: usize = 0;
    while k < n
        invariant
            k <= n,
            s@ == start + spaces(k as int),
        decreases n - k,
    {
        push_char(s, ' ');
        assert(spaces(k + 1) =~= spaces(k as int).push(' '));
        k = k + 1;
    }
}

/// Appends `t` right-aligned in a field of `w` characters.
pub fn push_right(s: &mut String, t: &str, w: usize)
    ensures
        final(s)@ == old(s)@ + align_right(t@, w as int),
{
    let len = t.unicode_len();
    let pad: usize = if len < w {
        w - len
    } else {
        0
    };
    push_spaces(s, pad);
    s.append(t);
    assert(spaces(pad as int) =~= spaces(w - t@.len()));
}

/// Appends `t` left-aligned in a field of `w` characters.
pub fn push_left(s: &mut String, t: &str, w: usize)
    ensures
        final(s)@ == old(s)@ + align_left(t@, w as int),
{
    let len = t.unicode_len();
    let pad: usize = if len < w {
        w - len
    } else {
        0
    };
    s.append(t);
    push_spaces(s, pad);
    assert(spaces(pad as int) =~= spaces(w - t@.len()));
}


/// The text `str::to_lowercase` makes of a string.
pub uninterp spec fn lowercase_text(s: Seq<char>) -> Seq<char>;

/// Lower-cases a string.
///
/// Trusted: calls `str::to_lowercase`; its text is named by `lowercase_text`.
#[verifier::external_body]
pub(crate) fn to_lowercase(s: &str) -> (t: String)
    ensures
        t@ == lowercase_text(s@),
{
    s.to_lowercase()
}

} // verus!
