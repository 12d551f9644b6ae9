//! Reading what each platform reports about the foreground window: the
//! `name|bundle` line that AppleScript prints on macOS, the `WM_CLASS`
//! property on X11, and the executable path on Windows.

use vstd::prelude::*;
use crate::collectors::recorder::opt_view;

verus! {

/// The text `String::from_utf8_lossy` makes of some bytes.
pub uninterp spec fn lossy_text(bytes: Seq<u8>) -> Seq<char>;

/// Whether a character has the Unicode `White_Space` property, as
/// `char::is_whitespace` tells: U+0009 to U+000D, U+0020, U+0085, U+00A0,
/// U+1680, U+2000 to U+200A, U+2028, U+2029, U+202F, U+205F and U+3000.
pub open spec fn white_space(c: char) -> bool {
    let n = c as u32;
    ||| 0x09 <= n <= 0x0d
    ||| n == 0x20
    ||| n == 0x85
    ||| n == 0xa0
    ||| n == 0x1680
    ||| 0x2000 <= n <= 0x200a
    ||| n == 0x2028
    ||| n == 0x2029
    ||| n == 0x202f
    ||| n == 0x205f
    ||| n == 0x3000
}

/// The text `String::from_utf8` decodes from some bytes, or `None` when they
/// are not valid UTF-8.
pub uninterp spec fn utf8_text(bytes: Seq<u8>) -> Option<Seq<char>>;

/// Decodes bytes as UTF-8, failing on invalid input.
///
/// Trusted: calls `String::from_utf8`; its answer is named by `utf8_text`.
#[verifier::external_body]
fn utf8_strict(bytes: Vec<u8>) -> (s: Option<String>)
    ensures
        opt_view(s) == utf8_text(bytes@),
{
    match String::from_utf8(bytes) {
        Ok(s) => Some(s),
        Err(_) => None,
    }
}

/// Decodes bytes as UTF-8, replacing invalid sequences.
///
/// Trusted: calls `String::from_utf8_lossy` and takes the owned string; its
/// text is named by `lossy_text`.
#[verifier::external_body]
fn utf8_lossy(bytes: &[u8]) -> (s: String)
    ensures
        s@ == lossy_text(bytes@),
{
    String::from_utf8_lossy(bytes).into_owned()
}

/// Whether a character is Unicode white space.
fn is_white_space(c: char) -> (r: bool)
    ensures
        r == white_space(c),
{
    let n = c as u32;
    (0x09 <= n && n <= 0x0d) || n == 0x20 || n == 0x85 || n == 0xa0 || n == 0x1680 || (0x2000 <= n
        && n <= 0x200a) || n == 0x2028 || n == 0x2029 || n == 0x202f || n == 0x205f || n == 0x3000
}

/// Position of the first `x` in `s`, or the length of `s` when there is none.
pub open spec fn first_pos<A>(s: Seq<A>, x: A) -> int
    decreases s.len(),
{
    if s.len() == 0 {
        0
    } else if s[0] == x {
        0
    } else {
        1 + first_pos(s.drop_first(), x)
    }
}

/// Position of the last `x` in `s`, or -1 when there is none.
pub open spec fn last_pos<A>(s: Seq<A>, x: A) -> int
    decreases s.len(),
{
    if s.len() == 0 {
        -1
    } else if s.last() == x {
        s.len() - 1
    } else {
        last_pos(s.drop_last(), x)
    }
}

/// `s` without its leading white space.
pub open spec fn trim_start(s: Seq<char>) -> Seq<char>
    decreases s.len(),
{
    if s.len() > 0 && white_space(s[0]) {
        trim_start(s.drop_first())
    } else {
        s
    }
}

/// `s` without its trailing white space.
pub open spec fn trim_end(s: Seq<char>) -> Seq<char>
    decreases s.len(),
{
    if s.len() > 0 && white_space(s.last()) {
        trim_end(s.drop_last())
    } else {
        s
    }
}

/// `s` without leading and trailing white space, as `str::trim` leaves it.
pub open spec fn trimmed(s: Seq<char>) -> Seq<char> {
    trim_end(trim_start(s))
}

proof fn lemma_first_pos<A>(s: Seq<A>, x: A, k: int)
    requires
        0 <= k <= s.len(),
        forall|i: int| 0 <= i < k ==> s[i] != x,
        k == s.len() || s[k] == x,
    ensures
        first_pos(s, x) == k,
    decreases s.len(),
{
    if s.len() > 0 && s[0] != x {
        lemma_first_pos(s.drop_first(), x, k - 1);
    }
}

proof fn lemma_last_pos<A>(s: Seq<A>, x: A, k: int)
    requires
        -1 <= k < s.len(),
        forall|i: int| k < i < s.len() ==> s[i] != x,
        k == -1 || s[k] == x,
    ensures
        last_pos(s, x) == k,
    decreases s.len(),
{
    if s.len() > 0 && s.last() != x {
        lemma_last_pos(s.drop_last(), x, k);
    }
}

/// `s` without leading and trailing white space.
pub fn trim_text(s: &str) -> (t: String)
    ensures
        t@ == trimmed(s@),
{
    let n = s.unicode_len();
    let mut i: usize = 0;
    assert(s@.subrange(0, n as int) =~= s@);
    while i < n && is_white_space(s.get_char(i))
        invariant
            n == s@.len(),
            i <= n,
            trim_start(s@) == trim_start(s@.subrange(i as int, n as int)),
        decreases n - i,
    {
        assert(s@.subrange(i as int, n as int).drop_first() =~= s@.subrange(i + 1, n as int));
        i = i + 1;
    }
    proof {
        if i < n {
            assert(s@.subrange(i as int, n as int)[0] == s@[i as int]);
        }
    }
    assert(trim_start(s@) == s@.subrange(i as int, n as int));
    let mut j: usize = n;
    while j > i && is_white_space(s.get_char(j - 1))
        invariant
            n == s@.len(),
            i <= j <= n,
            trim_end(s@.subrange(i as int, n as int)) == trim_end(s@.subrange(i as int, j as int)),
        decreases j - i,
    {
        assert(s@.subrange(i as int, j as int).drop_last() =~= s@.subrange(i as int, j - 1));
        j = j - 1;
    }
    proof {
        if j > i {
            assert(s@.subrange(i as int, j as int).last() == s@[j - 1]);
        }
    }
    let part = s.substring_char(i, j);
    part.to_owned()
}

/// Position of the first `c` in `s`, or its length.
fn find_char(s: &str, c: char) -> (k: usize)
    ensures
        k == first_pos(s@, c),
        k <= s@.len(),
{
    let n = s.unicode_len();
    let mut i: usize = 0;
    while i < n && s.get_char(i) != c
        invariant
            n == s@.len(),
            i <= n,
            forall|m: int| 0 <= m < i ==> s@[m] != c,
        decreases n - i,
    {
        i = i + 1;
    }
    proof {
        lemma_first_pos(s@, c, i as int);
    }
    i
}

/// What `text.splitn(2, '|')` gives when it yields two parts: the text
/// before the first `|` and the text after it; `None` without a `|`.
pub open spec fn split_bar(text: Seq<char>) -> Option<(Seq<char>, Seq<char>)> {
    let k = first_pos(text, '|');
    if k < text.len() {
        Some((text.subrange(0, k), text.subrange(k + 1, text.len() as int)))
    } else {
        None
    }
}

/// The application name and bundle identifier from the text AppleScript
/// prints for the frontmost process, `name|bundle`: the text is trimmed and
/// split at its first `|`; without one there is no answer.
pub fn parse_frontmost_text(text: &str) -> (r: Option<(String, String)>)
    ensures
        match split_bar(trimmed(text@)) {
            Some(parts) => r is Some && (r->0).0@ == parts.0 && (r->0).1@ == parts.1,
            None => r is None,
        },
{
    let t = trim_text(text);
    let n = t.unicode_len();
    let k = find_char(t.as_str(), '|');
    if k < n {
        let name = t.as_str().substring_char(0, k).to_owned();
        let bundle = t.as_str().substring_char(k + 1, n).to_owned();
        Some((name, bundle))
    } else {
        None
    }
}

/// The same, from the bytes AppleScript wrote, decoded as UTF-8 with
/// invalid sequences replaced.
pub fn parse_frontmost_output(stdout: &[u8]) -> (r: Option<(String, String)>)
    ensures
        match split_bar(trimmed(lossy_text(stdout@))) {
            Some(parts) => r is Some && (r->0).0@ == parts.0 && (r->0).1@ == parts.1,
            None => r is None,
        },
{
    let decoded = utf8_lossy(stdout);
    parse_frontmost_text(decoded.as_str())
}

/// The window name from X11's two name properties: the UTF-8
/// `_NET_WM_NAME` when it is not empty (no name when it is not valid
/// UTF-8), else the legacy `WM_NAME` decoded with replacement when it is not
/// empty, else no name.
pub fn window_name(net_wm_name: Vec<u8>, wm_name: &[u8]) -> (r: Option<String>)
    ensures
        net_wm_name@.len() > 0 ==> opt_view(r) == utf8_text(net_wm_name@),
        net_wm_name@.len() == 0 && wm_name@.len() > 0 ==> opt_view(r) == Some(lossy_text(wm_name@)),
        net_wm_name@.len() == 0 && wm_name@.len() == 0 ==> r is None,
{
    if net_wm_name.len() > 0 {
        utf8_strict(net_wm_name)
    } else if wm_name.len() > 0 {
        Some(utf8_lossy(wm_name))
    } else {
        None
    }
}

/// Position of the first zero byte in `s` from `from`, or its length.
fn find_zero(s: &[u8], from: usize) -> (k: usize)
    requires
        from <= s@.len(),
    ensures
        k == from + first_pos(s@.subrange(from as int, s@.len() as int), 0u8),
        from <= k <= s@.len(),
{
    let n = s.len();
    let mut i: usize = from;
    while i < n && s[i] != 0
        invariant
            n == s@.len(),
            from <= i <= n,
            forall|m: int| from <= m < i ==> s@[m] != 0u8,
        decreases n - i,
    {
        i = i + 1;
    }
    proof {
        lemma_first_pos(s@.subrange(from as int, n as int), 0u8, i - from);
    }
    i
}

/// The first two of the zero-separated parts of `value`, and whether there
/// is a second one.
pub open spec fn class_parts(value: Seq<u8>) -> (Seq<u8>, bool, Seq<u8>) {
    let z0 = first_pos(value, 0u8);
    let rest = value.subrange(z0 + 1, value.len() as int);
    if z0 < value.len() {
        (value.subrange(0, z0), true, rest.subrange(0, first_pos(rest, 0u8)))
    } else {
        (value, false, Seq::empty())
    }
}

/// The application class from an X11 `WM_CLASS` property: of its
/// zero-separated instance and class names, the class name when present and
/// not empty, else the instance name when not empty, else nothing.
pub fn window_class(value: &[u8]) -> (r: Option<String>)
    ensures
        ({
            let (first, has_second, second) = class_parts(value@);
            if value@.len() == 0 {
                r is None
            } else if has_second && second.len() > 0 {
                r is Some && r->0@ == lossy_text(second)
            } else if first.len() > 0 {
                r is Some && r->0@ == lossy_text(first)
            } else {
                r is None
            }
        }),
{
    let n = value.len();
    if n == 0 {
        return None;
    }
    let z0 = find_zero(value, 0);
    assert(value@.subrange(0, n as int) =~= value@);
    if z0 < n {
        let z1 = find_zero(value, z0 + 1);
        proof {
            let rest = value@.subrange(z0 + 1, n as int);
            assert(rest.subrange(0, z1 - z0 - 1) =~= value@.subrange(z0 + 1, z1 as int));
        }
        if z1 > z0 + 1 {
            let second = &value[z0 + 1..z1];
            return Some(utf8_lossy(second));
        }
    }
    if z0 > 0 {
        let first = &value[0..z0];
        proof {
            if z0 == n {
                assert(value@.subrange(0, z0 as int) =~= value@);
            }
        }
        Some(utf8_lossy(first))
    } else {
        None
    }
}

/// The file name of a Windows executable path: the text after its last
/// backslash, or the whole path without one.
pub fn exe_file_name(path: &str) -> (name: String)
    ensures
        name@ == path@.subrange(last_pos(path@, '\\') + 1, path@.len() as int),
{
    let n = path.unicode_len();
    let mut j: usize = n;
    while j > 0 && path.get_char(j - 1) != '\\'
        invariant
            n == path@.len(),
            j <= n,
            forall|m: int| j <= m < n ==> path@[m] != '\\',
        decreases j,
    {
        j = j - 1;
    }
    proof {
        lemma_last_pos(path@, '\\', j - 1);
    }
    path.substring_char(j, n).to_owned()
}

} // verus!
