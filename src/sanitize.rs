//! File-name sanitizing for the target operating system.
use vstd::prelude::*;

use crate::chars::{chars_of, copy_range, push_chars, push_str, string_of, trim, trim_chars};

verus! {

/// The operating systems whose file-name rules are known.
#[derive(Debug, Clone, Copy, PartialEq, Eq, Structural)]
pub enum OperatingSystem {
    Windows,
    MacOs,
    Linux,
    Other,
}

pub open spec fn is_control(c: char) -> bool {
    (c as u32) < 32
}

pub open spec fn forbidden_on(os: OperatingSystem, c: char) -> bool {
    is_control(c) || match os {
        OperatingSystem::Windows => c == '<' || c == '>' || c == ':' || c == '"' || c == '/' || c
            == '\\' || c == '|' || c == '?' || c == '*',
        OperatingSystem::MacOs => c == ':',
        _ => c == '/',
    }
}

/// `s` with each character that `os` forbids replaced by `_` (on Windows, NUL
/// characters are dropped instead).
pub open spec fn replace_forbidden(s: Seq<char>, os: OperatingSystem) -> Seq<char>
    decreases s.len(),
{
    if s.len() == 0 {
        s
    } else {
        let c = s.last();
        let rest = replace_forbidden(s.drop_last(), os);
        if os == OperatingSystem::Windows && c == '\0' {
            rest
        } else if forbidden_on(os, c) {
            rest.push('_')
        } else {
            rest.push(c)
        }
    }
}

/// `s` without trailing spaces and dots.
pub open spec fn strip_trailing_dots(s: Seq<char>) -> Seq<char>
    decreases s.len(),
{
    if s.len() > 0 && (s.last() == ' ' || s.last() == '.') {
        strip_trailing_dots(s.drop_last())
    } else {
        s
    }
}

pub open spec fn ascii_upper(c: char) -> char {
    if 'a' <= c && c <= 'z' {
        (((c as u32) - 32) as u8) as char
    } else {
        c
    }
}

pub open spec fn upper_is(s: Seq<char>, t: Seq<char>) -> bool {
    s.len() == t.len() && forall|i: int| 0 <= i < s.len() ==> ascii_upper(#[trigger] s[i]) == t[i]
}

/// A Windows device name (`CON`, `PRN`, `AUX`, `NUL`, `COM1`..`COM9`,
/// `LPT1`..`LPT9`), in any letter case.
pub open spec fn is_device_name(s: Seq<char>) -> bool {
    ||| upper_is(s, seq!['C', 'O', 'N'])
    ||| upper_is(s, seq!['P', 'R', 'N'])
    ||| upper_is(s, seq!['A', 'U', 'X'])
    ||| upper_is(s, seq!['N', 'U', 'L'])
    ||| (s.len() == 4 && '1' <= s[3] && s[3] <= '9' && (upper_is(s.take(3), seq!['C', 'O', 'M'])
        || upper_is(s.take(3), seq!['L', 'P', 'T'])))
}

/// `s` up to its first `.`.
pub open spec fn before_dot(s: Seq<char>) -> Seq<char>
    decreases s.len(),
{
    if s.len() == 0 {
        s
    } else if s[0] == '.' {
        Seq::empty()
    } else {
        seq![s[0]] + before_dot(s.drop_first())
    }
}

/// UTF-8 length of `c` in bytes.
pub open spec fn utf8_len(c: char) -> nat {
    if (c as u32) < 0x80 {
        1
    } else if (c as u32) < 0x800 {
        2
    } else if (c as u32) < 0x10000 {
        3
    } else {
        4
    }
}

/// UTF-8 length of `s` in bytes.
pub open spec fn utf8_size(s: Seq<char>) -> nat
    decreases s.len(),
{
    if s.len() == 0 {
        0
    } else {
        utf8_size(s.drop_last()) + utf8_len(s.last())
    }
}

/// The longest prefix of `s` that takes at most `budget` bytes in UTF-8.
pub open spec fn fit_prefix(s: Seq<char>, budget: nat) -> Seq<char>
    decreases s.len(),
{
    if s.len() == 0 || utf8_len(s[0]) > budget {
        Seq::empty()
    } else {
        seq![s[0]] + fit_prefix(s.drop_first(), (budget - utf8_len(s[0])) as nat)
    }
}

pub open spec fn fallback_name() -> Seq<char> {
    seq!['a', 'u', 'd', 'i', 'o', 'b', 'o', 'o', 'k']
}

/// The OS-specific part of sanitizing, applied to the trimmed name (or to the
/// fallback name when the trimmed name is empty).
pub open spec fn os_sanitized(s: Seq<char>, os: OperatingSystem, is_folder: bool) -> Seq<char> {
    let r = replace_forbidden(s, os);
    if os == OperatingSystem::Windows {
        let t = strip_trailing_dots(r);
        if is_device_name(t) || is_device_name(before_dot(t)) {
            seq!['_'] + t
        } else {
            t
        }
    } else if is_folder && r.len() > 0 && r[0] == '.' {
        seq!['_'] + r.drop_first()
    } else {
        r
    }
}

/// On Windows, a name that is a device name (whole or before its first dot)
/// gets a `_` in front, and is cut again to 255 bytes without trailing spaces
/// and dots; other names are kept.
pub open spec fn guard_device(s: Seq<char>, os: OperatingSystem) -> Seq<char> {
    if os == OperatingSystem::Windows && (is_device_name(s) || is_device_name(before_dot(s))) {
        strip_trailing_dots(fit_prefix(seq!['_'] + s, 255))
    } else {
        s
    }
}

/// The file-system-safe form of `name` on `os`: trimmed; forbidden characters
/// replaced by `_`; on Windows, trailing spaces and dots removed and device
/// names prefixed with `_`; elsewhere, a leading dot of a folder name turned
/// into `_`. A name longer than 255 bytes is cut to its longest prefix of at
/// most 255 bytes, without trailing spaces and dots, and on Windows the device
/// name test is applied again to what is left. An empty result becomes
/// `audiobook`.
pub open spec fn sanitized_name(name: Seq<char>, os: OperatingSystem, is_folder: bool) -> Seq<
    char,
> {
    let t = trim(name);
    let s = os_sanitized(if t.len() == 0 { fallback_name() } else { t }, os, is_folder);
    if trim(s).len() == 0 {
        fallback_name()
    } else if utf8_size(s) > 255 {
        let cut = strip_trailing_dots(fit_prefix(s, 255));
        if cut.len() == 0 {
            fallback_name()
        } else {
            guard_device(cut, os)
        }
    } else {
        s
    }
}

proof fn lemma_underscore_not_device(s: Seq<char>)
    requires
        s.len() > 0,
        s[0] == '_',
    ensures
        !is_device_name(s),
        !is_device_name(before_dot(s)),
{
    let b = before_dot(s);
    assert(b == seq![s[0]] + before_dot(s.drop_first()));
    assert(b[0] == '_');
    assert(ascii_upper('_') == '_');
    if b.len() == 4 {
        assert(b.take(3)[0] == '_');
    }
    if s.len() == 4 {
        assert(s.take(3)[0] == '_');
    }
}

proof fn lemma_strip_keeps_first(s: Seq<char>)
    requires
        s.len() > 0,
        s[0] != ' ',
        s[0] != '.',
    ensures
        strip_trailing_dots(s).len() > 0,
        strip_trailing_dots(s)[0] == s[0],
    decreases s.len(),
{
    if s.last() == ' ' || s.last() == '.' {
        assert(s.len() > 1);
        assert(s.drop_last()[0] == s[0]);
        lemma_strip_keeps_first(s.drop_last());
    }
}

proof fn lemma_guarded_not_device(s: Seq<char>)
    ensures
        !is_device_name(guard_device(s, OperatingSystem::Windows)),
        !is_device_name(before_dot(guard_device(s, OperatingSystem::Windows))),
{
    if is_device_name(s) || is_device_name(before_dot(s)) {
        let u = seq!['_'] + s;
        assert(u[0] == '_');
        assert(u.drop_first() == s);
        let f = fit_prefix(u, 255);
        assert(f == seq!['_'] + fit_prefix(s, 254));
        assert(f[0] == '_');
        lemma_strip_keeps_first(f);
        lemma_underscore_not_device(strip_trailing_dots(f));
    }
}

/// On Windows the result is never a device name, neither whole nor before
/// its first dot.
pub proof fn lemma_windows_never_device(name: Seq<char>, is_folder: bool)
    ensures
        !is_device_name(sanitized_name(name, OperatingSystem::Windows, is_folder)),
        !is_device_name(before_dot(sanitized_name(name, OperatingSystem::Windows, is_folder))),
{
    let os = OperatingSystem::Windows;
    let fb = fallback_name();
    lemma_before_dot(fb, 9);
    assert(fb.take(9) == fb);
    let t = trim(name);
    let start = if t.len() == 0 { fb } else { t };
    let r = replace_forbidden(start, os);
    let tt = strip_trailing_dots(r);
    if is_device_name(tt) || is_device_name(before_dot(tt)) {
        let u = seq!['_'] + tt;
        assert(u[0] == '_');
        lemma_underscore_not_device(u);
    }
    let s = os_sanitized(start, os, is_folder);
    if trim(s).len() > 0 && utf8_size(s) > 255 {
        let cut = strip_trailing_dots(fit_prefix(s, 255));
        if cut.len() > 0 {
            lemma_guarded_not_device(cut);
        }
    }
}

fn upper_eq(c: char, t: char) -> (r: bool)
    ensures
        r == (ascii_upper(c) == t),
{
    if 'a' <= c && c <= 'z' {
        ((c as u8) - 32) as char == t
    } else {
        c == t
    }
}

fn upper_is3(v: &Vec<char>, a: char, b: char, c: char) -> (r: bool)
    requires
        3 <= v@.len(),
    ensures
        r == upper_is(v@.subrange(0, 3), seq![a, b, c]),
{
    let r = upper_eq(v[0], a) && upper_eq(v[1], b) && upper_eq(v[2], c);
    proof {
        let s = v@.subrange(0, 3);
        if r {
            assert forall|i: int| 0 <= i < s.len() implies ascii_upper(#[trigger] s[i]) == seq![a, b, c][i] by {
                assert(s[i] == v@[i]);
            }
        } else {
            if upper_is(s, seq![a, b, c]) {
                assert(ascii_upper(s[0]) == a);
                assert(ascii_upper(s[1]) == b);
                assert(ascii_upper(s[2]) == c);
            }
        }
    }
    r
}

fn device_name(v: &Vec<char>) -> (r: bool)
    ensures
        r == is_device_name(v@),
{
    proof {
        assert(v@.subrange(0, v@.len() as int) == v@);
        if v@.len() == 4 {
            assert(v@.take(3) == v@.subrange(0, 3));
        }
    }
    if v.len() == 3 {
        upper_is3(v, 'C', 'O', 'N') || upper_is3(v, 'P', 'R', 'N') || upper_is3(
            v,
            'A',
            'U',
            'X',
        ) || upper_is3(v, 'N', 'U', 'L')
    } else if v.len() == 4 {
        '1' <= v[3] && v[3] <= '9' && (upper_is3(v, 'C', 'O', 'M') || upper_is3(
            v,
            'L',
            'P',
            'T',
        ))
    } else {
        false
    }
}

fn replace_forbidden_chars(v: &Vec<char>, os: OperatingSystem) -> (r: Vec<char>)
    ensures
        r@ == replace_forbidden(v@, os),
{
    let mut r: Vec<char> = Vec::new();
    let mut i: usize = 0;
    while i < v.len()
        invariant
            i <= v@.len(),
            r@ == replace_forbidden(v@.subrange(0, i as int), os),
        decreases v@.len() - i,
    {
        let c = v[i];
        proof {
            assert(v@.subrange(0, i + 1).drop_last() == v@.subrange(0, i as int));
            assert(v@.subrange(0, i + 1).last() == c);
        }
        let control = (c as u32) < 32;
        let forbidden = control || match os {
            OperatingSystem::Windows => c == '<' || c == '>' || c == ':' || c == '"' || c == '/'
                || c == '\\' || c == '|' || c == '?' || c == '*',
            OperatingSystem::MacOs => c == ':',
            _ => c == '/',
        };
        if os == OperatingSystem::Windows && c == '\0' {
        } else if forbidden {
            r.push('_');
        } else {
            r.push(c);
        }
        i += 1;
    }
    proof {
        assert(v@.subrange(0, v@.len() as int) == v@);
    }
    r
}

fn strip_trailing_dots_chars(v: &Vec<char>) -> (r: Vec<char>)
    ensures
        r@ == strip_trailing_dots(v@),
{
    let mut b: usize = v.len();
    proof {
        assert(v@.subrange(0, b as int) == v@);
    }
    while b > 0 && (v[b - 1] == ' ' || v[b - 1] == '.')
        invariant
            b <= v@.len(),
            strip_trailing_dots(v@) == strip_trailing_dots(v@.subrange(0, b as int)),
        decreases b,
    {
        proof {
            assert(v@.subrange(0, b as int).drop_last() == v@.subrange(0, b - 1));
        }
        b -= 1;
    }
    proof {
        if b > 0 {
            assert(v@.subrange(0, b as int).last() == v@[b - 1]);
        }
    }
    copy_range(v, 0, b)
}

proof fn lemma_before_dot(s: Seq<char>, k: int)
    requires
        0 <= k <= s.len(),
        forall|j: int| 0 <= j < k ==> s[j] != '.',
        k == s.len() || s[k] == '.',
    ensures
        before_dot(s) == s.take(k),
    decreases s.len(),
{
    if s.len() > 0 && k > 0 {
        lemma_before_dot(s.drop_first(), k - 1);
        assert(seq![s[0]] + s.drop_first().take(k - 1) == s.take(k));
    } else if s.len() > 0 {
        assert(s.take(0) == Seq::<char>::empty());
    }
}

fn before_dot_chars(v: &Vec<char>) -> (r: Vec<char>)
    ensures
        r@ == before_dot(v@),
{
    let mut k: usize = 0;
    while k < v.len() && v[k] != '.'
        invariant
            k <= v@.len(),
            forall|j: int| 0 <= j < k ==> v@[j] != '.',
        decreases v@.len() - k,
    {
        k += 1;
    }
    proof {
        lemma_before_dot(v@, k as int);
        assert(v@.take(k as int) == v@.subrange(0, k as int));
    }
    copy_range(v, 0, k)
}

fn char_utf8_len(c: char) -> (r: usize)
    ensures
        r as nat == utf8_len(c),
{
    let u = c as u32;
    if u < 0x80 {
        1
    } else if u < 0x800 {
        2
    } else if u < 0x10000 {
        3
    } else {
        4
    }
}

proof fn lemma_utf8_size_prefix(s: Seq<char>, i: int)
    requires
        0 <= i <= s.len(),
    ensures
        utf8_size(s.take(i)) <= utf8_size(s),
    decreases s.len() - i,
{
    if i < s.len() {
        lemma_utf8_size_prefix(s, i + 1);
        assert(s.take(i + 1).drop_last() == s.take(i));
    } else {
        assert(s.take(i) == s);
    }
}

/// Whether `v` takes more than 255 bytes in UTF-8.
fn longer_than_limit(v: &Vec<char>) -> (r: bool)
    ensures
        r == (utf8_size(v@) > 255),
{
    let mut size: usize = 0;
    let mut i: usize = 0;
    proof {
        assert(v@.take(0) == Seq::<char>::empty());
    }
    while i < v.len() && size <= 255
        invariant
            i <= v@.len(),
            size as nat == utf8_size(v@.take(i as int)),
            size <= 255 + 4,
        decreases v@.len() - i,
    {
        let n = char_utf8_len(v[i]);
        proof {
            assert(v@.take(i + 1).drop_last() == v@.take(i as int));
        }
        size = size + n;
        i += 1;
    }
    proof {
        lemma_utf8_size_prefix(v@, i as int);
        if i == v@.len() {
            assert(v@.take(i as int) == v@);
        }
    }
    size > 255
}

fn fit_prefix_chars(v: &Vec<char>, budget: usize) -> (r: Vec<char>)
    ensures
        r@ == fit_prefix(v@, budget as nat),
{
    let mut i: usize = 0;
    let mut left: usize = budget;
    proof {
        assert(v@.take(0) + v@.skip(0) == v@);
        assert(v@.take(0) + fit_prefix(v@.skip(0), left as nat) == fit_prefix(v@, budget as nat));
    }
    while i < v.len() && char_utf8_len(v[i]) <= left
        invariant
            i <= v@.len(),
            left <= budget,
            fit_prefix(v@, budget as nat) == v@.take(i as int) + fit_prefix(v@.skip(i as int), left as nat),
        decreases v@.len() - i,
    {
        let n = char_utf8_len(v[i]);
        proof {
            let rest = v@.skip(i as int);
            assert(rest[0] == v@[i as int]);
            assert(rest.drop_first() == v@.skip(i + 1));
            assert(v@.take(i as int) + (seq![v@[i as int]] + fit_prefix(v@.skip(i + 1), (left - n) as nat))
                == v@.take(i + 1) + fit_prefix(v@.skip(i + 1), (left - n) as nat));
        }
        left = left - n;
        i += 1;
    }
    proof {
        assert(fit_prefix(v@.skip(i as int), left as nat) == Seq::<char>::empty());
        assert(v@.take(i as int) + Seq::<char>::empty() == v@.take(i as int));
        assert(v@.take(i as int) == v@.subrange(0, i as int));
    }
    copy_range(v, 0, i)
}

fn fallback() -> (r: Vec<char>)
    ensures
        r@ == fallback_name(),
{
    let mut r: Vec<char> = Vec::new();
    push_str(&mut r, "audiobook");
    proof {
        reveal_strlit("audiobook");
        assert(r@ =~= fallback_name());
    }
    r
}

fn os_sanitized_chars(v: &Vec<char>, os: OperatingSystem, is_folder: bool) -> (r: Vec<char>)
    ensures
        r@ == os_sanitized(v@, os, is_folder),
{
    let r = replace_forbidden_chars(v, os);
    if os == OperatingSystem::Windows {
        let t = strip_trailing_dots_chars(&r);
        let base = before_dot_chars(&t);
        if device_name(&t) || device_name(&base) {
            let mut out: Vec<char> = Vec::new();
            out.push('_');
            push_chars(&mut out, &t);
            proof {
                assert(out@ =~= seq!['_'] + t@);
            }
            out
        } else {
            t
        }
    } else if is_folder && r.len() > 0 && r[0] == '.' {
        let mut out: Vec<char> = Vec::new();
        out.push('_');
        let rest = copy_range(&r, 1, r.len());
        push_chars(&mut out, &rest);
        proof {
            assert(out@ =~= seq!['_'] + r@.drop_first());
        }
        out
    } else {
        r
    }
}

/// The file-system-safe form of `name` on `os`, as [`sanitized_name`]
/// describes it.
pub fn sanitize_name_for(name: &str, os: OperatingSystem, is_folder: bool) -> (r: String)
    ensures
        r@ == sanitized_name(name@, os, is_folder),
        os == OperatingSystem::Windows ==> !is_device_name(r@) && !is_device_name(before_dot(r@)),
{
    proof {
        lemma_windows_never_device(name@, is_folder);
    }
    let v = chars_of(name);
    let t = trim_chars(&v);
    let start = if t.len() == 0 { fallback() } else { t };
    let s = os_sanitized_chars(&start, os, is_folder);
    let st = trim_chars(&s);
    if st.len() == 0 {
        return string_of(&fallback());
    }
    if longer_than_limit(&s) {
        let cut = strip_trailing_dots_chars(&fit_prefix_chars(&s, 255));
        if cut.len() == 0 {
            string_of(&fallback())
        } else if os == OperatingSystem::Windows && (device_name(&cut) || device_name(
            &before_dot_chars(&cut),
        )) {
            let mut u: Vec<char> = Vec::new();
            u.push('_');
            push_chars(&mut u, &cut);
            proof {
                assert(u@ =~= seq!['_'] + cut@);
            }
            string_of(&strip_trailing_dots_chars(&fit_prefix_chars(&u, 255)))
        } else {
            string_of(&cut)
        }
    } else {
        string_of(&s)
    }
}

} // verus!
