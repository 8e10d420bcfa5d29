//! What the HTTP client layer decides: the browser profile it emulates,
//! the key under which clients are pooled, the connect timeout, the
//! splitting of a response body into lines, and the previews of bodies in
//! error messages.

use vstd::prelude::*;
use crate::text::{
    ascii_lower_seq, ascii_lower_exec, chars_of, dec_nat, extend, extend_str, push_dec,
    starts_with, starts_with_exec, string_of, trim, trim_exec,
};
use crate::ext::{from_utf8_lossy, utf8_lossy};

verus! {

// ---------------------------------------------------------------------------
// Body previews
// ---------------------------------------------------------------------------

/// A lower-case hexadecimal digit for `d < 16`.
pub open spec fn hex_digit(d: nat) -> char {
    if d < 10 {
        crate::text::digit_char(d)
    } else if d == 10 {
        'a'
    } else if d == 11 {
        'b'
    } else if d == 12 {
        'c'
    } else if d == 13 {
        'd'
    } else if d == 14 {
        'e'
    } else {
        'f'
    }
}

/// The lower-case hexadecimal notation of `n`, without leading zeros.
pub open spec fn hex_nat(n: nat) -> Seq<char>
    decreases n,
{
    if n < 16 {
        seq![hex_digit(n)]
    } else {
        hex_nat(n / 16).push(hex_digit(n % 16))
    }
}

/// `char::escape_default`: the usual escapes for tab, carriage return,
/// line feed, quotes and backslash, printable ASCII as it stands, and
/// `\u{..}` with the hexadecimal code point for anything else.
pub open spec fn escape_default(c: char) -> Seq<char> {
    if c == '\t' {
        seq!['\\', 't']
    } else if c == '\r' {
        seq!['\\', 'r']
    } else if c == '\n' {
        seq!['\\', 'n']
    } else if c == '\'' || c == '"' || c == '\\' {
        seq!['\\', c]
    } else if 0x20 <= (c as u32) && (c as u32) <= 0x7e {
        seq![c]
    } else {
        seq!['\\', 'u', '{'] + hex_nat(c as nat) + seq!['}']
    }
}

/// The escaped characters of `s`, one after the other.
pub open spec fn escaped(s: Seq<char>) -> Seq<char>
    decreases s.len(),
{
    if s.len() == 0 {
        Seq::empty()
    } else {
        escaped(s.drop_last()) + escape_default(s.last())
    }
}

/// The first `max_chars` characters of `text`, escaped.
pub open spec fn preview(text: Seq<char>, max_chars: nat) -> Seq<char> {
    escaped(text.take(if max_chars < text.len() { max_chars as int } else { text.len() as int }))
}

fn hex_digit_exec(d: u32) -> (c: char)
    requires
        d < 16,
    ensures
        c == hex_digit(d as nat),
{
    if d < 10 {
        if d == 0 { '0' } else if d == 1 { '1' } else if d == 2 { '2' } else if d == 3 { '3' }
        else if d == 4 { '4' } else if d == 5 { '5' } else if d == 6 { '6' } else if d == 7 { '7' }
        else if d == 8 { '8' } else { '9' }
    } else if d == 10 {
        'a'
    } else if d == 11 {
        'b'
    } else if d == 12 {
        'c'
    } else if d == 13 {
        'd'
    } else if d == 14 {
        'e'
    } else {
        'f'
    }
}

fn push_hex(out: &mut Vec<char>, n: u32)
    ensures
        final(out)@ == old(out)@ + hex_nat(n as nat),
    decreases n,
{
    if n >= 16 {
        push_hex(out, n / 16);
    }
    let c = hex_digit_exec(n % 16);
    out.push(c);
    proof {
        if n < 16 {
            assert(hex_nat(n as nat) == seq![c]);
        }
    }
}

fn push_escaped(out: &mut Vec<char>, c: char)
    ensures
        final(out)@ == old(out)@ + escape_default(c),
{
    let ghost before = out@;
    if c == '\t' {
        out.push('\\');
        out.push('t');
    } else if c == '\r' {
        out.push('\\');
        out.push('r');
    } else if c == '\n' {
        out.push('\\');
        out.push('n');
    } else if c == '\'' || c == '"' || c == '\\' {
        out.push('\\');
        out.push(c);
    } else if 0x20 <= (c as u32) && (c as u32) <= 0x7e {
        out.push(c);
    } else {
        out.push('\\');
        out.push('u');
        out.push('{');
        push_hex(out, c as u32);
        out.push('}');
    }
    assert(out@ =~= before + escape_default(c));
}

/// The first `max_chars` characters of `text`, each escaped as
/// `char::escape_default` writes it.
pub fn body_preview(text: &str, max_chars: usize) -> (r: String)
    ensures
        r@ == preview(text@, max_chars as nat),
{
    let t = chars_of(text);
    let n = if max_chars < t.len() {
        max_chars
    } else {
        t.len()
    };
    let mut out: Vec<char> = Vec::new();
    let mut i: usize = 0;
    while i < n
        invariant
            i <= n,
            n <= t@.len(),
            t@ == text@,
            out@ == escaped(t@.take(i as int)),
        decreases n - i,
    {
        assert(t@.take(i + 1).drop_last() == t@.take(i as int));
        push_escaped(&mut out, t[i]);
        i = i + 1;
    }
    string_of(out.as_slice())
}

/// The preview of a body received as bytes, decoded as UTF-8 with invalid
/// sequences replaced.
pub fn body_preview_from_bytes(bytes: &[u8], max_chars: usize) -> (r: String)
    ensures
        r@ == preview(utf8_lossy(bytes@), max_chars as nat),
{
    let text = from_utf8_lossy(bytes);
    body_preview(text.as_str(), max_chars)
}

// ---------------------------------------------------------------------------
// Client pooling
// ---------------------------------------------------------------------------

/// The key under which clients for a proxy are pooled: the trimmed proxy
/// address, empty for none.
pub open spec fn proxy_key(proxy: Option<Seq<char>>) -> Seq<char> {
    match proxy {
        Some(p) => trim(p),
        None => Seq::empty(),
    }
}

/// The key under which clients for a proxy are pooled.
pub fn pool_key(proxy: Option<&str>) -> (r: String)
    ensures
        r@ == proxy_key(match proxy {
            Some(p) => Some(p@),
            None => None,
        }),
{
    match proxy {
        Some(p) => string_of(trim_exec(chars_of(p).as_slice()).as_slice()),
        None => String::new(),
    }
}

/// The connect timeout, in seconds, for a request timeout: kept between
/// five and thirty seconds.
pub fn connect_timeout_secs(timeout_secs: u64) -> (r: u64)
    ensures
        r == if timeout_secs < 5 {
            5
        } else if timeout_secs > 30 {
            30
        } else {
            timeout_secs
        },
{
    if timeout_secs < 5 {
        5
    } else if timeout_secs > 30 {
        30
    } else {
        timeout_secs
    }
}

// ---------------------------------------------------------------------------
// Browser emulation profiles
// ---------------------------------------------------------------------------

/// The browser family a client emulates.
#[derive(PartialEq, Eq, Structural, Clone, Copy, Debug)]
pub enum BrowserFamily {
    Chrome,
    Edge,
    Firefox,
    Safari,
}

/// A browser profile: its family, and the version digits of its name
/// (`Safari` 17.2.1 is `1721`).
#[derive(PartialEq, Eq, Structural, Clone, Copy, Debug)]
pub struct EmulationProfile {
    pub family: BrowserFamily,
    pub version: u32,
}

pub open spec fn chrome_versions() -> Seq<u32> {
    seq![
        100u32, 101, 104, 105, 106, 107, 108, 109, 110, 114, 116, 117, 118, 119, 120, 123, 124, 126,
        127, 128, 129, 130, 131, 132, 133, 134, 135, 136, 137, 138, 139, 140, 141, 142, 143,
    ]
}

pub open spec fn edge_versions() -> Seq<u32> {
    seq![101u32, 122, 127, 131, 134, 135, 136, 137, 138, 139, 140, 141, 142]
}

pub open spec fn firefox_versions() -> Seq<u32> {
    seq![109u32, 117, 128, 133, 135, 136, 139, 142, 143, 144, 145, 146]
}

pub open spec fn safari_versions() -> Seq<u32> {
    seq![153u32, 155, 16, 165, 170, 1721, 1741]
}

/// `s` without the character `c`.
pub open spec fn remove_char(s: Seq<char>, c: char) -> Seq<char>
    decreases s.len(),
{
    if s.len() == 0 {
        Seq::empty()
    } else if s.last() == c {
        remove_char(s.drop_last(), c)
    } else {
        remove_char(s.drop_last(), c).push(s.last())
    }
}

pub open spec fn is_digit(c: char) -> bool {
    '0' <= c && c <= '9'
}

/// `s` from its first ASCII digit on.
pub open spec fn skip_non_digits(s: Seq<char>) -> Seq<char>
    decreases s.len(),
{
    if s.len() == 0 || is_digit(s[0]) {
        s
    } else {
        skip_non_digits(s.skip(1))
    }
}

/// The ASCII digits `s` starts with.
pub open spec fn lead_digits(s: Seq<char>) -> Seq<char>
    decreases s.len(),
{
    if s.len() > 0 && is_digit(s[0]) {
        seq![s[0]] + lead_digits(s.skip(1))
    } else {
        Seq::empty()
    }
}

/// The first version of `list` written as `v`.
pub open spec fn version_in(list: Seq<u32>, v: Seq<char>) -> Option<u32>
    decreases list.len(),
{
    if list.len() == 0 {
        None
    } else if dec_nat(list[0] as nat) == v {
        Some(list[0])
    } else {
        version_in(list.skip(1), v)
    }
}

/// The version of a family profile named by `norm`, or `default`.
pub open spec fn family_version(list: Seq<u32>, norm: Seq<char>, default: u32) -> u32 {
    match version_in(list, lead_digits(skip_non_digits(norm))) {
        Some(v) => v,
        None => default,
    }
}

/// The profile a configured name selects: the name is trimmed, lower-cased
/// and stripped of `-` and `_`; a family name selects the version of the
/// digits that follow it, or the family's default; Chrome 136 is the
/// default for anything else.
pub open spec fn emulation_for(raw: Seq<char>) -> EmulationProfile {
    let text = ascii_lower_seq(trim(raw));
    let norm = remove_char(remove_char(text, '-'), '_');
    if text.len() == 0 {
        EmulationProfile { family: BrowserFamily::Chrome, version: 136 }
    } else if starts_with(norm, "chrome"@) {
        EmulationProfile { family: BrowserFamily::Chrome, version: family_version(chrome_versions(), norm, 136) }
    } else if starts_with(norm, "edge"@) {
        EmulationProfile { family: BrowserFamily::Edge, version: family_version(edge_versions(), norm, 136) }
    } else if starts_with(norm, "firefox"@) {
        EmulationProfile { family: BrowserFamily::Firefox, version: family_version(firefox_versions(), norm, 136) }
    } else {
        match (if starts_with(norm, "safari"@) { version_in(safari_versions(), norm.skip(6)) } else { None }) {
            Some(v) => EmulationProfile { family: BrowserFamily::Safari, version: v },
            None => EmulationProfile { family: BrowserFamily::Chrome, version: 136 },
        }
    }
}

fn remove_char_exec(s: &[char], c: char) -> (r: Vec<char>)
    ensures
        r@ == remove_char(s@, c),
{
    let mut r: Vec<char> = Vec::new();
    let mut i: usize = 0;
    while i < s.len()
        invariant
            i <= s@.len(),
            r@ == remove_char(s@.take(i as int), c),
        decreases s@.len() - i,
    {
        assert(s@.take(i + 1).drop_last() == s@.take(i as int));
        if s[i] != c {
            r.push(s[i]);
        }
        i = i + 1;
    }
    assert(s@.take(i as int) == s@);
    r
}

fn version_digits(norm: &[char]) -> (r: Vec<char>)
    ensures
        r@ == lead_digits(skip_non_digits(norm@)),
{
    let mut i: usize = 0;
    assert(norm@.skip(0) == norm@);
    while i < norm.len() && !('0' <= norm[i] && norm[i] <= '9')
        invariant
            i <= norm@.len(),
            skip_non_digits(norm@.skip(i as int)) == skip_non_digits(norm@),
        decreases norm@.len() - i,
    {
        assert(norm@.skip(i as int).skip(1) == norm@.skip(i + 1));
        i = i + 1;
    }
    let ghost start = i;
    assert(skip_non_digits(norm@.skip(i as int)) == norm@.skip(i as int));
    let mut r: Vec<char> = Vec::new();
    while i < norm.len() && '0' <= norm[i] && norm[i] <= '9'
        invariant
            start <= i <= norm@.len(),
            r@ + lead_digits(norm@.skip(i as int)) == lead_digits(norm@.skip(start as int)),
        decreases norm@.len() - i,
    {
        assert(norm@.skip(i as int).skip(1) == norm@.skip(i + 1));
        assert(norm@.skip(i as int)[0] == norm@[i as int]);
        r.push(norm[i]);
        i = i + 1;
    }
    assert(lead_digits(norm@.skip(i as int)) == Seq::<char>::empty());
    assert(r@ + Seq::<char>::empty() == r@);
    r
}

fn find_version(list: &Vec<u32>, v: &[char]) -> (r: Option<u32>)
    ensures
        r == version_in(list@, v@),
{
    let mut i: usize = 0;
    assert(list@.skip(0) == list@);
    while i < list.len()
        invariant
            i <= list@.len(),
            version_in(list@.skip(i as int), v@) == version_in(list@, v@),
        decreases list@.len() - i,
    {
        let mut d: Vec<char> = Vec::new();
        push_dec(&mut d, list[i] as u128);
        assert(d@ == dec_nat(list@[i as int] as nat));
        assert(list@.skip(i as int)[0] == list@[i as int]);
        assert(list@.skip(i as int).skip(1) == list@.skip(i + 1));
        if crate::text::eq_chars(d.as_slice(), v) {
            return Some(list[i]);
        }
        i = i + 1;
    }
    None
}

fn family_version_exec(list: Vec<u32>, norm: &[char], default: u32) -> (r: u32)
    ensures
        r == family_version(list@, norm@, default),
{
    match find_version(&list, version_digits(norm).as_slice()) {
        Some(v) => v,
        None => default,
    }
}

/// The browser profile a configured name selects.
pub fn parse_emulation(raw: &str) -> (r: EmulationProfile)
    ensures
        r == emulation_for(raw@),
{
    let text = ascii_lower_exec(trim_exec(chars_of(raw).as_slice()).as_slice());
    if text.len() == 0 {
        return EmulationProfile { family: BrowserFamily::Chrome, version: 136 };
    }
    let norm = remove_char_exec(remove_char_exec(text.as_slice(), '-').as_slice(), '_');
    if starts_with_exec(norm.as_slice(), chars_of("chrome").as_slice()) {
        let list = vec![
            100u32, 101, 104, 105, 106, 107, 108, 109, 110, 114, 116, 117, 118, 119, 120, 123, 124, 126,
            127, 128, 129, 130, 131, 132, 133, 134, 135, 136, 137, 138, 139, 140, 141, 142, 143,
        ];
        assert(list@ =~= chrome_versions());
        return EmulationProfile {
            family: BrowserFamily::Chrome,
            version: family_version_exec(list, norm.as_slice(), 136),
        };
    }
    if starts_with_exec(norm.as_slice(), chars_of("edge").as_slice()) {
        let list = vec![101u32, 122, 127, 131, 134, 135, 136, 137, 138, 139, 140, 141, 142];
        assert(list@ =~= edge_versions());
        return EmulationProfile {
            family: BrowserFamily::Edge,
            version: family_version_exec(list, norm.as_slice(), 136),
        };
    }
    if starts_with_exec(norm.as_slice(), chars_of("firefox").as_slice()) {
        let list = vec![109u32, 117, 128, 133, 135, 136, 139, 142, 143, 144, 145, 146];
        assert(list@ =~= firefox_versions());
        return EmulationProfile {
            family: BrowserFamily::Firefox,
            version: family_version_exec(list, norm.as_slice(), 136),
        };
    }
    if starts_with_exec(norm.as_slice(), chars_of("safari").as_slice()) {
        proof {
            reveal_strlit("safari");
        }
        let list = vec![153u32, 155, 16, 165, 170, 1721, 1741];
        assert(list@ =~= safari_versions());
        let rest = crate::text::slice_chars(norm.as_slice(), 6, norm.len());
        assert(rest@ == norm@.skip(6));
        if let Some(v) = find_version(&list, rest.as_slice()) {
            return EmulationProfile { family: BrowserFamily::Safari, version: v };
        }
    }
    EmulationProfile { family: BrowserFamily::Chrome, version: 136 }
}

// ---------------------------------------------------------------------------
// Laws of the profile names
// ---------------------------------------------------------------------------

proof fn lemma_lower_char(c: char)
    ensures
        crate::text::is_ws(crate::text::ascii_lower(c)) == crate::text::is_ws(c),
        crate::text::ascii_lower(crate::text::ascii_lower(c)) == crate::text::ascii_lower(c),
        crate::text::ascii_lower(c) == '-' <==> c == '-',
        crate::text::ascii_lower(c) == '_' <==> c == '_',
{
    if 'A' <= c && c <= 'Z' {
        let d = crate::text::ascii_lower(c);
        assert(97 <= d as u32 <= 122);
    }
}

proof fn lemma_trim_start_lower(s: Seq<char>)
    ensures
        crate::text::trim_start(ascii_lower_seq(s)) == ascii_lower_seq(crate::text::trim_start(s)),
    decreases s.len(),
{
    if s.len() > 0 {
        lemma_lower_char(s[0]);
        assert(ascii_lower_seq(s)[0] == crate::text::ascii_lower(s[0]));
        if crate::text::is_ws(s[0]) {
            assert(ascii_lower_seq(s).drop_first() =~= ascii_lower_seq(s.drop_first()));
            lemma_trim_start_lower(s.drop_first());
        }
    }
}

proof fn lemma_trim_end_lower(s: Seq<char>)
    ensures
        crate::text::trim_end(ascii_lower_seq(s)) == ascii_lower_seq(crate::text::trim_end(s)),
    decreases s.len(),
{
    if s.len() > 0 {
        lemma_lower_char(s.last());
        assert(ascii_lower_seq(s).last() == crate::text::ascii_lower(s.last()));
        if crate::text::is_ws(s.last()) {
            assert(ascii_lower_seq(s).drop_last() =~= ascii_lower_seq(s.drop_last()));
            lemma_trim_end_lower(s.drop_last());
        }
    }
}

proof fn lemma_lower_twice(s: Seq<char>)
    ensures
        ascii_lower_seq(ascii_lower_seq(s)) == ascii_lower_seq(s),
{
    assert forall|i: int| 0 <= i < s.len() implies #[trigger] ascii_lower_seq(ascii_lower_seq(s))[i]
        == ascii_lower_seq(s)[i] by {
        lemma_lower_char(s[i]);
    }
    assert(ascii_lower_seq(ascii_lower_seq(s)) =~= ascii_lower_seq(s));
}

/// Names that differ only in the case of ASCII letters select the same
/// browser profile.
pub proof fn lemma_emulation_ignores_case(x: Seq<char>, y: Seq<char>)
    requires
        ascii_lower_seq(x) == ascii_lower_seq(y),
    ensures
        emulation_for(x) == emulation_for(y),
{
    lemma_trim_start_lower(x);
    lemma_trim_end_lower(crate::text::trim_start(x));
    lemma_trim_start_lower(y);
    lemma_trim_end_lower(crate::text::trim_start(y));
    lemma_lower_twice(trim(x));
    lemma_lower_twice(trim(y));
    assert(ascii_lower_seq(trim(x)) == trim(ascii_lower_seq(x)));
    assert(ascii_lower_seq(trim(y)) == trim(ascii_lower_seq(y)));
}

/// `s` without `-` and `_`.
pub open spec fn remove_separators(s: Seq<char>) -> Seq<char> {
    remove_char(remove_char(s, '-'), '_')
}

proof fn lemma_remove_push(y: Seq<char>, d: char, c: char)
    ensures
        remove_char(y.push(d), c) == if d == c {
            remove_char(y, c)
        } else {
            remove_char(y, c).push(d)
        },
{
    assert(y.push(d).drop_last() =~= y);
}

proof fn lemma_remove_twice(x: Seq<char>, a: char, b: char)
    ensures
        remove_char(remove_char(x, a), a) == remove_char(x, a),
        remove_char(remove_char(x, a), b) == remove_char(remove_char(x, b), a),
    decreases x.len(),
{
    if x.len() > 0 {
        let y = x.drop_last();
        let d = x.last();
        assert(y.push(d) =~= x);
        lemma_remove_twice(y, a, b);
        lemma_remove_push(y, d, a);
        lemma_remove_push(y, d, b);
        lemma_remove_push(remove_char(y, a), d, a);
        lemma_remove_push(remove_char(y, a), d, b);
        lemma_remove_push(remove_char(y, b), d, a);
    }
}

proof fn lemma_remove_lower(x: Seq<char>, c: char)
    requires
        c == '-' || c == '_',
    ensures
        ascii_lower_seq(remove_char(x, c)) == remove_char(ascii_lower_seq(x), c),
    decreases x.len(),
{
    if x.len() > 0 {
        let y = x.drop_last();
        let d = x.last();
        assert(y.push(d) =~= x);
        lemma_remove_lower(y, c);
        lemma_lower_char(d);
        assert(ascii_lower_seq(y.push(d)) =~= ascii_lower_seq(y).push(crate::text::ascii_lower(d)));
        assert(ascii_lower_seq(remove_char(y, c).push(d)) =~= ascii_lower_seq(remove_char(y, c)).push(
            crate::text::ascii_lower(d),
        ));
        lemma_remove_push(y, d, c);
        lemma_remove_push(ascii_lower_seq(y), crate::text::ascii_lower(d), c);
    } else {
        assert(ascii_lower_seq(x) =~= Seq::<char>::empty());
        assert(ascii_lower_seq(Seq::<char>::empty()) =~= Seq::<char>::empty());
    }
}

/// A name with no character left selects Chrome 136, as an empty one does.
proof fn lemma_emulation_of_empty_norm(raw: Seq<char>)
    requires
        remove_separators(ascii_lower_seq(trim(raw))).len() == 0,
    ensures
        emulation_for(raw) == (EmulationProfile { family: BrowserFamily::Chrome, version: 136 }),
{
    reveal_strlit("chrome");
    reveal_strlit("edge");
    reveal_strlit("firefox");
    reveal_strlit("safari");
}

/// Where taking `-` and `_` out of a name brings no white space to its
/// ends (so that trimming it trims the same), those separators do not
/// change the browser profile the name selects.
pub proof fn lemma_emulation_ignores_separators(raw: Seq<char>)
    requires
        trim(remove_separators(raw)) == remove_separators(trim(raw)),
    ensures
        emulation_for(raw) == emulation_for(remove_separators(raw)),
{
    let t = trim(raw);
    let text1 = ascii_lower_seq(t);
    let norm1 = remove_separators(text1);
    let text2 = ascii_lower_seq(trim(remove_separators(raw)));
    lemma_remove_lower(t, '-');
    lemma_remove_lower(remove_char(t, '-'), '_');
    assert(text2 == norm1);
    lemma_remove_twice(text1, '-', '_');
    lemma_remove_twice(remove_char(text1, '-'), '_', '-');
    lemma_remove_twice(remove_char(remove_char(text1, '-'), '-'), '_', '_');
    assert(remove_separators(text2) == norm1);
    if norm1.len() == 0 {
        lemma_emulation_of_empty_norm(raw);
        lemma_emulation_of_empty_norm(remove_separators(raw));
    } else {
        assert(text1.len() > 0) by {
            if text1.len() == 0 {
                assert(text1 =~= Seq::<char>::empty());
                assert(remove_char(Seq::<char>::empty(), '-') =~= Seq::<char>::empty());
            }
        }
    }
}

/// A longer preview extends a shorter one by the escaped next character,
/// and a preview longer than the text is the preview of the whole text: the
/// cut counts characters, so it never splits one.
pub proof fn lemma_preview_grows(text: Seq<char>, n: nat)
    ensures
        preview(text, n + 1) == preview(text, n) + if n < text.len() {
            escape_default(text[n as int])
        } else {
            Seq::<char>::empty()
        },
        preview(text, n).is_prefix_of(preview(text, n + 1)),
        n >= text.len() ==> preview(text, n) == preview(text, text.len()),
{
    if n < text.len() {
        assert(text.take(n + 1int).drop_last() =~= text.take(n as int));
        assert(text.take(n + 1int).last() == text[n as int]);
    } else {
        assert(preview(text, n) + Seq::<char>::empty() =~= preview(text, n));
    }
    let a = preview(text, n);
    let b = preview(text, n + 1);
    assert(b.subrange(0, a.len() as int) =~= a);
}

/// A name selects the profile its normal form selects (trimmed,
/// lower-cased, without `-` and `_`), wherever that normal form has no
/// white space left at its ends.
pub proof fn lemma_emulation_by_normal_form(raw: Seq<char>)
    requires
        trim(remove_separators(ascii_lower_seq(trim(raw)))) == remove_separators(
            ascii_lower_seq(trim(raw)),
        ),
    ensures
        emulation_for(raw) == emulation_for(remove_separators(ascii_lower_seq(trim(raw)))),
{
    let text = ascii_lower_seq(trim(raw));
    let n = remove_separators(text);
    lemma_remove_lower(text, '-');
    lemma_remove_lower(remove_char(text, '-'), '_');
    lemma_lower_twice(trim(raw));
    assert(ascii_lower_seq(n) == n);
    lemma_remove_twice(text, '-', '_');
    lemma_remove_twice(remove_char(text, '-'), '_', '-');
    lemma_remove_twice(remove_char(remove_char(text, '-'), '-'), '_', '_');
    assert(remove_separators(n) == n);
    if n.len() == 0 {
        lemma_emulation_of_empty_norm(raw);
        lemma_emulation_of_empty_norm(n);
    } else {
        assert(text.len() > 0) by {
            if text.len() == 0 {
                assert(text =~= Seq::<char>::empty());
                assert(remove_char(Seq::<char>::empty(), '-') =~= Seq::<char>::empty());
            }
        }
    }
}

} // verus!
