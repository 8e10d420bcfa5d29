//! Calls into other crates and into parts of `std` that carry no
//! specification of their own. Each item here is trusted: its contract is
//! taken as given, and its doc comment says what it claims.

use vstd::prelude::*;

verus! {

/// A lower-case hexadecimal digit.
pub open spec fn is_lower_hex(c: char) -> bool {
    ('0' <= c && c <= '9') || ('a' <= c && c <= 'f')
}

/// The shape of a version-4 UUID in its simple form: 32 lower-case
/// hexadecimal digits, the version digit being `4`.
pub open spec fn is_simple_uuid(s: Seq<char>) -> bool {
    &&& s.len() == 32
    &&& forall|i: int| 0 <= i < 32 ==> #[trigger] is_lower_hex(s[i])
    &&& s[12] == '4'
}

/// The shape of a version-4 UUID in its hyphenated form,
/// `xxxxxxxx-xxxx-4xxx-xxxx-xxxxxxxxxxxx`.
pub open spec fn is_hyphenated_uuid(s: Seq<char>) -> bool {
    &&& s.len() == 36
    &&& forall|i: int|
        0 <= i < 36 ==> if i == 8 || i == 13 || i == 18 || i == 23 {
            #[trigger] s[i] == '-'
        } else {
            is_lower_hex(s[i])
        }
    &&& s[14] == '4'
}

/// A fresh random identifier: `uuid::Uuid::new_v4()` rendered by its
/// `Display` impl, which writes the hyphenated lower-case form. Nothing is
/// claimed of the digits but their shape.
#[verifier::external_body]
pub(crate) fn new_uuid_hyphenated() -> (r: String)
    ensures
        is_hyphenated_uuid(r@),
{
    uuid::Uuid::new_v4().to_string()
}

/// A fresh random identifier: `uuid::Uuid::new_v4()` rendered by
/// `Uuid::simple`, 32 lower-case hexadecimal digits. Nothing is claimed of
/// the digits but their shape.
#[verifier::external_body]
pub(crate) fn new_uuid_simple() -> (r: String)
    ensures
        is_simple_uuid(r@),
{
    uuid::Uuid::new_v4().simple().to_string()
}

/// The current time in whole seconds since the Unix epoch:
/// `chrono::Utc::now().timestamp()`. It reads the clock, so nothing is
/// claimed of the value.
#[verifier::external_body]
pub(crate) fn unix_now_secs() -> (r: i64) {
    chrono::Utc::now().timestamp()
}

/// The current time in milliseconds since the Unix epoch:
/// `chrono::Utc::now().timestamp_millis()`. It reads the clock, so nothing
/// is claimed of the value.
#[verifier::external_body]
pub(crate) fn unix_now_millis() -> (r: i64) {
    chrono::Utc::now().timestamp_millis()
}

/// A random number: `rand::random::<usize>()`. Nothing is claimed of it.
#[verifier::external_body]
pub(crate) fn random_usize() -> (r: usize) {
    rand::random::<usize>()
}

/// What `serde_json` finds as a string when it parses `text` as JSON and
/// follows the JSON pointer `pointer` (RFC 6901) in the document.
pub uninterp spec fn json_pointer_str(text: Seq<char>, pointer: Seq<char>) -> Option<Seq<char>>;

/// Parses `text` with `serde_json::from_str` into a `serde_json::Value`,
/// looks the pointer up with `Value::pointer` and reads the result with
/// `Value::as_str`. `None` when the text is not JSON, when nothing is at the
/// pointer, or when what is there is not a string. The result is named, not
/// stated: it depends on `text` and `pointer` alone.
#[verifier::external_body]
pub(crate) fn json_str_at(text: &str, pointer: &str) -> (r: Option<String>)
    ensures
        r matches Some(s) ==> json_pointer_str(text@, pointer@) == Some(s@),
        r is None ==> json_pointer_str(text@, pointer@) is None,
{
    let value: serde_json::Value = serde_json::from_str(text).ok()?;
    value.pointer(pointer)?.as_str().map(|s| s.to_string())
}

/// What `serde_json` finds as a string under the key `key` when it parses
/// `text` as JSON.
pub uninterp spec fn json_member_str(text: Seq<char>, key: Seq<char>) -> Option<Seq<char>>;

/// Parses `text` with `serde_json::from_str` into a `serde_json::Value`,
/// looks `key` up with `Value::get` (a member of an object; nothing for any
/// other value) and reads the result with `Value::as_str`. `None` when the
/// text is not JSON, when there is no such member, or when it is not a
/// string. The result is named, not stated: it depends on `text` and `key`
/// alone.
#[verifier::external_body]
pub(crate) fn json_str_member(text: &str, key: &str) -> (r: Option<String>)
    ensures
        r matches Some(s) ==> json_member_str(text@, key@) == Some(s@),
        r is None ==> json_member_str(text@, key@) is None,
{
    let value: serde_json::Value = serde_json::from_str(text).ok()?;
    value.get(key)?.as_str().map(|s| s.to_string())
}

/// The message of the error `serde_json` reports when `text` is not a JSON
/// document; `None` when it is one.
pub uninterp spec fn json_syntax_error(text: Seq<char>) -> Option<Seq<char>>;

/// Parses `text` with `serde_json::from_str` into a `serde_json::Value`
/// and, where that fails, renders the `serde_json::Error` with its
/// `Display` impl. `None` when the text parses. The result is named, not
/// stated: it depends on `text` alone.
#[verifier::external_body]
pub(crate) fn json_error(text: &str) -> (r: Option<String>)
    ensures
        r matches Some(m) ==> json_syntax_error(text@) == Some(m@),
        r is None ==> json_syntax_error(text@) is None,
{
    serde_json::from_str::<serde_json::Value>(text).err().map(|e| e.to_string())
}

/// The path component of `text` read as an absolute URL.
pub uninterp spec fn url_path(text: Seq<char>) -> Option<Seq<char>>;

/// Parses `text` with `url::Url::parse` and returns `Url::path`; `None` when
/// the text is not an absolute URL. The result is named, not stated: it
/// depends on `text` alone.
#[verifier::external_body]
pub(crate) fn parse_url_path(text: &str) -> (r: Option<String>)
    ensures
        r matches Some(p) ==> url_path(text@) == Some(p@),
        r is None ==> url_path(text@) is None,
{
    url::Url::parse(text).ok().map(|u| u.path().to_string())
}

/// What `String::from_utf8_lossy` makes of `bytes`.
pub uninterp spec fn utf8_lossy(bytes: Seq<u8>) -> Seq<char>;

/// Decodes `bytes` with `String::from_utf8_lossy`. Its documentation says
/// that valid UTF-8 is decoded as it stands; how invalid sequences are
/// replaced is named, not stated.
#[verifier::external_body]
pub(crate) fn from_utf8_lossy(bytes: &[u8]) -> (r: String)
    ensures
        r@ == utf8_lossy(bytes@),
        vstd::utf8::valid_utf8(bytes@) ==> r@ == vstd::utf8::decode_utf8(bytes@),
{
    String::from_utf8_lossy(bytes).to_string()
}

/// What `str::to_lowercase` makes of `text`.
pub uninterp spec fn lowercase_of(text: Seq<char>) -> Seq<char>;

/// Lower-cases `text` with `str::to_lowercase`, which applies the Unicode
/// lower-case mapping to each character. The result is named; of a text
/// made of ASCII characters alone it is stated: each letter `A`..`Z`
/// becomes its lower-case letter and every other character stays, as the
/// Unicode mapping does for ASCII.
#[verifier::external_body]
pub(crate) fn to_lowercase(text: &str) -> (r: String)
    ensures
        r@ == lowercase_of(text@),
        (forall|i: int| 0 <= i < text@.len() ==> (#[trigger] text@[i] as u32) < 128) ==> r@
            == crate::text::ascii_lower_seq(text@),
{
    text.to_lowercase()
}

} // verus!
