//! Rate-limit queries: the request body, the cleaning of the reply text,
//! and the errors a failed query is reported with.

use vstd::prelude::*;
use crate::text::{
    chars_of, dec_nat, extend, extend_str, find, push_dec, slice_chars, starts_with, starts_with_exec,
    string_of, trim, trim_exec, trim_start, trim_start_char, trim_start_char_exec, trim_start_exec,
};
use crate::json::{deep_members, push_member, Json, JsonV};
use crate::client::preview;
use crate::ext::{from_utf8_lossy, json_error, json_syntax_error, utf8_lossy};
use crate::errors::{err_v, ApiError, ErrorKind};

verus! {

/// `s` with every leading repetition of `p` removed.
pub open spec fn trim_start_pat(s: Seq<char>, p: Seq<char>) -> Seq<char>
    decreases s.len(),
{
    if p.len() > 0 && starts_with(s, p) {
        trim_start_pat(s.skip(p.len() as int), p)
    } else {
        s
    }
}

/// The text after the first line feed of `s`, if it has one.
pub open spec fn after_first_line(s: Seq<char>) -> Option<Seq<char>> {
    match find(s, seq!['\n']) {
        Some(i) => Some(s.skip(i + 1)),
        None => None,
    }
}

/// A reply text cleaned for JSON parsing: byte-order marks and white space
/// removed at the start, a `)]}'` guard line dropped, a `for (;;);` guard
/// removed, and the result trimmed.
pub open spec fn normalized_json_text(raw: Seq<char>) -> Seq<char> {
    let t0 = trim_start(trim_start_char(raw, '\u{feff}'));
    let t1 = if starts_with(t0, ")]}'"@) {
        match after_first_line(t0) {
            Some(rest) => trim_start(rest),
            None => t0,
        }
    } else {
        t0
    };
    let t2 = if starts_with(t1, "for (;;);"@) {
        trim_start(trim_start_pat(t1, "for (;;);"@))
    } else {
        t1
    };
    trim(t2)
}

fn trim_start_pat_exec(s: &[char], p: &[char]) -> (r: Vec<char>)
    ensures
        r@ == trim_start_pat(s@, p@),
{
    let mut i: usize = 0;
    let n = s.len();
    assert(s@.skip(0) == s@);
    loop
        invariant
            i <= n,
            n == s@.len(),
            trim_start_pat(s@.skip(i as int), p@) == trim_start_pat(s@, p@),
        decreases n - i,
    {
        let cur = slice_chars(s, i, n);
        assert(cur@ == s@.skip(i as int));
        if p.len() > 0 && starts_with_exec(cur.as_slice(), p) {
            assert(cur@.skip(p@.len() as int) == s@.skip(i + p@.len()));
            i = i + p.len();
        } else {
            return cur;
        }
    }
}

/// A reply text cleaned for JSON parsing.
pub fn normalize_json_text(raw: &str) -> (r: String)
    ensures
        r@ == normalized_json_text(raw@),
{
    let t0 = trim_start_exec(trim_start_char_exec(chars_of(raw).as_slice(), '\u{feff}').as_slice());
    let t1 = if starts_with_exec(t0.as_slice(), chars_of(")]}'").as_slice()) {
        let nl = vec!['\n'];
        assert(nl@ =~= seq!['\n']);
        match crate::text::find_exec(t0.as_slice(), nl.as_slice()) {
            Some(i) => {
                proof {
                    crate::text::lemma_find_from_spec(t0@, nl@, 0);
                }
                let n = t0.len();
                assert(i + 1 <= n);
                trim_start_exec(slice_chars(t0.as_slice(), i + 1, n).as_slice())
            },
            None => t0,
        }
    } else {
        t0
    };
    let guard = chars_of("for (;;);");
    let t2 = if starts_with_exec(t1.as_slice(), guard.as_slice()) {
        trim_start_exec(trim_start_pat_exec(t1.as_slice(), guard.as_slice()).as_slice())
    } else {
        t1
    };
    string_of(trim_exec(t2.as_slice()).as_slice())
}

/// The first 200 characters of a reply text, escaped.
pub fn body_preview(text: &str) -> (r: String)
    ensures
        r@ == preview(text@, 200),
{
    crate::client::body_preview(text, 200)
}

/// The body of a rate-limit query for a model.
pub open spec fn usage_payload(model_name: Seq<char>) -> JsonV {
    JsonV::Object(seq![("requestKind"@, JsonV::Str("DEFAULT"@)), ("modelName"@, JsonV::Str(model_name))])
}

/// The message of a refused rate-limit query.
pub open spec fn usage_status_message(status: nat, content_type: Seq<char>, body: Seq<char>) -> Seq<char> {
    "Failed to get usage stats: "@ + dec_nat(status) + "; content-type: "@ + content_type + "; body: "@
        + preview(body, 200)
}

/// The hint added when a reply still looks gzip-compressed.
pub open spec fn gzip_hint(bytes: Seq<u8>) -> Seq<char> {
    if bytes.len() >= 2 && bytes[0] == 0x1fu8 && bytes[1] == 0x8bu8 {
        "; hint: upstream body still looks gzip-compressed"@
    } else {
        Seq::empty()
    }
}

/// The message of a reply that is not JSON.
pub open spec fn usage_parse_message(
    error: Seq<char>,
    content_type: Seq<char>,
    normalized: Seq<char>,
    bytes: Seq<u8>,
) -> Seq<char> {
    "Usage parse error: "@ + error + "; content-type: "@ + content_type + "; body: "@ + preview(normalized, 200)
        + gzip_hint(bytes)
}

/// The rate-limit service.
pub struct UsageService;

impl UsageService {
    /// The service.
    pub fn new() -> (r: UsageService) {
        UsageService
    }

    /// The body of a rate-limit query for `model_name`.
    pub fn payload(model_name: &str) -> (r: Json)
        ensures
            r.deep() == usage_payload(model_name@),
    {
        let mut m: Vec<(String, Json)> = Vec::new();
        assert(deep_members(m@) =~= Seq::empty());
        push_member(&mut m, "requestKind", Json::from_str("DEFAULT"));
        push_member(&mut m, "modelName", Json::from_str(model_name));
        assert(deep_members(m@) =~= usage_payload(model_name@)->Object_0);
        Json::object(m)
    }

    /// The browser profile configured for rate-limit queries, when one is.
    pub fn emulation_override(configured: &str) -> (r: Option<String>)
        ensures
            trim(configured@).len() == 0 ==> r is None,
            trim(configured@).len() > 0 ==> (r matches Some(s) && s@ == trim(configured@)),
    {
        let t = trim_exec(chars_of(configured).as_slice());
        if t.len() == 0 {
            None
        } else {
            Some(string_of(t.as_slice()))
        }
    }

    /// The text to parse from a rate-limit reply: refused unless the status
    /// is 200 and the cleaned text is not empty.
    pub fn check_reply(status: u16, content_type: &str, body_text: &str) -> (r: Result<String, ApiError>)
        ensures
            status != 200 ==> (r matches Err(e) && e@ == err_v(
                ErrorKind::Upstream,
                usage_status_message(status as nat, content_type@, body_text@),
            )),
            status == 200 && normalized_json_text(body_text@).len() == 0 ==> (r matches Err(e) && e@
                == err_v(
                ErrorKind::Upstream,
                "Usage parse error: empty response body; content-type: "@ + content_type@,
            )),
            status == 200 && normalized_json_text(body_text@).len() > 0 ==> (r matches Ok(t) && t@
                == normalized_json_text(body_text@)),
    {
        if status != 200 {
            let mut m = chars_of("Failed to get usage stats: ");
            push_dec(&mut m, status as u128);
            extend_str(&mut m, "; content-type: ");
            extend_str(&mut m, content_type);
            extend_str(&mut m, "; body: ");
            extend_str(&mut m, body_preview(body_text).as_str());
            return Err(ApiError::upstream(string_of(m.as_slice()).as_str()));
        }
        let normalized = normalize_json_text(body_text);
        if normalized.as_str().is_empty() {
            let mut m = chars_of("Usage parse error: empty response body; content-type: ");
            extend_str(&mut m, content_type);
            return Err(ApiError::upstream(string_of(m.as_slice()).as_str()));
        }
        Ok(normalized)
    }

    /// The error for a reply text that is not JSON, with the parser's
    /// message.
    pub fn parse_error(error: &str, content_type: &str, normalized: &str, bytes: &[u8]) -> (r: ApiError)
        ensures
            r@ == err_v(ErrorKind::Upstream, usage_parse_message(error@, content_type@, normalized@, bytes@)),
    {
        let mut m = chars_of("Usage parse error: ");
        extend_str(&mut m, error);
        extend_str(&mut m, "; content-type: ");
        extend_str(&mut m, content_type);
        extend_str(&mut m, "; body: ");
        extend_str(&mut m, body_preview(normalized).as_str());
        if bytes.len() >= 2 && bytes[0] == 0x1fu8 && bytes[1] == 0x8bu8 {
            extend_str(&mut m, "; hint: upstream body still looks gzip-compressed");
        } else {
            proof {
                reveal_strlit("");
            }
            assert(m@ + Seq::<char>::empty() == m@);
        }
        ApiError::upstream(string_of(m.as_slice()).as_str())
    }
}

/// The outcome of a rate-limit reply with status `status`, content type
/// `content_type` and body `bytes`: the cleaned JSON text of the reply, or
/// the error it is reported with.
pub open spec fn usage_outcome(status: u16, content_type: Seq<char>, bytes: Seq<u8>) -> Result<
    Seq<char>,
    crate::errors::ApiErrorV,
> {
    let text = utf8_lossy(bytes);
    let normalized = normalized_json_text(text);
    if status != 200 {
        Err(err_v(ErrorKind::Upstream, usage_status_message(status as nat, content_type, text)))
    } else if normalized.len() == 0 {
        Err(
            err_v(
                ErrorKind::Upstream,
                "Usage parse error: empty response body; content-type: "@ + content_type,
            ),
        )
    } else {
        match json_syntax_error(normalized) {
            None => Ok(normalized),
            Some(m) => Err(
                err_v(ErrorKind::Upstream, usage_parse_message(m, content_type, normalized, bytes)),
            ),
        }
    }
}

/// Reads a rate-limit reply: the body is decoded as UTF-8 (invalid
/// sequences replaced), refused unless the status is 200, cleaned, and
/// checked to be a JSON document. Returns the cleaned JSON text.
pub fn usage_reply(status: u16, content_type: &str, bytes: &[u8]) -> (r: Result<String, ApiError>)
    ensures
        match usage_outcome(status, content_type@, bytes@) {
            Ok(t) => r matches Ok(s) && s@ == t,
            Err(ev) => r matches Err(e) && e@ == ev,
        },
{
    let text = from_utf8_lossy(bytes);
    let normalized = UsageService::check_reply(status, content_type, text.as_str())?;
    match json_error(normalized.as_str()) {
        None => Ok(normalized),
        Some(m) => Err(UsageService::parse_error(m.as_str(), content_type, normalized.as_str(), bytes)),
    }
}

} // verus!
