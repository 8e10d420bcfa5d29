//! Rewriting of tool-usage cards and image render cards found in model
//! output.

use vstd::prelude::*;
use crate::text::{
    chars_of, ends_with, ends_with_exec, extend, extend_str, find, find_exec, find_from,
    find_from_exec, lemma_find_from_spec, occurs_at, slice_chars, starts_with, starts_with_exec,
    string_of, trim, trim_exec,
};
use crate::ext::{json_member_str, json_str_member};
use crate::json::{Json, JsonV};

verus! {

// ---------------------------------------------------------------------------
// Position search on a suffix
// ---------------------------------------------------------------------------

/// Searching a suffix of `s` is searching `s` from the suffix's start.
pub proof fn lemma_find_skip(s: Seq<char>, pat: Seq<char>, p: int, i: int)
    requires
        0 <= p <= s.len(),
        0 <= i,
    ensures
        find_from(s.skip(p), pat, i) == match find_from(s, pat, p + i) {
            Some(x) => Some(x - p),
            None => None,
        },
    decreases s.len() + 1 - p - i,
{
    let t = s.skip(p);
    if i + pat.len() > t.len() {
    } else {
        assert(occurs_at(t, pat, i) == occurs_at(s, pat, p + i)) by {
            if occurs_at(s, pat, p + i) {
                assert(t.subrange(i, i + pat.len()) =~= s.subrange(p + i, p + i + pat.len()));
            }
            if occurs_at(t, pat, i) {
                assert(t.subrange(i, i + pat.len()) =~= s.subrange(p + i, p + i + pat.len()));
            }
        }
        if !occurs_at(t, pat, i) {
            lemma_find_skip(s, pat, p, i + 1);
        }
    }
}

/// The first occurrence of `pat` in the suffix of `s` that starts at `p`,
/// counted from `p`.
pub fn find_in_suffix(s: &[char], pat: &[char], p: usize) -> (r: Option<usize>)
    requires
        p <= s.len(),
    ensures
        r matches Some(x) ==> find(s@.skip(p as int), pat@) == Some(x as int) && p + x
            + pat@.len() <= s@.len(),
        r is None ==> find(s@.skip(p as int), pat@) is None,
{
    proof {
        lemma_find_skip(s@, pat@, p as int, 0);
        lemma_find_from_spec(s@, pat@, p as int);
    }
    match find_from_exec(s, pat, p) {
        Some(x) => Some(x - p),
        None => None,
    }
}

/// The pieces of `s` between the occurrences of `c` (`str::split` with a
/// character).
pub open spec fn split_char(s: Seq<char>, c: char) -> Seq<Seq<char>>
    decreases s.len(),
{
    match find(s, seq![c]) {
        Some(i) => if 0 <= i < s.len() {
            seq![s.take(i)] + split_char(s.skip(i + 1), c)
        } else {
            seq![s]
        },
        None => seq![s],
    }
}

pub open spec fn views_of(v: Seq<Vec<char>>) -> Seq<Seq<char>> {
    v.map_values(|x: Vec<char>| x@)
}

/// The pieces of `s` between the occurrences of `c`.
pub fn split_chars(s: &[char], c: char) -> (r: Vec<Vec<char>>)
    ensures
        views_of(r@) == split_char(s@, c),
        r@.len() >= 1,
{
    let mut parts: Vec<Vec<char>> = Vec::new();
    let pat = vec![c];
    let n = s.len();
    let mut pos: usize = 0;
    assert(s@.skip(0) == s@);
    assert(views_of(parts@) =~= Seq::empty());
    loop
        invariant
            pos <= n,
            n == s@.len(),
            pat@ == seq![c],
            views_of(parts@) + split_char(s@.skip(pos as int), c) == split_char(s@, c),
        decreases n - pos,
    {
        let ghost rest = s@.skip(pos as int);
        match find_in_suffix(s, pat.as_slice(), pos) {
            None => {
                let piece = slice_chars(s, pos, n);
                assert(piece@ == rest);
                let ghost before = parts@;
                parts.push(piece);
                assert(views_of(parts@) =~= views_of(before).push(rest));
                assert(split_char(rest, c) == seq![rest]);
                assert(views_of(before) + seq![rest] =~= views_of(before).push(rest));
                return parts;
            },
            Some(i) => {
                let piece = slice_chars(s, pos, pos + i);
                assert(piece@ == rest.take(i as int));
                let ghost before = parts@;
                parts.push(piece);
                assert(views_of(parts@) =~= views_of(before).push(rest.take(i as int)));
                assert(rest.skip(i + 1) == s@.skip(pos + i + 1));
                assert(split_char(rest, c) == seq![rest.take(i as int)] + split_char(
                    rest.skip(i + 1),
                    c,
                ));
                assert(views_of(before).push(rest.take(i as int)) + split_char(rest.skip(i + 1), c)
                    =~= views_of(before) + (seq![rest.take(i as int)] + split_char(rest.skip(i + 1), c)));
                pos = pos + i + 1;
            },
        }
    }
}

// ---------------------------------------------------------------------------
// XML-like tags
// ---------------------------------------------------------------------------

pub open spec fn open_tag(tag: Seq<char>) -> Seq<char> {
    "<"@ + tag + ">"@
}

pub open spec fn close_tag(tag: Seq<char>) -> Seq<char> {
    "</"@ + tag + ">"@
}

/// The opening tag, when present, ends no later than the closing tag
/// starts: the inner text is then well defined.
pub open spec fn xml_ok(raw: Seq<char>, tag: Seq<char>) -> bool {
    match (find(raw, open_tag(tag)), find(raw, close_tag(tag))) {
        (Some(s), Some(e)) => s + open_tag(tag).len() <= e,
        _ => true,
    }
}

/// The text between `<tag>` and `</tag>`, trimmed, with a CDATA wrapper
/// removed.
pub open spec fn xml_content(raw: Seq<char>, tag: Seq<char>) -> Option<Seq<char>> {
    match (find(raw, open_tag(tag)), find(raw, close_tag(tag))) {
        (Some(s), Some(e)) => {
            let t = trim(raw.subrange(s + open_tag(tag).len(), e));
            if starts_with(t, "<![CDATA["@) && ends_with(t, "]]>"@) {
                Some(t.subrange(9, t.len() - 3))
            } else {
                Some(t)
            }
        },
        _ => None,
    }
}

pub open spec fn unwrap_or_empty(v: Option<Seq<char>>) -> Seq<char> {
    match v {
        Some(x) => x,
        None => Seq::empty(),
    }
}

pub open spec fn unwrap_or(v: Option<Seq<char>>, d: Seq<char>) -> Seq<char> {
    match v {
        Some(x) => x,
        None => d,
    }
}

/// The string field `field` of the JSON object in `text`.
pub open spec fn json_field(text: Seq<char>, field: Seq<char>) -> Option<Seq<char>> {
    json_member_str(text, field)
}

/// Both tags that a tool card is read for are well formed.
pub open spec fn tool_block_ok(raw: Seq<char>) -> bool {
    xml_ok(raw, "xai:tool_name"@) && xml_ok(raw, "xai:tool_args"@)
}

/// The line that stands for a tool card in the output.
pub open spec fn tool_text(raw: Seq<char>, rollout_id: Seq<char>) -> Seq<char> {
    let prefix = if rollout_id.len() == 0 {
        Seq::empty()
    } else {
        "["@ + rollout_id + "]"@
    };
    let name = unwrap_or_empty(xml_content(raw, "xai:tool_name"@));
    let args = unwrap_or_empty(xml_content(raw, "xai:tool_args"@));
    if name == "web_search"@ {
        prefix + "[WebSearch] "@ + unwrap_or(json_field(args, "query"@), args) + "\n"@
    } else if name == "search_images"@ {
        prefix + "[SearchImage] "@ + unwrap_or(json_field(args, "description"@), args) + "\n"@
    } else if name == "chatroom_send"@ {
        prefix + "[AgentThink] "@ + unwrap_or(json_field(args, "message"@), args) + "\n"@
    } else if name.len() != 0 {
        prefix + "["@ + name + "] "@ + args + "\n"@
    } else {
        Seq::empty()
    }
}

/// A CDATA-wrapped text is long enough for both markers.
proof fn lemma_cdata_len(t: Seq<char>)
    requires
        starts_with(t, "<![CDATA["@),
        ends_with(t, "]]>"@),
    ensures
        t.len() >= 12,
{
    reveal_strlit("<![CDATA[");
    reveal_strlit("]]>");
    if t.len() < 12 {
        let k = t.len() - 3;
        assert(t.subrange(k, t.len() as int)[0] == ']');
        assert(t[k] == ']');
        assert(t.subrange(0, 9)[k] == t[k]);
    }
}

fn lit_tag(open: bool, tag: &str) -> (r: Vec<char>)
    ensures
        r@ == if open {
            open_tag(tag@)
        } else {
            close_tag(tag@)
        },
{
    let mut r: Vec<char> = Vec::new();
    if open {
        extend_str(&mut r, "<");
    } else {
        extend_str(&mut r, "</");
    }
    extend_str(&mut r, tag);
    extend_str(&mut r, ">");
    r
}

/// The text between `<tag>` and `</tag>`, trimmed, with a CDATA wrapper
/// removed; `None` when either tag is missing.
pub fn extract_xml_content(raw: &str, tag: &str) -> (r: Option<String>)
    requires
        xml_ok(raw@, tag@),
    ensures
        r matches Some(s) ==> xml_content(raw@, tag@) == Some(s@),
        r is None ==> xml_content(raw@, tag@) is None,
{
    let rv = chars_of(raw);
    let r = xml_content_chars(rv.as_slice(), tag);
    match r {
        Some(v) => Some(string_of(v.as_slice())),
        None => None,
    }
}

fn xml_content_chars(raw: &[char], tag: &str) -> (r: Option<Vec<char>>)
    requires
        xml_ok(raw@, tag@),
    ensures
        r matches Some(s) ==> xml_content(raw@, tag@) == Some(s@),
        r is None ==> xml_content(raw@, tag@) is None,
{
    let open = lit_tag(true, tag);
    let close = lit_tag(false, tag);
    let start = match find_exec(raw, open.as_slice()) {
        Some(s) => s,
        None => return None,
    };
    let end = match find_exec(raw, close.as_slice()) {
        Some(e) => e,
        None => return None,
    };
    proof {
        lemma_find_from_spec(raw@, close@, 0);
    }
    let inner = slice_chars(raw, start + open.len(), end);
    let t = trim_exec(inner.as_slice());
    let cdata_open = chars_of("<![CDATA[");
    let cdata_close = chars_of("]]>");
    if starts_with_exec(t.as_slice(), cdata_open.as_slice()) && ends_with_exec(
        t.as_slice(),
        cdata_close.as_slice(),
    ) {
        proof {
            lemma_cdata_len(t@);
        }
        Some(slice_chars(t.as_slice(), 9, t.len() - 3))
    } else {
        Some(t)
    }
}

/// The string field `field` of the JSON object held in `json_str`.
pub fn extract_json_field(json_str: &str, field: &str) -> (r: Option<String>)
    ensures
        r matches Some(s) ==> json_field(json_str@, field@) == Some(s@),
        r is None ==> json_field(json_str@, field@) is None,
{
    json_str_member(json_str, field)
}

fn extract_field_or(args: &Vec<char>, field: &str) -> (r: Vec<char>)
    ensures
        r@ == unwrap_or(json_field(args@, field@), args@),
{
    let text = string_of(args.as_slice());
    match extract_json_field(text.as_str(), field) {
        Some(v) => chars_of(v.as_str()),
        None => {
            let mut c: Vec<char> = Vec::new();
            extend(&mut c, args.as_slice());
            c
        },
    }
}

fn tool_text_chars(raw: &[char], rollout_id: &[char]) -> (r: Vec<char>)
    requires
        tool_block_ok(raw@),
    ensures
        r@ == tool_text(raw@, rollout_id@),
{
    let mut prefix: Vec<char> = Vec::new();
    if rollout_id.len() != 0 {
        extend_str(&mut prefix, "[");
        extend(&mut prefix, rollout_id);
        extend_str(&mut prefix, "]");
    }
    let name = match xml_content_chars(raw, "xai:tool_name") {
        Some(v) => v,
        None => Vec::new(),
    };
    let args = match xml_content_chars(raw, "xai:tool_args") {
        Some(v) => v,
        None => Vec::new(),
    };
    let mut out: Vec<char> = Vec::new();
    let web = chars_of("web_search");
    let img = chars_of("search_images");
    let chat = chars_of("chatroom_send");
    if crate::text::eq_chars(name.as_slice(), web.as_slice()) {
        extend(&mut out, prefix.as_slice());
        extend_str(&mut out, "[WebSearch] ");
        extend(&mut out, extract_field_or(&args, "query").as_slice());
        extend_str(&mut out, "\n");
    } else if crate::text::eq_chars(name.as_slice(), img.as_slice()) {
        extend(&mut out, prefix.as_slice());
        extend_str(&mut out, "[SearchImage] ");
        extend(&mut out, extract_field_or(&args, "description").as_slice());
        extend_str(&mut out, "\n");
    } else if crate::text::eq_chars(name.as_slice(), chat.as_slice()) {
        extend(&mut out, prefix.as_slice());
        extend_str(&mut out, "[AgentThink] ");
        extend(&mut out, extract_field_or(&args, "message").as_slice());
        extend_str(&mut out, "\n");
    } else if name.len() != 0 {
        extend(&mut out, prefix.as_slice());
        extend_str(&mut out, "[");
        extend(&mut out, name.as_slice());
        extend_str(&mut out, "] ");
        extend(&mut out, args.as_slice());
        extend_str(&mut out, "\n");
    }
    out
}

/// The line that stands for a tool card: the tool's name, its main argument
/// and the rollout id the card belongs to.
pub fn extract_tool_text(raw: &str, rollout_id: &str) -> (r: String)
    requires
        tool_block_ok(raw@),
    ensures
        r@ == tool_text(raw@, rollout_id@),
{
    let v = tool_text_chars(chars_of(raw).as_slice(), chars_of(rollout_id).as_slice());
    string_of(v.as_slice())
}

// ---------------------------------------------------------------------------
// Tool cards in a complete text
// ---------------------------------------------------------------------------

pub open spec fn card_open() -> Seq<char> {
    "<xai:tool_usage_card"@
}

pub open spec fn card_close() -> Seq<char> {
    "</xai:tool_usage_card>"@
}

/// `content` with each complete tool card replaced by its line and an
/// unterminated card dropped with everything after it.
pub open spec fn filter_tool_usage(content: Seq<char>, rollout_id: Seq<char>) -> Seq<char>
    decreases content.len(),
{
    match find(content, card_open()) {
        None => content,
        Some(st) => {
            let after = content.skip(st);
            match find(after, card_close()) {
                None => content.take(st),
                Some(e) => {
                    let k = e + card_close().len();
                    if 0 <= st <= content.len() && 0 <= e && 0 < k <= after.len() {
                        content.take(st) + tool_text(after.take(k), rollout_id)
                            + filter_tool_usage(after.skip(k), rollout_id)
                    } else {
                        content
                    }
                },
            }
        },
    }
}

/// Every complete tool card of `content` has well-formed tags.
pub open spec fn filter_ok(content: Seq<char>) -> bool
    decreases content.len(),
{
    match find(content, card_open()) {
        None => true,
        Some(st) => {
            let after = content.skip(st);
            match find(after, card_close()) {
                None => true,
                Some(e) => {
                    let k = e + card_close().len();
                    if 0 <= st <= content.len() && 0 <= e && 0 < k <= after.len() {
                        tool_block_ok(after.take(k)) && filter_ok(after.skip(k))
                    } else {
                        true
                    }
                },
            }
        },
    }
}

proof fn lemma_card_close_len()
    ensures
        card_close().len() == 22,
        card_open().len() == 20,
{
    reveal_strlit("</xai:tool_usage_card>");
    reveal_strlit("<xai:tool_usage_card");
}

/// `content` with each complete tool card replaced by its line; an
/// unterminated card and what follows it are dropped.
pub fn filter_tool_usage_content(content: &str, rollout_id: &str) -> (r: String)
    requires
        filter_ok(content@),
    ensures
        r@ == filter_tool_usage(content@, rollout_id@),
{
    let c = chars_of(content);
    let rid = chars_of(rollout_id);
    let open = chars_of("<xai:tool_usage_card");
    let close = chars_of("</xai:tool_usage_card>");
    proof {
        lemma_card_close_len();
    }
    let mut out: Vec<char> = Vec::new();
    let mut pos: usize = 0;
    let clen = c.len();
    assert(c@.skip(0) == c@);
    loop
        invariant
            pos <= c@.len(),
            clen == c@.len(),
            open@ == card_open(),
            close@ == card_close(),
            close@.len() == 22,
            filter_ok(c@.skip(pos as int)),
            out@ + filter_tool_usage(c@.skip(pos as int), rid@) == filter_tool_usage(
                content@,
                rollout_id@,
            ),
            c@ == content@,
            rid@ == rollout_id@,
        decreases c@.len() - pos,
    {
        let ghost rem = c@.skip(pos as int);
        let st = match find_in_suffix(c.as_slice(), open.as_slice(), pos) {
            Some(st) => st,
            None => {
                let tail = slice_chars(c.as_slice(), pos, c.len());
                assert(tail@ == rem);
                extend(&mut out, tail.as_slice());
                return string_of(out.as_slice());
            },
        };
        proof {
            lemma_find_from_spec(rem, card_open(), 0);
        }
        let head = slice_chars(c.as_slice(), pos, pos + st);
        assert(head@ == rem.take(st as int));
        let ghost after = rem.skip(st as int);
        assert(after == c@.skip(pos + st));
        let e = match find_in_suffix(c.as_slice(), close.as_slice(), pos + st) {
            Some(e) => e,
            None => {
                extend(&mut out, head.as_slice());
                return string_of(out.as_slice());
            },
        };
        proof {
            lemma_find_from_spec(after, card_close(), 0);
        }
        let k = e + close.len();
        let block = slice_chars(c.as_slice(), pos + st, pos + st + k);
        assert(block@ == after.take(k as int));
        let line = tool_text_chars(block.as_slice(), rid.as_slice());
        extend(&mut out, head.as_slice());
        extend(&mut out, line.as_slice());
        assert(after.skip(k as int) == c@.skip(pos + st + k));
        pos = pos + st + k;
    }
}

// ---------------------------------------------------------------------------
// Small helpers of the render-card rewriting
// ---------------------------------------------------------------------------

/// The value of the attribute `name="..."` in `segment`.
pub open spec fn attr_value(segment: Seq<char>, name: Seq<char>) -> Option<Seq<char>> {
    let pattern = name + "=\""@;
    match find(segment, pattern) {
        Some(s) => {
            let after = segment.skip(s + pattern.len());
            match find(after, "\""@) {
                Some(e) => Some(after.take(e)),
                None => None,
            }
        },
        None => None,
    }
}

fn attr_value_chars(segment: &[char], name: &str) -> (r: Option<Vec<char>>)
    ensures
        r matches Some(v) ==> attr_value(segment@, name@) == Some(v@),
        r is None ==> attr_value(segment@, name@) is None,
{
    let mut pattern: Vec<char> = Vec::new();
    extend_str(&mut pattern, name);
    extend_str(&mut pattern, "=\"");
    let s = match find_exec(segment, pattern.as_slice()) {
        Some(s) => s,
        None => return None,
    };
    proof {
        lemma_find_from_spec(segment@, pattern@, 0);
        assert(occurs_at(segment@, pattern@, s as int));
    }
    let slen = segment.len();
    let from = s + pattern.len();
    let quote = chars_of("\"");
    let e = match find_in_suffix(segment, quote.as_slice(), from) {
        Some(e) => e,
        None => return None,
    };
    proof {
        lemma_find_from_spec(segment@.skip(from as int), quote@, 0);
    }
    let v = slice_chars(segment, from, from + e);
    assert(v@ == segment@.skip(from as int).take(e as int));
    Some(v)
}

/// The value of the attribute `name="..."` in the characters `segment`.
pub fn attr_value_chars_pub(segment: &[char], name: &str) -> (r: Option<Vec<char>>)
    ensures
        r matches Some(v) ==> attr_value(segment@, name@) == Some(v@),
        r is None ==> attr_value(segment@, name@) is None,
{
    attr_value_chars(segment, name)
}

/// The value of the attribute `attr_name="..."` in `segment`.
pub fn extract_attr(segment: &str, attr_name: &str) -> (r: Option<String>)
    ensures
        r matches Some(v) ==> attr_value(segment@, attr_name@) == Some(v@),
        r is None ==> attr_value(segment@, attr_name@) is None,
{
    match attr_value_chars(chars_of(segment).as_slice(), attr_name) {
        Some(v) => Some(string_of(v.as_slice())),
        None => None,
    }
}


// ---------------------------------------------------------------------------
// Tool cards in streamed text
// ---------------------------------------------------------------------------

/// Feeding one streamed token through the tool-card filter: the text to
/// emit, whether a card is left open, and the buffered text of that card.
pub open spec fn card_feed(opened: bool, buffer: Seq<char>, rid: Seq<char>, token: Seq<char>) -> (
    Seq<char>,
    bool,
    Seq<char>,
)
    decreases token.len(),
{
    if token.len() == 0 {
        (Seq::empty(), opened, buffer)
    } else if opened {
        match find(token, card_close()) {
            Some(e) => {
                let k = e + card_close().len();
                if 0 <= e && 0 < k <= token.len() {
                    let rest = card_feed(false, Seq::empty(), rid, token.skip(k));
                    (tool_text(buffer + token.take(k), rid) + rest.0, rest.1, rest.2)
                } else {
                    (Seq::empty(), opened, buffer)
                }
            },
            None => (Seq::empty(), true, buffer + token),
        }
    } else {
        match find(token, card_open()) {
            None => (token, false, buffer),
            Some(st) => {
                if 0 <= st <= token.len() {
                    let after = token.skip(st);
                    match find(after, card_close()) {
                        Some(e) => {
                            let k = e + card_close().len();
                            if 0 <= e && 0 < k <= after.len() {
                                let rest = card_feed(false, Seq::empty(), rid, after.skip(k));
                                (
                                    token.take(st) + tool_text(after.take(k), rid) + rest.0,
                                    rest.1,
                                    rest.2,
                                )
                            } else {
                                (Seq::empty(), opened, buffer)
                            }
                        },
                        None => (token.take(st), true, after),
                    }
                } else {
                    (Seq::empty(), opened, buffer)
                }
            },
        }
    }
}

/// Every card that feeding `token` completes has well-formed tags.
pub open spec fn card_feed_ok(opened: bool, buffer: Seq<char>, token: Seq<char>) -> bool
    decreases token.len(),
{
    if token.len() == 0 {
        true
    } else if opened {
        match find(token, card_close()) {
            Some(e) => {
                let k = e + card_close().len();
                if 0 <= e && 0 < k <= token.len() {
                    tool_block_ok(buffer + token.take(k)) && card_feed_ok(
                        false,
                        Seq::empty(),
                        token.skip(k),
                    )
                } else {
                    true
                }
            },
            None => true,
        }
    } else {
        match find(token, card_open()) {
            None => true,
            Some(st) => {
                if 0 <= st <= token.len() {
                    let after = token.skip(st);
                    match find(after, card_close()) {
                        Some(e) => {
                            let k = e + card_close().len();
                            if 0 <= e && 0 < k <= after.len() {
                                tool_block_ok(after.take(k)) && card_feed_ok(
                                    false,
                                    Seq::empty(),
                                    after.skip(k),
                                )
                            } else {
                                true
                            }
                        },
                        None => true,
                    }
                } else {
                    true
                }
            },
        }
    }
}

/// Feeds one streamed token through the tool-card filter, updating whether
/// a card is open and what of it has been buffered; returns the text to
/// emit.
pub fn feed_tool_cards(opened: &mut bool, buffer: &mut Vec<char>, rid: &[char], token: &[char]) -> (r: Vec<char>)
    requires
        card_feed_ok(*old(opened), old(buffer)@, token@),
    ensures
        (r@, *final(opened), final(buffer)@) == card_feed(*old(opened), old(buffer)@, rid@, token@),
{
    let open = chars_of("<xai:tool_usage_card");
    let close = chars_of("</xai:tool_usage_card>");
    proof {
        lemma_card_close_len();
    }
    let tlen = token.len();
    let mut out: Vec<char> = Vec::new();
    let mut pos: usize = 0;
    assert(token@.skip(0) == token@);
    loop
        invariant
            pos <= token@.len(),
            tlen == token@.len(),
            open@ == card_open(),
            close@ == card_close(),
            close@.len() == 22,
            card_feed_ok(*opened, buffer@, token@.skip(pos as int)),
            ({
                let res = card_feed(*opened, buffer@, rid@, token@.skip(pos as int));
                (out@ + res.0, res.1, res.2) == card_feed(*old(opened), old(buffer)@, rid@, token@)
            }),
        decreases token@.len() - pos,
    {
        let ghost rem = token@.skip(pos as int);
        if pos == tlen {
            assert(rem.len() == 0);
            assert(out@ + Seq::<char>::empty() == out@);
            return out;
        }
        if *opened {
            match find_in_suffix(token, close.as_slice(), pos) {
                Some(e) => {
                    proof {
                        lemma_find_from_spec(rem, card_close(), 0);
                    }
                    let k = e + close.len();
                    let piece = slice_chars(token, pos, pos + k);
                    assert(piece@ == rem.take(k as int));
                    extend(buffer, piece.as_slice());
                    let line = tool_text_chars(buffer.as_slice(), rid);
                    extend(&mut out, line.as_slice());
                    *opened = false;
                    *buffer = Vec::new();
                    assert(rem.skip(k as int) == token@.skip(pos + k));
                    pos = pos + k;
                },
                None => {
                    let piece = slice_chars(token, pos, tlen);
                    assert(piece@ == rem);
                    extend(buffer, piece.as_slice());
                    assert(out@ + Seq::<char>::empty() == out@);
                    return out;
                },
            }
        } else {
            match find_in_suffix(token, open.as_slice(), pos) {
                None => {
                    let piece = slice_chars(token, pos, tlen);
                    assert(piece@ == rem);
                    extend(&mut out, piece.as_slice());
                    return out;
                },
                Some(st) => {
                    proof {
                        lemma_find_from_spec(rem, card_open(), 0);
                    }
                    let head = slice_chars(token, pos, pos + st);
                    assert(head@ == rem.take(st as int));
                    extend(&mut out, head.as_slice());
                    let ghost after = rem.skip(st as int);
                    assert(after == token@.skip(pos + st));
                    match find_in_suffix(token, close.as_slice(), pos + st) {
                        Some(e) => {
                            proof {
                                lemma_find_from_spec(after, card_close(), 0);
                            }
                            let k = e + close.len();
                            let block = slice_chars(token, pos + st, pos + st + k);
                            assert(block@ == after.take(k as int));
                            let line = tool_text_chars(block.as_slice(), rid);
                            extend(&mut out, line.as_slice());
                            *buffer = Vec::new();
                            assert(after.skip(k as int) == token@.skip(pos + st + k));
                            pos = pos + st + k;
                        },
                        None => {
                            let rest = slice_chars(token, pos + st, tlen);
                            assert(rest@ == after);
                            *opened = true;
                            *buffer = rest;
                            return out;
                        },
                    }
                },
            }
        }
    }
}


// ---------------------------------------------------------------------------
// Checks for tool cards whose tags the reader cannot take apart
// ---------------------------------------------------------------------------

fn xml_ok_exec(raw: &[char], tag: &str) -> (b: bool)
    ensures
        b == xml_ok(raw@, tag@),
{
    let open = lit_tag(true, tag);
    let close = lit_tag(false, tag);
    match (find_exec(raw, open.as_slice()), find_exec(raw, close.as_slice())) {
        (Some(s), Some(e)) => s as u128 + open.len() as u128 <= e as u128,
        _ => true,
    }
}

/// Whether both tags that a tool card is read for are well formed.
pub fn tool_block_ok_exec(raw: &[char]) -> (b: bool)
    ensures
        b == tool_block_ok(raw@),
{
    xml_ok_exec(raw, "xai:tool_name") && xml_ok_exec(raw, "xai:tool_args")
}

/// Whether every complete tool card of `content` has well-formed tags, so
/// that [`filter_tool_usage_content`] can read it.
pub fn tool_cards_readable(content: &str) -> (b: bool)
    ensures
        b == filter_ok(content@),
{
    let c = chars_of(content);
    let open = chars_of("<xai:tool_usage_card");
    let close = chars_of("</xai:tool_usage_card>");
    proof {
        lemma_card_close_len();
    }
    let mut pos: usize = 0;
    let n = c.len();
    assert(c@.skip(0) == c@);
    loop
        invariant
            pos <= c@.len(),
            n == c@.len(),
            open@ == card_open(),
            close@ == card_close(),
            close@.len() == 22,
            filter_ok(c@.skip(pos as int)) == filter_ok(content@),
            c@ == content@,
        decreases c@.len() - pos,
    {
        let ghost rem = c@.skip(pos as int);
        let st = match find_in_suffix(c.as_slice(), open.as_slice(), pos) {
            Some(st) => st,
            None => {
                return true;
            },
        };
        proof {
            lemma_find_from_spec(rem, card_open(), 0);
        }
        let ghost after = rem.skip(st as int);
        assert(after == c@.skip(pos + st));
        let e = match find_in_suffix(c.as_slice(), close.as_slice(), pos + st) {
            Some(e) => e,
            None => {
                return true;
            },
        };
        proof {
            lemma_find_from_spec(after, card_close(), 0);
        }
        let k = e + close.len();
        let block = slice_chars(c.as_slice(), pos + st, pos + st + k);
        assert(block@ == after.take(k as int));
        if !tool_block_ok_exec(block.as_slice()) {
            return false;
        }
        assert(after.skip(k as int) == c@.skip(pos + st + k));
        pos = pos + st + k;
    }
}

/// Whether feeding `token` through the tool-card filter only completes
/// cards with well-formed tags, so that [`feed_tool_cards`] can read them.
pub fn card_feed_readable(opened: bool, buffer: &[char], token: &[char]) -> (b: bool)
    ensures
        b == card_feed_ok(opened, buffer@, token@),
{
    let open = chars_of("<xai:tool_usage_card");
    let close = chars_of("</xai:tool_usage_card>");
    proof {
        lemma_card_close_len();
    }
    let tlen = token.len();
    let mut is_open = opened;
    let mut buf: Vec<char> = Vec::new();
    extend(&mut buf, buffer);
    let mut pos: usize = 0;
    assert(token@.skip(0) == token@);
    assert(buf@ == buffer@);
    loop
        invariant
            pos <= token@.len(),
            tlen == token@.len(),
            open@ == card_open(),
            close@ == card_close(),
            close@.len() == 22,
            card_feed_ok(is_open, buf@, token@.skip(pos as int)) == card_feed_ok(
                opened,
                buffer@,
                token@,
            ),
        decreases token@.len() - pos,
    {
        let ghost rem = token@.skip(pos as int);
        if pos == tlen {
            assert(rem.len() == 0);
            return true;
        }
        if is_open {
            match find_in_suffix(token, close.as_slice(), pos) {
                Some(e) => {
                    proof {
                        lemma_find_from_spec(rem, card_close(), 0);
                    }
                    let k = e + close.len();
                    let piece = slice_chars(token, pos, pos + k);
                    assert(piece@ == rem.take(k as int));
                    extend(&mut buf, piece.as_slice());
                    if !tool_block_ok_exec(buf.as_slice()) {
                        return false;
                    }
                    is_open = false;
                    buf = Vec::new();
                    assert(rem.skip(k as int) == token@.skip(pos + k));
                    pos = pos + k;
                },
                None => {
                    return true;
                },
            }
        } else {
            match find_in_suffix(token, open.as_slice(), pos) {
                None => {
                    return true;
                },
                Some(st) => {
                    proof {
                        lemma_find_from_spec(rem, card_open(), 0);
                    }
                    let ghost after = rem.skip(st as int);
                    assert(after == token@.skip(pos + st));
                    match find_in_suffix(token, close.as_slice(), pos + st) {
                        Some(e) => {
                            proof {
                                lemma_find_from_spec(after, card_close(), 0);
                            }
                            let k = e + close.len();
                            let block = slice_chars(token, pos + st, pos + st + k);
                            assert(block@ == after.take(k as int));
                            if !tool_block_ok_exec(block.as_slice()) {
                                return false;
                            }
                            buf = Vec::new();
                            assert(after.skip(k as int) == token@.skip(pos + st + k));
                            pos = pos + st + k;
                        },
                        None => {
                            return true;
                        },
                    }
                },
            }
        }
    }
}

// ---------------------------------------------------------------------------
// The streamed and the collected tool-card filters agree
// ---------------------------------------------------------------------------

/// A text fed as one token to a fresh tool-card filter comes out as the
/// filter of a collected reply leaves it: complete cards become their
/// lines, and an unterminated card is held back (buffered by the one,
/// dropped by the other).
pub proof fn lemma_feed_matches_filter(content: Seq<char>, rid: Seq<char>)
    ensures
        card_feed(false, Seq::empty(), rid, content).0 == filter_tool_usage(content, rid),
    decreases content.len(),
{
    lemma_card_close_len();
    if content.len() > 0 {
        crate::text::lemma_find_from_spec(content, card_open(), 0);
        match find(content, card_open()) {
            None => {},
            Some(st) => {
                let after = content.skip(st);
                crate::text::lemma_find_from_spec(after, card_close(), 0);
                match find(after, card_close()) {
                    None => {},
                    Some(e) => {
                        let k = e + card_close().len();
                        assert(0 < k <= after.len());
                        lemma_feed_matches_filter(after.skip(k), rid);
                    },
                }
            },
        }
    }
}

// ---------------------------------------------------------------------------
// Splitting a streamed token between tags
// ---------------------------------------------------------------------------

/// No occurrence of `pat` in `s` runs across position `n`.
pub open spec fn no_straddle(s: Seq<char>, pat: Seq<char>, n: int) -> bool {
    forall|i: int| #[trigger] occurs_at(s, pat, i) ==> !(i < n < i + pat.len())
}

/// Position `n` of `s` lies inside no opening and no closing tool-card tag.
pub open spec fn between_card_tags(s: Seq<char>, n: int) -> bool {
    no_straddle(s, card_open(), n) && no_straddle(s, card_close(), n)
}

/// An occurrence in `a + c` that lies in `a` is one of `a`; one that lies in
/// `c` is one of `c`.
proof fn lemma_occurs_concat(a: Seq<char>, c: Seq<char>, pat: Seq<char>, i: int)
    ensures
        0 <= i && i + pat.len() <= a.len() ==> occurs_at(a + c, pat, i) == occurs_at(a, pat, i),
        a.len() <= i ==> occurs_at(a + c, pat, i) == occurs_at(c, pat, i - a.len()),
{
    let s = a + c;
    if 0 <= i && i + pat.len() <= a.len() {
        assert(s.subrange(i, i + pat.len()) =~= a.subrange(i, i + pat.len()));
    }
    if a.len() <= i && i + pat.len() <= s.len() {
        assert(s.subrange(i, i + pat.len()) =~= c.subrange(i - a.len(), i - a.len() + pat.len()));
    }
}

/// An occurrence in a suffix of `s` is an occurrence in `s`.
proof fn lemma_occurs_skip(s: Seq<char>, pat: Seq<char>, k: int, i: int)
    requires
        0 <= k <= s.len(),
        0 <= i,
    ensures
        occurs_at(s.skip(k), pat, i) == occurs_at(s, pat, i + k),
{
    if 0 <= i && i + pat.len() <= s.len() - k {
        assert(s.skip(k).subrange(i, i + pat.len()) =~= s.subrange(i + k, i + k + pat.len()));
    }
}

/// The first occurrence is the one that no earlier occurrence precedes.
proof fn lemma_find_is(s: Seq<char>, pat: Seq<char>, j: int)
    requires
        occurs_at(s, pat, j),
        forall|k: int| 0 <= k < j ==> !#[trigger] occurs_at(s, pat, k),
    ensures
        find(s, pat) == Some(j),
{
    crate::text::lemma_find_from_spec(s, pat, 0);
}

proof fn lemma_find_none(s: Seq<char>, pat: Seq<char>)
    requires
        forall|k: int| 0 <= k ==> !#[trigger] occurs_at(s, pat, k),
    ensures
        find(s, pat) is None,
{
    crate::text::lemma_find_from_spec(s, pat, 0);
}

/// Searching `a + c`, when no occurrence runs across the join: the first
/// occurrence in `a`, or else the first in `c`, moved past `a`.
proof fn lemma_find_concat(a: Seq<char>, c: Seq<char>, pat: Seq<char>)
    requires
        pat.len() > 0,
        no_straddle(a + c, pat, a.len() as int),
    ensures
        find(a + c, pat) == match find(a, pat) {
            Some(i) => Some(i),
            None => match find(c, pat) {
                Some(j) => Some(a.len() + j),
                None => None,
            },
        },
{
    let s = a + c;
    let n = a.len() as int;
    crate::text::lemma_find_from_spec(a, pat, 0);
    crate::text::lemma_find_from_spec(c, pat, 0);
    assert forall|k: int| 0 <= k && k + pat.len() <= n implies occurs_at(s, pat, k) == occurs_at(
        a,
        pat,
        k,
    ) by {
        lemma_occurs_concat(a, c, pat, k);
    }
    assert forall|k: int| n <= k implies occurs_at(s, pat, k) == occurs_at(c, pat, k - n) by {
        lemma_occurs_concat(a, c, pat, k);
    }
    match find(a, pat) {
        Some(i) => {
            assert forall|k: int| 0 <= k < i implies !#[trigger] occurs_at(s, pat, k) by {
                if occurs_at(s, pat, k) && k + pat.len() <= n {
                    assert(occurs_at(a, pat, k));
                }
            }
            assert(occurs_at(a, pat, i));
            lemma_find_is(s, pat, i);
        },
        None => {
            assert forall|k: int| 0 <= k < n implies !#[trigger] occurs_at(s, pat, k) by {
                if occurs_at(s, pat, k) && k + pat.len() <= n {
                    assert(occurs_at(a, pat, k));
                }
            }
            match find(c, pat) {
                Some(j) => {
                    assert forall|k: int| 0 <= k < n + j implies !#[trigger] occurs_at(s, pat, k) by {
                        if n <= k {
                            assert(!occurs_at(c, pat, k - n));
                        }
                    }
                    assert(occurs_at(c, pat, j));
                    assert(occurs_at(s, pat, n + j));
                    lemma_find_is(s, pat, n + j);
                },
                None => {
                    assert forall|k: int| 0 <= k implies !#[trigger] occurs_at(s, pat, k) by {
                        if n <= k {
                            assert(!occurs_at(c, pat, k - n));
                        }
                    }
                    lemma_find_none(s, pat);
                },
            }
        },
    }
}

/// The hypothesis carries over to a suffix that starts before the split.
proof fn lemma_between_skip(s: Seq<char>, n: int, k: int)
    requires
        0 <= k <= n <= s.len(),
        between_card_tags(s, n),
    ensures
        between_card_tags(s.skip(k), n - k),
{
    assert forall|i: int| #[trigger] occurs_at(s.skip(k), card_open(), i) implies !(i < n - k < i
        + card_open().len()) by {
        lemma_occurs_skip(s, card_open(), k, i);
        assert(occurs_at(s, card_open(), i + k));
    }
    assert forall|i: int| #[trigger] occurs_at(s.skip(k), card_close(), i) implies !(i < n - k < i
        + card_close().len()) by {
        lemma_occurs_skip(s, card_close(), k, i);
        assert(occurs_at(s, card_close(), i + k));
    }
}

/// What the lemma below states of one token split in two.
pub open spec fn feed_split_holds(
    opened: bool,
    buffer: Seq<char>,
    rid: Seq<char>,
    a: Seq<char>,
    c: Seq<char>,
) -> bool {
    let first = card_feed(opened, buffer, rid, a);
    let second = card_feed(first.1, first.2, rid, c);
    let whole = card_feed(opened, buffer, rid, a + c);
    whole.0 == first.0 + second.0 && whole.1 == second.1 && whole.2 == second.2
}

/// Splitting a streamed token in two at a point that lies inside no
/// opening or closing tool-card tag changes nothing: the tool-card filter
/// fed the two parts one after the other emits what it emits when fed the
/// whole token, and is left in the same state.
pub proof fn lemma_feed_split(opened: bool, buffer: Seq<char>, rid: Seq<char>, a: Seq<char>, c: Seq<char>)
    requires
        between_card_tags(a + c, a.len() as int),
    ensures
        feed_split_holds(opened, buffer, rid, a, c),
    decreases a.len(), 1int,
{
    let s = a + c;
    if a.len() == 0 {
        assert(s =~= c);
        assert(Seq::<char>::empty() + card_feed(opened, buffer, rid, c).0 =~= card_feed(
            opened,
            buffer,
            rid,
            c,
        ).0);
    } else if c.len() == 0 {
        assert(s =~= a);
        let first = card_feed(opened, buffer, rid, a);
        assert(first.0 + Seq::<char>::empty() =~= first.0);
    } else if opened {
        lemma_split_opened(buffer, rid, a, c);
    } else {
        if find(a, card_open()) is None {
            lemma_split_no_open(buffer, rid, a, c);
        } else {
            lemma_split_open_in_a(buffer, rid, a, c);
        }
    }
}

proof fn lemma_split_opened(buffer: Seq<char>, rid: Seq<char>, a: Seq<char>, c: Seq<char>)
    requires
        a.len() > 0,
        c.len() > 0,
        between_card_tags(a + c, a.len() as int),
    ensures
        feed_split_holds(true, buffer, rid, a, c),
    decreases a.len(), 0int,
{
    lemma_card_close_len();
    let s = a + c;
    let n = a.len() as int;
    lemma_find_concat(a, c, card_close());
    crate::text::lemma_find_from_spec(a, card_close(), 0);
    crate::text::lemma_find_from_spec(c, card_close(), 0);
    match find(a, card_close()) {
        Some(e) => {
            let k = e + 22;
            assert(occurs_at(a, card_close(), e));
            assert(s.take(k) =~= a.take(k));
            assert(s.skip(k) =~= a.skip(k) + c);
            lemma_between_skip(s, n, k);
            lemma_feed_split(false, Seq::empty(), rid, a.skip(k), c);
            let ra = card_feed(false, Seq::empty(), rid, a.skip(k));
            let rc = card_feed(ra.1, ra.2, rid, c);
            let t = tool_text(buffer + a.take(k), rid);
            assert(t + (ra.0 + rc.0) =~= (t + ra.0) + rc.0);
        },
        None => {
            match find(c, card_close()) {
                Some(e) => {
                    let kc = e + 22;
                    assert(occurs_at(c, card_close(), e));
                    let ks = n + kc;
                    assert(buffer + s.take(ks) =~= (buffer + a) + c.take(kc));
                    assert(s.skip(ks) =~= c.skip(kc));
                    assert(Seq::<char>::empty() + card_feed(true, buffer + a, rid, c).0 =~= card_feed(
                        true,
                        buffer + a,
                        rid,
                        c,
                    ).0);
                },
                None => {
                    assert(buffer + s =~= (buffer + a) + c);
                    assert(Seq::<char>::empty() + Seq::<char>::empty() =~= Seq::<char>::empty());
                },
            }
        },
    }
}

proof fn lemma_split_no_open(buffer: Seq<char>, rid: Seq<char>, a: Seq<char>, c: Seq<char>)
    requires
        a.len() > 0,
        c.len() > 0,
        between_card_tags(a + c, a.len() as int),
        find(a, card_open()) is None,
    ensures
        feed_split_holds(false, buffer, rid, a, c),
{
    lemma_card_close_len();
    let s = a + c;
    let n = a.len() as int;
    lemma_find_concat(a, c, card_open());
    crate::text::lemma_find_from_spec(c, card_open(), 0);
    match find(c, card_open()) {
        None => {},
        Some(stc) => {
            assert(occurs_at(c, card_open(), stc));
            let sts = n + stc;
            assert(s.skip(sts) =~= c.skip(stc));
            assert(s.take(sts) =~= a + c.take(stc));
            let after = c.skip(stc);
            crate::text::lemma_find_from_spec(after, card_close(), 0);
            match find(after, card_close()) {
                Some(e) => {
                    let k = e + 22;
                    let rest = card_feed(false, Seq::empty(), rid, after.skip(k));
                    let t = tool_text(after.take(k), rid);
                    assert(a + (c.take(stc) + t + rest.0) =~= s.take(sts) + t + rest.0);
                },
                None => {},
            }
        },
    }
}

proof fn lemma_split_open_in_a(buffer: Seq<char>, rid: Seq<char>, a: Seq<char>, c: Seq<char>)
    requires
        a.len() > 0,
        c.len() > 0,
        between_card_tags(a + c, a.len() as int),
        find(a, card_open()) is Some,
    ensures
        feed_split_holds(false, buffer, rid, a, c),
    decreases a.len(), 0int,
{
    lemma_card_close_len();
    let s = a + c;
    let n = a.len() as int;
    lemma_find_concat(a, c, card_open());
    crate::text::lemma_find_from_spec(a, card_open(), 0);
    let st = find(a, card_open()).unwrap();
    assert(occurs_at(a, card_open(), st));
    let after_a = a.skip(st);
    let after_s = s.skip(st);
    assert(after_s =~= after_a + c);
    assert(s.take(st) =~= a.take(st));
    lemma_between_skip(s, n, st);
    let m = after_a.len() as int;
    lemma_find_concat(after_a, c, card_close());
    crate::text::lemma_find_from_spec(after_a, card_close(), 0);
    crate::text::lemma_find_from_spec(c, card_close(), 0);
    match find(after_a, card_close()) {
        Some(e) => {
            let k = e + 22;
            assert(occurs_at(after_a, card_close(), e));
            assert(after_s.take(k) =~= after_a.take(k));
            assert(after_s.skip(k) =~= after_a.skip(k) + c);
            lemma_between_skip(after_s, m, k);
            lemma_feed_split(false, Seq::empty(), rid, after_a.skip(k), c);
            let ra = card_feed(false, Seq::empty(), rid, after_a.skip(k));
            let rc = card_feed(ra.1, ra.2, rid, c);
            let t = tool_text(after_a.take(k), rid);
            assert(a.take(st) + t + (ra.0 + rc.0) =~= (a.take(st) + t + ra.0) + rc.0);
        },
        None => {
            match find(c, card_close()) {
                Some(e) => {
                    let kc = e + 22;
                    assert(occurs_at(c, card_close(), e));
                    let ks = m + kc;
                    assert(after_s.take(ks) =~= after_a + c.take(kc));
                    assert(after_s.skip(ks) =~= c.skip(kc));
                    let rest = card_feed(false, Seq::empty(), rid, c.skip(kc));
                    let t = tool_text(after_a + c.take(kc), rid);
                    assert(a.take(st) + (t + rest.0) =~= s.take(st) + t + rest.0);
                },
                None => {},
            }
        },
    }
}

} // verus!
