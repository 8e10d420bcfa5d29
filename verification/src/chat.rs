//! Chat requests: the prompt and attachments read from OpenAI-style
//! messages, the upstream payload, and the choices made before a request is
//! sent.

use vstd::prelude::*;
use crate::text::{chars_of, extend, extend_str, string_of, trim, trim_exec};
use crate::json::{deep_members, deep_seq, json_chars, push_element, push_member, Json, JsonV};
use crate::processor::{at, field, opt_deep, str_at, str_field, str_or_empty};
use crate::errors::{err_v, ApiError, ErrorKind};
use crate::model::{lookup, ModelInfo, ModelService};

verus! {

// ---------------------------------------------------------------------------
// Joining texts
// ---------------------------------------------------------------------------

/// The texts `parts` joined with `sep` between each two.
pub open spec fn join(parts: Seq<Seq<char>>, sep: Seq<char>) -> Seq<char>
    decreases parts.len(),
{
    if parts.len() == 0 {
        Seq::empty()
    } else if parts.len() == 1 {
        parts[0]
    } else {
        join(parts.drop_last(), sep) + sep + parts.last()
    }
}

pub open spec fn char_views(v: Seq<Vec<char>>) -> Seq<Seq<char>> {
    v.map_values(|x: Vec<char>| x@)
}

/// The texts `parts` joined with `sep` between each two.
pub fn join_exec(parts: &Vec<Vec<char>>, sep: &str) -> (r: Vec<char>)
    ensures
        r@ == join(char_views(parts@), sep@),
{
    let mut out: Vec<char> = Vec::new();
    let mut i: usize = 0;
    let ghost pv = char_views(parts@);
    while i < parts.len()
        invariant
            i <= parts@.len(),
            pv == char_views(parts@),
            out@ == join(pv.take(i as int), sep@),
        decreases parts@.len() - i,
    {
        if i > 0 {
            extend_str(&mut out, sep);
        }
        extend(&mut out, parts[i].as_slice());
        assert(pv.take(i + 1).drop_last() == pv.take(i as int));
        assert(pv.take(i + 1).last() == parts@[i as int]@);
        if i == 0 {
            assert(pv.take(1)[0] == parts@[0]@);
        }
        i = i + 1;
    }
    assert(pv.take(i as int) == pv);
    out
}

// ---------------------------------------------------------------------------
// Reading messages
// ---------------------------------------------------------------------------

/// What reading the content items of one message gathers: its texts, the
/// attachments so far, and the error that stops the reading.
pub struct ItemAcc {
    pub parts: Seq<Seq<char>>,
    pub attachments: Seq<(Seq<char>, Seq<char>)>,
    pub error: Option<Seq<char>>,
}

/// The first string among `v.key`, `v.alt` (when `alt` is not empty) and
/// `v` itself; empty when none is a string.
pub open spec fn ref_of(v: JsonV, key: Seq<char>, alt: Seq<char>) -> Seq<char> {
    match str_at(v, key) {
        Some(s) => s,
        None => match (if alt.len() > 0 { str_at(v, alt) } else { None }) {
            Some(s) => s,
            None => match v.as_str() {
                Some(s) => s,
                None => Seq::empty(),
            },
        },
    }
}

/// An attachment added when its reference is not empty.
pub open spec fn attach(acc: ItemAcc, kind: Seq<char>, reference: Seq<char>) -> ItemAcc {
    if reference.len() > 0 {
        ItemAcc { attachments: acc.attachments.push((kind, reference)), ..acc }
    } else {
        acc
    }
}

/// Reading one content item.
pub open spec fn item_step(acc: ItemAcc, item: JsonV, is_video: bool) -> ItemAcc {
    let t = str_or_empty(item, "type"@);
    if t == "text"@ {
        match str_at(item, "text"@) {
            Some(x) => if trim(x).len() > 0 {
                ItemAcc { parts: acc.parts.push(x), ..acc }
            } else {
                acc
            },
            None => acc,
        }
    } else if t == "image_url"@ {
        match item.get("image_url"@) {
            Some(u) => attach(acc, "image"@, ref_of(u, "url"@, Seq::empty())),
            None => acc,
        }
    } else if t == "input_audio"@ {
        if is_video {
            ItemAcc { error: Some("视频模型不支持 input_audio 类型"@), ..acc }
        } else {
            match item.get("input_audio"@) {
                Some(a) => attach(acc, "audio"@, ref_of(a, "data"@, Seq::empty())),
                None => acc,
            }
        }
    } else if t == "file"@ {
        if is_video {
            ItemAcc { error: Some("视频模型不支持 file 类型"@), ..acc }
        } else {
            match item.get("file"@) {
                Some(f) => attach(acc, "file"@, ref_of(f, "url"@, "data"@)),
                None => acc,
            }
        }
    } else {
        acc
    }
}

/// Reading content items in order, stopping at the first error.
pub open spec fn items_acc(acc: ItemAcc, items: Seq<JsonV>, is_video: bool) -> ItemAcc
    decreases items.len(),
{
    if items.len() == 0 {
        acc
    } else {
        let p = items_acc(acc, items.drop_last(), is_video);
        if p.error is Some {
            p
        } else {
            item_step(p, items.last(), is_video)
        }
    }
}

/// What reading the messages gathers: each message's role and text, the
/// attachments, and the error that stops the reading.
pub struct ExtractAcc {
    pub extracted: Seq<(Seq<char>, Seq<char>)>,
    pub attachments: Seq<(Seq<char>, Seq<char>)>,
    pub error: Option<Seq<char>>,
}

/// The role of a message, `user` when it names none.
pub open spec fn role_of(msg: JsonV) -> Seq<char> {
    match str_at(msg, "role"@) {
        Some(r) => r,
        None => "user"@,
    }
}

/// Reading the content of one message.
pub open spec fn content_acc(init: ItemAcc, msg: JsonV, is_video: bool) -> ItemAcc {
    match msg.get("content"@) {
        Some(c) => match c.as_str() {
            Some(text) => if trim(text).len() > 0 {
                ItemAcc { parts: seq![text], ..init }
            } else {
                init
            },
            None => match c.as_array() {
                Some(list) => items_acc(init, list, is_video),
                None => init,
            },
        },
        None => init,
    }
}

/// Reading one message.
pub open spec fn msg_step(acc: ExtractAcc, msg: JsonV, is_video: bool) -> ExtractAcc {
    let init = ItemAcc { parts: Seq::empty(), attachments: acc.attachments, error: None };
    let r = content_acc(init, msg, is_video);
    if r.error is Some {
        ExtractAcc { error: r.error, ..acc }
    } else {
        ExtractAcc {
            extracted: if r.parts.len() > 0 {
                acc.extracted.push((role_of(msg), join(r.parts, "\n"@)))
            } else {
                acc.extracted
            },
            attachments: r.attachments,
            error: None,
        }
    }
}

/// Reading messages in order, stopping at the first error.
pub open spec fn msgs_acc(msgs: Seq<JsonV>, is_video: bool) -> ExtractAcc
    decreases msgs.len(),
{
    if msgs.len() == 0 {
        ExtractAcc { extracted: Seq::empty(), attachments: Seq::empty(), error: None }
    } else {
        let p = msgs_acc(msgs.drop_last(), is_video);
        if p.error is Some {
            p
        } else {
            msg_step(p, msgs.last(), is_video)
        }
    }
}

/// The position of the last message from the user.
pub open spec fn last_user(ex: Seq<(Seq<char>, Seq<char>)>) -> Option<int>
    decreases ex.len(),
{
    if ex.len() == 0 {
        None
    } else if ex.last().0 == "user"@ {
        Some(ex.len() - 1)
    } else {
        last_user(ex.drop_last())
    }
}

/// Each message as it appears in the prompt: the last user message as it
/// stands, every other one after its role.
pub open spec fn rendered(ex: Seq<(Seq<char>, Seq<char>)>) -> Seq<Seq<char>> {
    Seq::new(
        ex.len(),
        |i: int|
            if last_user(ex) == Some(i) {
                ex[i].1
            } else {
                (if ex[i].0.len() == 0 {
                    "user"@
                } else {
                    ex[i].0
                }) + ": "@ + ex[i].1
            },
    )
}

/// The prompt and attachments of a conversation, or the message of the
/// error that refuses it.
pub open spec fn extracted_prompt(msgs: Seq<JsonV>, is_video: bool) -> Result<
    (Seq<char>, Seq<(Seq<char>, Seq<char>)>),
    Seq<char>,
> {
    let a = msgs_acc(msgs, is_video);
    match a.error {
        Some(e) => Err(e),
        None => Ok((join(rendered(a.extracted), "\n\n"@), a.attachments)),
    }
}

pub open spec fn pair_views(v: Seq<(String, String)>) -> Seq<(Seq<char>, Seq<char>)> {
    v.map_values(|p: (String, String)| (p.0@, p.1@))
}

fn ref_of_exec(v: &Json, key: &str, alt: &str) -> (r: Vec<char>)
    ensures
        r@ == ref_of(v.deep(), key@, alt@),
{
    if let Some(s) = str_field(Some(v), key) {
        return chars_of(s);
    }
    if !alt.is_empty() {
        if let Some(s) = str_field(Some(v), alt) {
            return chars_of(s);
        }
    }
    match v.as_str() {
        Some(s) => chars_of(s),
        None => Vec::new(),
    }
}

fn attach_exec(atts: &mut Vec<(String, String)>, kind: &str, reference: Vec<char>)
    ensures
        pair_views(final(atts)@) == if reference@.len() > 0 {
            pair_views(old(atts)@).push((kind@, reference@))
        } else {
            pair_views(old(atts)@)
        },
{
    if reference.len() > 0 {
        let ghost before = atts@;
        atts.push((String::from_str(kind), string_of(reference.as_slice())));
        assert(pair_views(atts@) =~= pair_views(before).push((kind@, reference@)));
    }
}

fn item_exec(
    parts: &mut Vec<Vec<char>>,
    atts: &mut Vec<(String, String)>,
    item: &Json,
    is_video: bool,
) -> (r: Option<ApiError>)
    ensures
        ({
            let want = item_step(
                ItemAcc {
                    parts: char_views(old(parts)@),
                    attachments: pair_views(old(atts)@),
                    error: None,
                },
                item.deep(),
                is_video,
            );
            &&& r matches Some(e) ==> want.error == Some(e@.message) && e@.kind
                == ErrorKind::InvalidRequest
            &&& r is None ==> want.error is None && char_views(final(parts)@) == want.parts
                && pair_views(final(atts)@) == want.attachments
        }),
{
    let t = match str_field(Some(item), "type") {
        Some(t) => chars_of(t),
        None => Vec::new(),
    };
    let iv = Some(item);
    if crate::text::eq_chars(t.as_slice(), chars_of("text").as_slice()) {
        if let Some(x) = str_field(iv, "text") {
            if trim_exec(chars_of(x).as_slice()).len() > 0 {
                let ghost before = parts@;
                parts.push(chars_of(x));
                assert(char_views(parts@) =~= char_views(before).push(x@));
            }
        }
        None
    } else if crate::text::eq_chars(t.as_slice(), chars_of("image_url").as_slice()) {
        if let Some(u) = field(iv, "image_url") {
            proof {
                lemma_empty();
            }
            attach_exec(atts, "image", ref_of_exec(u, "url", ""));
        }
        None
    } else if crate::text::eq_chars(t.as_slice(), chars_of("input_audio").as_slice()) {
        if is_video {
            return Some(ApiError::invalid_request("视频模型不支持 input_audio 类型"));
        }
        if let Some(a) = field(iv, "input_audio") {
            proof {
                lemma_empty();
            }
            attach_exec(atts, "audio", ref_of_exec(a, "data", ""));
        }
        None
    } else if crate::text::eq_chars(t.as_slice(), chars_of("file").as_slice()) {
        if is_video {
            return Some(ApiError::invalid_request("视频模型不支持 file 类型"));
        }
        if let Some(f) = field(iv, "file") {
            proof {
                reveal_strlit("data");
            }
            attach_exec(atts, "file", ref_of_exec(f, "url", "data"));
        }
        None
    } else {
        None
    }
}

proof fn lemma_empty()
    ensures
        ""@ == Seq::<char>::empty(),
{
    reveal_strlit("");
    assert(""@ =~= Seq::<char>::empty());
}

fn content_exec(
    atts: &mut Vec<(String, String)>,
    msg: &Json,
    is_video: bool,
) -> (r: Result<Vec<Vec<char>>, ApiError>)
    ensures
        ({
            let want = content_acc(
                ItemAcc { parts: Seq::empty(), attachments: pair_views(old(atts)@), error: None },
                msg.deep(),
                is_video,
            );
            &&& r matches Err(e) ==> want.error == Some(e@.message) && e@.kind
                == ErrorKind::InvalidRequest
            &&& r matches Ok(p) ==> want.error is None && char_views(p@) == want.parts
                && pair_views(final(atts)@) == want.attachments
        }),
{
    let mut parts: Vec<Vec<char>> = Vec::new();
    assert(char_views(parts@) =~= Seq::empty());
    let c = match field(Some(msg), "content") {
        Some(c) => c,
        None => return Ok(parts),
    };
    if let Some(text) = c.as_str() {
        if trim_exec(chars_of(text).as_slice()).len() > 0 {
            parts.push(chars_of(text));
            assert(char_views(parts@) =~= seq![text@]);
        }
        return Ok(parts);
    }
    let list = match c.as_array() {
        Some(l) => l,
        None => return Ok(parts),
    };
    let ghost items = deep_seq(list@);
    let ghost init = ItemAcc {
        parts: Seq::empty(),
        attachments: pair_views(atts@),
        error: None,
    };
    let mut i: usize = 0;
    while i < list.len()
        invariant
            i <= list@.len(),
            items == deep_seq(list@),
            msg.deep().get("content"@) == Some(c.deep()),
            c.deep().as_str() is None,
            c.deep().as_array() == Some(items),
            init == (ItemAcc { parts: Seq::empty(), attachments: pair_views(old(atts)@), error: None }),
            ({
                let a = items_acc(init, items.take(i as int), is_video);
                a.error is None && a.parts == char_views(parts@) && a.attachments == pair_views(
                    atts@,
                )
            }),
        decreases list@.len() - i,
    {
        assert(items.take(i + 1).drop_last() == items.take(i as int));
        assert(items.take(i + 1).last() == list@[i as int].deep());
        let ghost pv = char_views(parts@);
        let ghost av = pair_views(atts@);
        assert(items_acc(init, items.take(i as int), is_video) == (ItemAcc { parts: pv, attachments: av, error: None }));
        match item_exec(&mut parts, atts, &list[i], is_video) {
            Some(e) => {
                proof {
                    assert(items_acc(init, items.take(i + 1), is_video).error == Some(e@.message));
                    lemma_items_stop(init, items, (i + 1) as int, is_video);
                    assert(msg.deep().get("content"@) == Some(c.deep()));
                    assert(c.deep().as_str() is None);
                    assert(c.deep().as_array() == Some(items));
                    assert(content_acc(init, msg.deep(), is_video) == items_acc(init, items, is_video));
                }
                return Err(e);
            },
            None => {},
        }
        i = i + 1;
    }
    assert(items.take(i as int) == items);
    Ok(parts)
}

/// Once reading stops at an error, later items change nothing.
proof fn lemma_items_stop(init: ItemAcc, items: Seq<JsonV>, k: int, is_video: bool)
    requires
        0 <= k <= items.len(),
        items_acc(init, items.take(k), is_video).error is Some,
    ensures
        items_acc(init, items, is_video) == items_acc(init, items.take(k), is_video),
    decreases items.len() - k,
{
    if k < items.len() {
        assert(items.take(k + 1).drop_last() == items.take(k));
        lemma_items_stop(init, items, k + 1, is_video);
    } else {
        assert(items.take(k) == items);
    }
}

/// Once reading stops at an error, later messages change nothing.
proof fn lemma_msgs_stop(msgs: Seq<JsonV>, k: int, is_video: bool)
    requires
        0 <= k <= msgs.len(),
        msgs_acc(msgs.take(k), is_video).error is Some,
    ensures
        msgs_acc(msgs, is_video) == msgs_acc(msgs.take(k), is_video),
    decreases msgs.len() - k,
{
    if k < msgs.len() {
        assert(msgs.take(k + 1).drop_last() == msgs.take(k));
        lemma_msgs_stop(msgs, k + 1, is_video);
    } else {
        assert(msgs.take(k) == msgs);
    }
}

fn last_user_exec(ex: &Vec<(Vec<char>, Vec<char>)>) -> (r: Option<usize>)
    ensures
        ({
            let v = ex@.map_values(|p: (Vec<char>, Vec<char>)| (p.0@, p.1@));
            &&& r matches Some(i) ==> last_user(v) == Some(i as int)
            &&& r is None ==> last_user(v) is None
        }),
{
    let ghost v = ex@.map_values(|p: (Vec<char>, Vec<char>)| (p.0@, p.1@));
    let user = chars_of("user");
    let mut n = ex.len();
    assert(v.take(n as int) =~= v);
    while n > 0
        invariant
            n <= ex@.len(),
            v == ex@.map_values(|p: (Vec<char>, Vec<char>)| (p.0@, p.1@)),
            user@ == "user"@,
            last_user(v) == last_user(v.take(n as int)),
        decreases n,
    {
        assert(v.take(n as int).drop_last() == v.take(n - 1));
        assert(v.take(n as int).last() == v[n - 1]);
        if crate::text::eq_chars(ex[n - 1].0.as_slice(), user.as_slice()) {
            return Some(n - 1);
        }
        n = n - 1;
    }
    None
}

/// Reads the prompt and the attachments of OpenAI-style messages.
pub struct MessageExtractor;

impl MessageExtractor {
    /// The prompt and the attachments (`image`, `audio` or `file`, with
    /// their reference) of a conversation. Each message with text gives a
    /// paragraph, its texts joined by new lines; every paragraph but the
    /// last user message is headed by its role. A video model refuses audio
    /// and file items.
    pub fn extract(messages: &[Json], is_video: bool) -> (r: Result<
        (String, Vec<(String, String)>),
        ApiError,
    >)
        ensures
            match extracted_prompt(deep_seq(messages@), is_video) {
                Err(m) => r matches Err(e) && e@ == err_v(ErrorKind::InvalidRequest, m),
                Ok((text, atts)) => r matches Ok((t, a)) && t@ == text && pair_views(a@) == atts,
            },
    {
        let ghost msgs = deep_seq(messages@);
        let mut atts: Vec<(String, String)> = Vec::new();
        let mut extracted: Vec<(Vec<char>, Vec<char>)> = Vec::new();
        let mut i: usize = 0;
        assert(pair_views(atts@) =~= Seq::empty());
        assert(extracted@.map_values(|p: (Vec<char>, Vec<char>)| (p.0@, p.1@)) =~= Seq::empty());
        while i < messages.len()
            invariant
                i <= messages@.len(),
                msgs == deep_seq(messages@),
                ({
                    let a = msgs_acc(msgs.take(i as int), is_video);
                    &&& a.error is None
                    &&& a.attachments == pair_views(atts@)
                    &&& a.extracted == extracted@.map_values(
                        |p: (Vec<char>, Vec<char>)| (p.0@, p.1@),
                    )
                }),
            decreases messages@.len() - i,
        {
            assert(msgs.take(i + 1).drop_last() == msgs.take(i as int));
            assert(msgs.take(i + 1).last() == messages@[i as int].deep());
            let msg = &messages[i];
            let role = match str_field(Some(msg), "role") {
                Some(r) => chars_of(r),
                None => chars_of("user"),
            };
            match content_exec(&mut atts, msg, is_video) {
                Err(e) => {
                    proof {
                        lemma_msgs_stop(msgs, (i + 1) as int, is_video);
                    }
                    return Err(e);
                },
                Ok(parts) => {
                    if parts.len() > 0 {
                        let text = join_exec(&parts, "\n");
                        let ghost before = extracted@;
                        extracted.push((role, text));
                        assert(extracted@.map_values(|p: (Vec<char>, Vec<char>)| (p.0@, p.1@))
                            =~= before.map_values(|p: (Vec<char>, Vec<char>)| (p.0@, p.1@)).push(
                            (role@, text@),
                        ));
                    }
                },
            }
            i = i + 1;
        }
        assert(msgs.take(i as int) == msgs);
        let ghost ev = extracted@.map_values(|p: (Vec<char>, Vec<char>)| (p.0@, p.1@));
        let lu = last_user_exec(&extracted);
        let mut texts: Vec<Vec<char>> = Vec::new();
        let mut k: usize = 0;
        assert(char_views(texts@) =~= rendered(ev).take(0));
        while k < extracted.len()
            invariant
                k <= extracted@.len(),
                ev == extracted@.map_values(|p: (Vec<char>, Vec<char>)| (p.0@, p.1@)),
                lu matches Some(x) ==> last_user(ev) == Some(x as int),
                lu is None ==> last_user(ev) is None,
                char_views(texts@) == rendered(ev).take(k as int),
            decreases extracted@.len() - k,
        {
            let ghost before = texts@;
            assert(ev[k as int] == (extracted@[k as int].0@, extracted@[k as int].1@));
            let is_last = match lu {
                Some(x) => x == k,
                None => false,
            };
            if is_last {
                let mut t: Vec<char> = Vec::new();
                extend(&mut t, extracted[k].1.as_slice());
                texts.push(t);
            } else {
                let mut t: Vec<char> = Vec::new();
                if extracted[k].0.len() == 0 {
                    extend_str(&mut t, "user");
                } else {
                    extend(&mut t, extracted[k].0.as_slice());
                }
                extend_str(&mut t, ": ");
                extend(&mut t, extracted[k].1.as_slice());
                texts.push(t);
            }
            assert(char_views(texts@) =~= char_views(before).push(rendered(ev)[k as int]));
            assert(rendered(ev).take(k + 1) =~= rendered(ev).take(k as int).push(rendered(ev)[k as int]));
            k = k + 1;
        }
        assert(rendered(ev).take(k as int) =~= rendered(ev));
        let prompt = join_exec(&texts, "\n\n");
        Ok((string_of(prompt.as_slice()), atts))
    }
}

// ---------------------------------------------------------------------------
// The upstream payload
// ---------------------------------------------------------------------------

/// A member present only when its value is.
pub open spec fn opt_member(key: Seq<char>, v: Option<JsonV>) -> Seq<(Seq<char>, JsonV)> {
    match v {
        Some(x) => seq![(key, x)],
        None => Seq::empty(),
    }
}

/// The sampling settings sent along with a message.
pub open spec fn config_override_json(
    temperature: Option<JsonV>,
    top_p: Option<JsonV>,
    reasoning_effort: Option<Seq<char>>,
) -> JsonV {
    JsonV::Object(
        opt_member("temperature"@, temperature) + opt_member("topP"@, top_p) + opt_member(
            "reasoningEffort"@,
            match reasoning_effort {
                Some(r) => Some(JsonV::Str(r)),
                None => None,
            },
        ),
    )
}

pub open spec fn str_array(v: Seq<Seq<char>>) -> JsonV {
    JsonV::Array(Seq::new(v.len(), |i: int| JsonV::Str(v[i])))
}

pub open spec fn response_metadata(config: JsonV, model: Seq<char>) -> JsonV {
    JsonV::Object(
        seq![
            ("modelConfigOverride"@, config),
            ("requestModelDetails"@, JsonV::Object(seq![("modelId"@, JsonV::Str(model))])),
        ],
    )
}

pub open spec fn device_env() -> JsonV {
    JsonV::Object(
        seq![
            ("darkModeEnabled"@, JsonV::Bool(false)),
            ("devicePixelRatio"@, JsonV::Int(2)),
            ("screenWidth"@, JsonV::Int(2056)),
            ("screenHeight"@, JsonV::Int(1329)),
            ("viewportWidth"@, JsonV::Int(2056)),
            ("viewportHeight"@, JsonV::Int(1083)),
        ],
    )
}

pub open spec fn payload_head(
    temporary: bool,
    message: Seq<char>,
    model: Seq<char>,
    mode: Seq<char>,
    files: Seq<Seq<char>>,
    images: Seq<Seq<char>>,
) -> Seq<(Seq<char>, JsonV)> {
    seq![
        ("temporary"@, JsonV::Bool(temporary)),
        ("modelName"@, JsonV::Str(model)),
        ("modelMode"@, JsonV::Str(mode)),
        ("message"@, JsonV::Str(message)),
        ("fileAttachments"@, str_array(files)),
        ("imageAttachments"@, str_array(images)),
        ("disableSearch"@, JsonV::Bool(false)),
        ("enableImageGeneration"@, JsonV::Bool(true)),
    ]
}

pub open spec fn payload_middle(tools: JsonV) -> Seq<(Seq<char>, JsonV)> {
    seq![
        ("returnImageBytes"@, JsonV::Bool(false)),
        ("returnRawGrokInXaiRequest"@, JsonV::Bool(false)),
        ("enableImageStreaming"@, JsonV::Bool(true)),
        ("imageGenerationCount"@, JsonV::Int(2)),
        ("forceConcise"@, JsonV::Bool(false)),
        ("toolOverrides"@, tools),
        ("enableSideBySide"@, JsonV::Bool(true)),
        ("sendFinalMetadata"@, JsonV::Bool(true)),
    ]
}

pub open spec fn payload_tail(config: JsonV, model: Seq<char>) -> Seq<(Seq<char>, JsonV)> {
    seq![
        ("isReasoning"@, JsonV::Bool(false)),
        ("disableTextFollowUps"@, JsonV::Bool(false)),
        ("responseMetadata"@, response_metadata(config, model)),
        ("disableMemory"@, JsonV::Bool(false)),
        ("forceSideBySide"@, JsonV::Bool(false)),
        ("isAsyncChat"@, JsonV::Bool(false)),
        ("disableSelfHarmShortCircuit"@, JsonV::Bool(false)),
        ("deviceEnvInfo"@, device_env()),
    ]
}

/// The body of a new-conversation request.
pub open spec fn payload_json(
    temporary: bool,
    message: Seq<char>,
    model: Seq<char>,
    mode: Seq<char>,
    files: Seq<Seq<char>>,
    images: Seq<Seq<char>>,
    config: JsonV,
    tools: JsonV,
) -> JsonV {
    JsonV::Object(
        payload_head(temporary, message, model, mode, files, images) + payload_middle(tools)
            + payload_tail(config, model),
    )
}

pub open spec fn opt_json(o: Option<Json>) -> Option<JsonV> {
    match o {
        Some(j) => Some(j.deep()),
        None => None,
    }
}

fn str_array_exec(v: &[String]) -> (r: Json)
    ensures
        r.deep() == str_array(v@.map_values(|s: String| s@)),
{
    let mut a: Vec<Json> = Vec::new();
    let mut i: usize = 0;
    let ghost sv = v@.map_values(|s: String| s@);
    assert(deep_seq(a@) =~= Seq::new(0, |k: int| JsonV::Str(sv[k])));
    while i < v.len()
        invariant
            i <= v@.len(),
            sv == v@.map_values(|s: String| s@),
            deep_seq(a@) == Seq::new(i as nat, |k: int| JsonV::Str(sv[k])),
        decreases v@.len() - i,
    {
        push_element(&mut a, Json::from_str(v[i].as_str()));
        assert(deep_seq(a@) =~= Seq::new((i + 1) as nat, |k: int| JsonV::Str(sv[k])));
        i = i + 1;
    }
    Json::array(a)
}

fn object_json(m: Vec<(String, Json)>, Ghost(want): Ghost<Seq<(Seq<char>, JsonV)>>) -> (r: Json)
    requires
        deep_members(m@) == want,
    ensures
        r.deep() == JsonV::Object(want),
{
    Json::object(m)
}

/// Builds the upstream requests of the chat service.
pub struct ChatRequestBuilder;

impl ChatRequestBuilder {
    /// The headers of an upstream chat request for `token`.
    pub fn build_headers(
        token: &str,
        config: &crate::headers::HeaderConfig,
        statsig_id: &str,
        platform: crate::headers::Platform,
        arch: crate::headers::Arch,
    ) -> (r: Vec<(String, String)>)
        ensures
            exists|rid: Seq<char>|
                crate::ext::is_hyphenated_uuid(rid) && crate::headers::pairs_view(r@)
                    == crate::headers::grok_headers(
                    token@,
                    None,
                    None,
                    *config,
                    statsig_id@,
                    rid,
                    platform,
                    arch,
                ),
    {
        crate::headers::build_grok_headers(token, None, None, config, statsig_id, platform, arch)
    }

    /// The body of a new-conversation request: the message, the model and
    /// its mode, the attachments, the sampling settings (unless an override
    /// is given) and the tool settings. `think` does not enter the body.
    pub fn build_payload(
        message: &str,
        model: &str,
        mode: &str,
        think: Option<bool>,
        file_attachments: &[String],
        image_attachments: &[String],
        temperature: Option<Json>,
        top_p: Option<Json>,
        reasoning_effort: Option<&str>,
        tool_overrides: Option<&Json>,
        model_config_override: Option<&Json>,
        temporary: bool,
    ) -> (r: Json)
        ensures
            r.deep() == payload_json(
                temporary,
                message@,
                model@,
                mode@,
                file_attachments@.map_values(|s: String| s@),
                image_attachments@.map_values(|s: String| s@),
                match model_config_override {
                    Some(m) => m.deep(),
                    None => config_override_json(
                        opt_json(temperature),
                        opt_json(top_p),
                        match reasoning_effort {
                            Some(r) => Some(r@),
                            None => None,
                        },
                    ),
                },
                match tool_overrides {
                    Some(t) => t.deep(),
                    None => JsonV::Object(Seq::empty()),
                },
            ),
    {
        let config = match model_config_override {
            Some(mco) => mco.clone_json(),
            None => config_exec(temperature, top_p, reasoning_effort),
        };
        let tools = match tool_overrides {
            Some(t) => t.clone_json(),
            None => {
                let e: Vec<(String, Json)> = Vec::new();
                assert(deep_members(e@) =~= Seq::empty());
                Json::object(e)
            },
        };
        let ghost cfg = config.deep();
        let ghost tls = tools.deep();
        let ghost part1 = payload_head(
            temporary,
            message@,
            model@,
            mode@,
            file_attachments@.map_values(|s: String| s@),
            image_attachments@.map_values(|s: String| s@),
        );
        let mut m = head_exec(temporary, message, model, mode, file_attachments, image_attachments);
        middle_exec(&mut m, tools);
        tail_exec(&mut m, config, model);
        object_json(m, Ghost(part1 + payload_middle(tls) + payload_tail(cfg, model@)))
    }
}

fn config_exec(temperature: Option<Json>, top_p: Option<Json>, reasoning_effort: Option<&str>) -> (r: Json)
    ensures
        r.deep() == config_override_json(
            opt_json(temperature),
            opt_json(top_p),
            match reasoning_effort {
                Some(r) => Some(r@),
                None => None,
            },
        ),
{
    let ghost tv = opt_json(temperature);
    let ghost pv = opt_json(top_p);
    let mut c: Vec<(String, Json)> = Vec::new();
    assert(deep_members(c@) =~= Seq::empty());
    if let Some(t) = temperature {
        push_member(&mut c, "temperature", t);
    }
    assert(deep_members(c@) =~= opt_member("temperature"@, tv));
    let ghost c1 = deep_members(c@);
    if let Some(p) = top_p {
        push_member(&mut c, "topP", p);
    }
    assert(deep_members(c@) =~= c1 + opt_member("topP"@, pv));
    let ghost c2 = deep_members(c@);
    if let Some(re) = reasoning_effort {
        push_member(&mut c, "reasoningEffort", Json::from_str(re));
    }
    let ghost rv = match reasoning_effort {
        Some(r) => Some(JsonV::Str(r@)),
        None => None,
    };
    assert(deep_members(c@) =~= c2 + opt_member("reasoningEffort"@, rv));
    Json::object(c)
}

fn head_exec(
    temporary: bool,
    message: &str,
    model: &str,
    mode: &str,
    file_attachments: &[String],
    image_attachments: &[String],
) -> (r: Vec<(String, Json)>)
    ensures
        deep_members(r@) == payload_head(
            temporary,
            message@,
            model@,
            mode@,
            file_attachments@.map_values(|s: String| s@),
            image_attachments@.map_values(|s: String| s@),
        ),
{
    let mut m: Vec<(String, Json)> = Vec::new();
    assert(deep_members(m@) =~= Seq::empty());
    push_member(&mut m, "temporary", Json::Bool(temporary));
    push_member(&mut m, "modelName", Json::from_str(model));
    push_member(&mut m, "modelMode", Json::from_str(mode));
    push_member(&mut m, "message", Json::from_str(message));
    push_member(&mut m, "fileAttachments", str_array_exec(file_attachments));
    push_member(&mut m, "imageAttachments", str_array_exec(image_attachments));
    push_member(&mut m, "disableSearch", Json::Bool(false));
    push_member(&mut m, "enableImageGeneration", Json::Bool(true));
    assert(deep_members(m@) =~= payload_head(
        temporary,
        message@,
        model@,
        mode@,
        file_attachments@.map_values(|s: String| s@),
        image_attachments@.map_values(|s: String| s@),
    ));
    m
}

fn middle_exec(m: &mut Vec<(String, Json)>, tools: Json)
    ensures
        deep_members(final(m)@) == deep_members(old(m)@) + payload_middle(tools.deep()),
{
    let ghost start = deep_members(m@);
    let ghost tls = tools.deep();
    push_member(m, "returnImageBytes", Json::Bool(false));
    push_member(m, "returnRawGrokInXaiRequest", Json::Bool(false));
    push_member(m, "enableImageStreaming", Json::Bool(true));
    push_member(m, "imageGenerationCount", Json::Int(2));
    push_member(m, "forceConcise", Json::Bool(false));
    push_member(m, "toolOverrides", tools);
    push_member(m, "enableSideBySide", Json::Bool(true));
    push_member(m, "sendFinalMetadata", Json::Bool(true));
    assert(deep_members(m@) =~= start + payload_middle(tls));
}

fn meta_exec(config: Json, model: &str) -> (r: Json)
    ensures
        r.deep() == response_metadata(config.deep(), model@),
{
    let ghost cfg = config.deep();
    let mut details: Vec<(String, Json)> = Vec::new();
    assert(deep_members(details@) =~= Seq::empty());
    push_member(&mut details, "modelId", Json::from_str(model));
    let mut meta: Vec<(String, Json)> = Vec::new();
    assert(deep_members(meta@) =~= Seq::empty());
    push_member(&mut meta, "modelConfigOverride", config);
    push_member(&mut meta, "requestModelDetails", Json::object(details));
    assert(deep_members(meta@) =~= response_metadata(cfg, model@)->Object_0);
    Json::object(meta)
}

fn device_exec() -> (r: Json)
    ensures
        r.deep() == device_env(),
{
    let mut dev: Vec<(String, Json)> = Vec::new();
    assert(deep_members(dev@) =~= Seq::empty());
    push_member(&mut dev, "darkModeEnabled", Json::Bool(false));
    push_member(&mut dev, "devicePixelRatio", Json::Int(2));
    push_member(&mut dev, "screenWidth", Json::Int(2056));
    push_member(&mut dev, "screenHeight", Json::Int(1329));
    push_member(&mut dev, "viewportWidth", Json::Int(2056));
    push_member(&mut dev, "viewportHeight", Json::Int(1083));
    assert(deep_members(dev@) =~= device_env()->Object_0);
    Json::object(dev)
}

fn tail_exec(m: &mut Vec<(String, Json)>, config: Json, model: &str)
    ensures
        deep_members(final(m)@) == deep_members(old(m)@) + payload_tail(config.deep(), model@),
{
    let ghost start = deep_members(m@);
    let ghost cfg = config.deep();
    push_member(m, "isReasoning", Json::Bool(false));
    push_member(m, "disableTextFollowUps", Json::Bool(false));
    push_member(m, "responseMetadata", meta_exec(config, model));
    push_member(m, "disableMemory", Json::Bool(false));
    push_member(m, "forceSideBySide", Json::Bool(false));
    push_member(m, "isAsyncChat", Json::Bool(false));
    push_member(m, "disableSelfHarmShortCircuit", Json::Bool(false));
    push_member(m, "deviceEnvInfo", device_exec());
    assert(deep_members(m@) =~= start + payload_tail(cfg, model@));
}

// ---------------------------------------------------------------------------
// Choices made before a request
// ---------------------------------------------------------------------------

/// Whether thinking is shown: a reasoning effort decides first (anything
/// but `none` shows it), then the thinking switch (`enabled` or
/// `disabled`); otherwise the configuration decides.
pub open spec fn think_choice(reasoning_effort: Option<Seq<char>>, thinking: Option<Seq<char>>) -> Option<bool> {
    match reasoning_effort {
        Some(re) => Some(re != "none"@),
        None => match thinking {
            Some(t) => if t == "enabled"@ {
                Some(true)
            } else if t == "disabled"@ {
                Some(false)
            } else {
                None
            },
            None => None,
        },
    }
}

/// The chat completion service.
pub struct ChatService;

impl ChatService {
    /// Whether thinking is shown for a request; `None` leaves it to the
    /// configuration.
    pub fn think_setting(reasoning_effort: Option<&str>, thinking: Option<&str>) -> (r: Option<bool>)
        ensures
            r == think_choice(
                match reasoning_effort {
                    Some(x) => Some(x@),
                    None => None,
                },
                match thinking {
                    Some(x) => Some(x@),
                    None => None,
                },
            ),
    {
        match reasoning_effort {
            Some(re) => Some(!crate::text::str_eq(re, "none")),
            None => match thinking {
                Some(t) => if crate::text::str_eq(t, "enabled") {
                    Some(true)
                } else if crate::text::str_eq(t, "disabled") {
                    Some(false)
                } else {
                    None
                },
                None => None,
            },
        }
    }
}

/// The message of a refused upstream chat request.
pub open spec fn status_error_message(status: nat, content_type: Seq<char>, body: Seq<char>) -> Seq<char> {
    "Grok API request failed: "@ + crate::text::dec_nat(status) + "; content-type: "@ + content_type
        + "; body: "@ + crate::client::preview(body, 220)
}

/// Sends chat requests upstream.
pub struct GrokChatService;

impl GrokChatService {
    /// The service.
    pub fn new() -> (r: GrokChatService) {
        GrokChatService
    }

    /// The model of an OpenAI-style request and the prompt and attachments
    /// of its messages; an unknown model is refused.
    pub fn prepare(model: &str, messages: &[Json]) -> (r: Result<(ModelInfo, String, Vec<(String, String)>), ApiError>)
        ensures
            lookup(model@) is None ==> (r matches Err(e) && e@ == err_v(
                ErrorKind::InvalidRequest,
                "Unknown model"@,
            )),
            lookup(model@) matches Some(info) ==> match extracted_prompt(deep_seq(messages@), info.is_video) {
                Err(m) => r matches Err(e) && e@ == err_v(ErrorKind::InvalidRequest, m),
                Ok((text, atts)) => r matches Ok((mi, t, a)) && mi@ == info && t@ == text
                    && pair_views(a@) == atts,
            },
    {
        let info = match ModelService::get(model) {
            Some(i) => i,
            None => return Err(ApiError::invalid_request("Unknown model")),
        };
        match MessageExtractor::extract(messages, info.is_video) {
            Ok((t, a)) => Ok((info, t, a)),
            Err(e) => Err(e),
        }
    }

    /// The error for an upstream chat request answered with a status other
    /// than 200.
    pub fn status_error(status: u16, content_type: &str, body: &str) -> (r: ApiError)
        ensures
            r@ == err_v(ErrorKind::Upstream, status_error_message(status as nat, content_type@, body@)),
    {
        let mut m = chars_of("Grok API request failed: ");
        crate::text::push_dec(&mut m, status as u128);
        extend_str(&mut m, "; content-type: ");
        extend_str(&mut m, content_type);
        extend_str(&mut m, "; body: ");
        let preview = crate::client::body_preview(body, 220);
        extend_str(&mut m, preview.as_str());
        ApiError::upstream(string_of(m.as_slice()).as_str())
    }
}

/// The last message from the user is the one at `k` when `k` is a user
/// message and none after it is.
proof fn lemma_last_user_at(ex: Seq<(Seq<char>, Seq<char>)>, k: int)
    requires
        0 <= k < ex.len(),
        ex[k].0 == "user"@,
        forall|j: int| k < j < ex.len() ==> (#[trigger] ex[j]).0 != "user"@,
    ensures
        last_user(ex) == Some(k),
    decreases ex.len(),
{
    if ex.len() - 1 != k {
        assert forall|j: int| k < j < ex.drop_last().len() implies (#[trigger] ex.drop_last()[j]).0
            != "user"@ by {
            assert(ex.drop_last()[j] == ex[j]);
        }
        assert(ex.drop_last()[k] == ex[k]);
        lemma_last_user_at(ex.drop_last(), k);
    }
}

/// With no message from the user, there is no last one.
proof fn lemma_last_user_none(ex: Seq<(Seq<char>, Seq<char>)>)
    requires
        forall|j: int| 0 <= j < ex.len() ==> (#[trigger] ex[j]).0 != "user"@,
    ensures
        last_user(ex) is None,
    decreases ex.len(),
{
    if ex.len() > 0 {
        assert forall|j: int| 0 <= j < ex.drop_last().len() implies (#[trigger] ex.drop_last()[j]).0
            != "user"@ by {
            assert(ex.drop_last()[j] == ex[j]);
        }
        lemma_last_user_none(ex.drop_last());
    }
}

/// In a prompt, the paragraph of the last message whose role is `user`
/// stands without a heading, whatever messages follow it; every other
/// paragraph is its role (`user` for an empty one), `: ` and its text. One
/// paragraph stands for each message, in order.
pub proof fn lemma_prompt_headings(ex: Seq<(Seq<char>, Seq<char>)>, k: int)
    requires
        0 <= k < ex.len(),
        ex[k].0 == "user"@,
        forall|j: int| k < j < ex.len() ==> (#[trigger] ex[j]).0 != "user"@,
    ensures
        rendered(ex).len() == ex.len(),
        rendered(ex)[k] == ex[k].1,
        forall|i: int|
            0 <= i < ex.len() && i != k ==> #[trigger] rendered(ex)[i] == (if ex[i].0.len() == 0 {
                "user"@
            } else {
                ex[i].0
            }) + ": "@ + ex[i].1,
{
    lemma_last_user_at(ex, k);
}

/// With no message from the user, every paragraph carries its heading.
pub proof fn lemma_prompt_headings_no_user(ex: Seq<(Seq<char>, Seq<char>)>)
    requires
        forall|j: int| 0 <= j < ex.len() ==> (#[trigger] ex[j]).0 != "user"@,
    ensures
        rendered(ex).len() == ex.len(),
        forall|i: int|
            0 <= i < ex.len() ==> #[trigger] rendered(ex)[i] == (if ex[i].0.len() == 0 {
                "user"@
            } else {
                ex[i].0
            }) + ": "@ + ex[i].1,
{
    lemma_last_user_none(ex);
}

} // verus!
