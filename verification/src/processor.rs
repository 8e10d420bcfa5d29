//! Conversion of the upstream chat stream into OpenAI-style output:
//! streamed chunks, collected replies, video results and image results.
//!
//! Each processor is a state machine. The caller reads upstream lines,
//! parses them as JSON and hands each document to the processor, together
//! with the links it has already resolved for the images the document names
//! (resolving a link may download or upload a file). The processor answers
//! with the output to send.

use vstd::prelude::*;
use crate::text::{
    chars_of, contains, dec_nat, find, contains_exec, dec_int, decimal, extend, extend_str, slice_chars,
    starts_with, starts_with_exec, string_of, trim, trim_end_char, trim_end_char_exec, trim_exec,
};
use crate::json::{deep_members, deep_seq, get_str, json_chars, push_element, push_member, Json, JsonV};
use crate::tools::{card_feed, card_feed_ok, feed_tool_cards, filter_ok, filter_tool_usage, filter_tool_usage_content, split_char, split_chars, views_of};
use crate::cards::{
    build_card_map, card_entries, card_markdown, render_cards, render_ends, replace_render_cards,
};
use crate::ext::{is_simple_uuid, new_uuid_simple, parse_url_path, unix_now_secs, url_path};

verus! {

// ---------------------------------------------------------------------------
// Reading upstream documents
// ---------------------------------------------------------------------------

/// The `result.response` object of an upstream document; `Null` when it is
/// missing.
pub open spec fn response_of(data: JsonV) -> JsonV {
    match data.get("result"@) {
        Some(r) => match r.get("response"@) {
            Some(x) => x,
            None => JsonV::Null,
        },
        None => JsonV::Null,
    }
}

/// The deep view of an optional value; `Null` for `None`.
pub open spec fn opt_deep(o: Option<&Json>) -> JsonV {
    match o {
        Some(j) => j.deep(),
        None => JsonV::Null,
    }
}

/// The string member `key` of `v`.
pub open spec fn str_at(v: JsonV, key: Seq<char>) -> Option<Seq<char>> {
    match v.get(key) {
        Some(x) => x.as_str(),
        None => None,
    }
}

/// The integer member `key` of `v`.
pub open spec fn int_at(v: JsonV, key: Seq<char>) -> Option<int> {
    match v.get(key) {
        Some(x) => x.as_i64(),
        None => None,
    }
}

/// The member `key` of `v`, `Null` when absent.
pub open spec fn at(v: JsonV, key: Seq<char>) -> JsonV {
    match v.get(key) {
        Some(x) => x,
        None => JsonV::Null,
    }
}

/// The `result.response` object of an upstream document.
pub fn response_in(data: &Json) -> (r: Option<&Json>)
    ensures
        opt_deep(r) == response_of(data.deep()),
{
    match data.get("result") {
        Some(r) => r.get("response"),
        None => None,
    }
}

/// The member `key` of an optional value.
pub fn field<'a>(o: Option<&'a Json>, key: &str) -> (r: Option<&'a Json>)
    ensures
        r matches Some(j) ==> opt_deep(o).get(key@) == Some(j.deep()),
        r is None ==> opt_deep(o).get(key@) is None,
{
    match o {
        Some(j) => j.get(key),
        None => None,
    }
}

/// The string member `key` of an optional value.
pub fn str_field<'a>(o: Option<&'a Json>, key: &str) -> (r: Option<&'a str>)
    ensures
        r matches Some(s) ==> str_at(opt_deep(o), key@) == Some(s@),
        r is None ==> str_at(opt_deep(o), key@) is None,
{
    match field(o, key) {
        Some(j) => j.as_str(),
        None => None,
    }
}

/// The integer member `key` of an optional value.
pub fn int_field(o: Option<&Json>, key: &str) -> (r: Option<i64>)
    ensures
        r matches Some(i) ==> int_at(opt_deep(o), key@) == Some(i as int),
        r is None ==> int_at(opt_deep(o), key@) is None,
{
    match field(o, key) {
        Some(j) => j.as_i64(),
        None => None,
    }
}

// ---------------------------------------------------------------------------
// Output chunks
// ---------------------------------------------------------------------------

/// One streamed chunk: its id, the model fingerprint, and the text, role
/// or finish reason it carries.
pub struct Delta {
    pub id: String,
    pub fingerprint: String,
    pub content: Option<String>,
    pub role: Option<String>,
    pub finish: Option<String>,
}

pub struct DeltaV {
    pub id: Seq<char>,
    pub fingerprint: Seq<char>,
    pub content: Option<Seq<char>>,
    pub role: Option<Seq<char>>,
    pub finish: Option<Seq<char>>,
}

pub open spec fn opt_view(o: Option<String>) -> Option<Seq<char>> {
    match o {
        Some(s) => Some(s@),
        None => None,
    }
}

impl View for Delta {
    type V = DeltaV;

    open spec fn view(&self) -> DeltaV {
        DeltaV {
            id: self.id@,
            fingerprint: self.fingerprint@,
            content: opt_view(self.content),
            role: opt_view(self.role),
            finish: opt_view(self.finish),
        }
    }
}

/// What a chunk is to carry. `rid` is the response id known when the chunk
/// is made; without one, the chunk gets a fresh id.
pub struct DeltaS {
    pub rid: Option<Seq<char>>,
    pub fingerprint: Seq<char>,
    pub content: Option<Seq<char>>,
    pub role: Option<Seq<char>>,
    pub finish: Option<Seq<char>>,
}

/// A chunk id: the response id when there is one, else `chatcmpl-`
/// followed by a fresh simple UUID.
pub open spec fn id_ok(rid: Option<Seq<char>>, id: Seq<char>) -> bool {
    match rid {
        Some(r) => id == r,
        None => id.len() == 41 && id.take(9) == "chatcmpl-"@ && is_simple_uuid(id.skip(9)),
    }
}

pub open spec fn delta_fits(d: DeltaV, s: DeltaS) -> bool {
    &&& id_ok(s.rid, d.id)
    &&& d.fingerprint == s.fingerprint
    &&& d.content == s.content
    &&& d.role == s.role
    &&& d.finish == s.finish
}

/// The chunks `ds` carry what `ss` asks for, one for one.
pub open spec fn deltas_fit(ds: Seq<Delta>, ss: Seq<DeltaS>) -> bool {
    ds.len() == ss.len() && forall|i: int| 0 <= i < ds.len() ==> delta_fits(#[trigger] ds[i]@, ss[i])
}

/// A chunk carrying text.
pub open spec fn text_s(rid: Option<Seq<char>>, fp: Seq<char>, c: Seq<char>) -> DeltaS {
    DeltaS { rid, fingerprint: fp, content: Some(c), role: None, finish: None }
}

/// The chunk that opens the reply with the assistant role.
pub open spec fn role_s(rid: Option<Seq<char>>, fp: Seq<char>) -> DeltaS {
    DeltaS { rid, fingerprint: fp, content: None, role: Some("assistant"@), finish: None }
}

/// The chunk that ends the reply.
pub open spec fn stop_s(rid: Option<Seq<char>>, fp: Seq<char>) -> DeltaS {
    DeltaS { rid, fingerprint: fp, content: None, role: None, finish: Some("stop"@) }
}

proof fn lemma_fit_push(ds: Seq<Delta>, ss: Seq<DeltaS>, d: Delta, s: DeltaS)
    requires
        deltas_fit(ds, ss),
        delta_fits(d@, s),
    ensures
        deltas_fit(ds.push(d), ss.push(s)),
{
    assert forall|i: int| 0 <= i < ds.push(d).len() implies delta_fits(
        #[trigger] ds.push(d)[i]@,
        ss.push(s)[i],
    ) by {
        if i < ds.len() {
            assert(ds.push(d)[i] == ds[i]);
        }
    }
}

proof fn lemma_empty_lit()
    ensures
        ""@ == Seq::<char>::empty(),
{
    reveal_strlit("");
    assert(""@ =~= Seq::<char>::empty());
}

/// A chunk id for the response id `rid`.
fn chunk_id(rid: &Option<String>) -> (id: String)
    ensures
        id_ok(opt_view(*rid), id@),
{
    match rid {
        Some(r) => r.clone(),
        None => {
            let u = new_uuid_simple();
            let mut v = chars_of("chatcmpl-");
            extend_str(&mut v, u.as_str());
            proof {
                reveal_strlit("chatcmpl-");
                assert(v@.take(9) == "chatcmpl-"@);
                assert(v@.skip(9) == u@);
            }
            string_of(v.as_slice())
        },
    }
}

fn text_delta(rid: &Option<String>, fp: &str, content: &[char]) -> (d: Delta)
    ensures
        delta_fits(d@, text_s(opt_view(*rid), fp@, content@)),
{
    Delta {
        id: chunk_id(rid),
        fingerprint: String::from_str(fp),
        content: Some(string_of(content)),
        role: None,
        finish: None,
    }
}

fn text_delta_str(rid: &Option<String>, fp: &str, content: &str) -> (d: Delta)
    ensures
        delta_fits(d@, text_s(opt_view(*rid), fp@, content@)),
{
    Delta {
        id: chunk_id(rid),
        fingerprint: String::from_str(fp),
        content: Some(String::from_str(content)),
        role: None,
        finish: None,
    }
}

fn role_delta(rid: &Option<String>, fp: &str) -> (d: Delta)
    ensures
        delta_fits(d@, role_s(opt_view(*rid), fp@)),
{
    Delta {
        id: chunk_id(rid),
        fingerprint: String::from_str(fp),
        content: None,
        role: Some(String::from_str("assistant")),
        finish: None,
    }
}

fn stop_delta(rid: &Option<String>, fp: &str) -> (d: Delta)
    ensures
        delta_fits(d@, stop_s(opt_view(*rid), fp@)),
{
    Delta {
        id: chunk_id(rid),
        fingerprint: String::from_str(fp),
        content: None,
        role: None,
        finish: Some(String::from_str("stop")),
    }
}

/// The `delta` object of a chunk: the role with empty content when a role
/// is set, else the content when there is some.
pub open spec fn delta_json(d: DeltaV) -> JsonV {
    match d.role {
        Some(r) => JsonV::Object(seq![("role"@, JsonV::Str(r)), ("content"@, JsonV::Str(Seq::empty()))]),
        None => match d.content {
            Some(c) => JsonV::Object(seq![("content"@, JsonV::Str(c))]),
            None => JsonV::Object(Seq::empty()),
        },
    }
}

/// The finish reason of a chunk, `null` when it has none.
pub open spec fn finish_json(d: DeltaV) -> JsonV {
    match d.finish {
        Some(f) => JsonV::Str(f),
        None => JsonV::Null,
    }
}

/// The single choice of a chunk.
pub open spec fn choice_json(d: DeltaV) -> JsonV {
    JsonV::Object(
        seq![
            ("index"@, JsonV::Int(0)),
            ("delta"@, delta_json(d)),
            ("logprobs"@, JsonV::Null),
            ("finish_reason"@, finish_json(d)),
        ],
    )
}

/// A `chat.completion.chunk` object.
pub open spec fn chunk_json(created: int, model: Seq<char>, d: DeltaV) -> JsonV {
    JsonV::Object(
        seq![
            ("id"@, JsonV::Str(d.id)),
            ("object"@, JsonV::Str("chat.completion.chunk"@)),
            ("created"@, JsonV::Int(created)),
            ("model"@, JsonV::Str(model)),
            ("system_fingerprint"@, JsonV::Str(d.fingerprint)),
            ("choices"@, JsonV::Array(seq![choice_json(d)])),
        ],
    )
}

// ---------------------------------------------------------------------------
// Asset links
// ---------------------------------------------------------------------------

/// The path of an asset reference: the path part of an absolute URL, or the
/// reference itself, with a leading `/`.
pub open spec fn asset_path(path: Seq<char>) -> Seq<char> {
    let p = if starts_with(path, "http"@) {
        match url_path(path) {
            Some(x) => x,
            None => path,
        }
    } else {
        path
    };
    if starts_with(p, "/"@) {
        p
    } else {
        "/"@ + p
    }
}

/// The link under which an asset is served: on the asset host when no
/// public address is configured, else under this service's file route.
pub open spec fn asset_link(app_url: Seq<char>, path: Seq<char>, media_type: Seq<char>) -> Seq<char> {
    if app_url.len() == 0 {
        "https://assets.grok.com"@ + asset_path(path)
    } else {
        trim_end_char(app_url, '/') + "/v1/files/"@ + media_type + asset_path(path)
    }
}

/// A resolved asset link, and the asset path to fetch into the local cache
/// before the link is used.
pub struct AssetLink {
    pub url: String,
    pub fetch_path: Option<String>,
}

fn asset_path_exec(path: &str) -> (r: Vec<char>)
    ensures
        r@ == asset_path(path@),
{
    let mut p = chars_of(path);
    let http = chars_of("http");
    if starts_with_exec(p.as_slice(), http.as_slice()) {
        if let Some(x) = parse_url_path(path) {
            p = chars_of(x.as_str());
        }
    }
    let slash = chars_of("/");
    if starts_with_exec(p.as_slice(), slash.as_slice()) {
        p
    } else {
        let mut r = slash;
        extend(&mut r, p.as_slice());
        r
    }
}

// ---------------------------------------------------------------------------
// The common part of the processors
// ---------------------------------------------------------------------------

/// What every processor knows: the model, the account token, the creation
/// time of the reply and the public address of this service.
pub struct BaseProcessor {
    pub model: String,
    pub token: String,
    pub created: i64,
    pub app_url: String,
}

impl BaseProcessor {
    /// A processor for `model` and `token`, created now.
    pub fn new(model: &str, token: &str, app_url: &str) -> (r: BaseProcessor)
        ensures
            r.model@ == model@,
            r.token@ == token@,
            r.app_url@ == app_url@,
    {
        BaseProcessor {
            model: String::from_str(model),
            token: String::from_str(token),
            created: unix_now_secs(),
            app_url: String::from_str(app_url),
        }
    }

    /// The link under which the asset at `path` is served, and the asset to
    /// fetch first when it is served by this service.
    pub fn process_url(&self, path: &str, media_type: &str) -> (r: AssetLink)
        ensures
            r.url@ == asset_link(self.app_url@, path@, media_type@),
            self.app_url@.len() == 0 ==> r.fetch_path is None,
            self.app_url@.len() != 0 ==> (r.fetch_path matches Some(p) && p@ == asset_path(path@)),
    {
        let p = asset_path_exec(path);
        let app = chars_of(self.app_url.as_str());
        if app.len() == 0 {
            let mut u = chars_of("https://assets.grok.com");
            extend(&mut u, p.as_slice());
            AssetLink { url: string_of(u.as_slice()), fetch_path: None }
        } else {
            let mut u = trim_end_char_exec(app.as_slice(), '/');
            extend_str(&mut u, "/v1/files/");
            extend_str(&mut u, media_type);
            extend(&mut u, p.as_slice());
            AssetLink { url: string_of(u.as_slice()), fetch_path: Some(string_of(p.as_slice())) }
        }
    }

    /// The `chat.completion.chunk` object for a chunk.
    pub fn sse_chunk(&self, d: &Delta) -> (r: Json)
        ensures
            r.deep() == chunk_json(self.created as int, self.model@, d@),
    {
        let mut delta: Vec<(String, Json)> = Vec::new();
        assert(deep_members(delta@) =~= Seq::empty());
        match &d.role {
            Some(role) => {
                push_member(&mut delta, "role", Json::from_str(role.as_str()));
                push_member(&mut delta, "content", Json::from_str(""));
                proof {
                    lemma_empty_lit();
                }
                assert(""@ == Seq::<char>::empty());
                assert(deep_members(delta@) == seq![("role"@, JsonV::Str(role@)), ("content"@, JsonV::Str(Seq::empty()))]);
            },
            None => match &d.content {
                Some(c) => {
                    push_member(&mut delta, "content", Json::from_str(c.as_str()));
                },
                None => {},
            },
        }
        proof {
            lemma_empty_lit();
        }
        let finish = match &d.finish {
            Some(f) => Json::from_str(f.as_str()),
            None => Json::Null,
        };
        assert(finish.deep() == finish_json(d@));
        let dj = Json::object(delta);
        assert(dj.deep() == delta_json(d@));
        let mut choice: Vec<(String, Json)> = Vec::new();
        assert(deep_members(choice@) =~= Seq::empty());
        push_member(&mut choice, "index", Json::Int(0));
        push_member(&mut choice, "delta", dj);
        push_member(&mut choice, "logprobs", Json::Null);
        push_member(&mut choice, "finish_reason", finish);
        assert(deep_members(choice@) =~= choice_json(d@)->Object_0);
        let cj = Json::object(choice);
        assert(cj.deep() == choice_json(d@));
        let mut choices: Vec<Json> = Vec::new();
        assert(deep_seq(choices@) =~= Seq::empty());
        push_element(&mut choices, cj);
        let mut m: Vec<(String, Json)> = Vec::new();
        assert(deep_members(m@) =~= Seq::empty());
        push_member(&mut m, "id", Json::from_str(d.id.as_str()));
        push_member(&mut m, "object", Json::from_str("chat.completion.chunk"));
        push_member(&mut m, "created", Json::Int(self.created));
        push_member(&mut m, "model", Json::from_str(self.model.as_str()));
        push_member(&mut m, "system_fingerprint", Json::from_str(d.fingerprint.as_str()));
        let chj = Json::array(choices);
        assert(chj.deep() == JsonV::Array(seq![choice_json(d@)]));
        push_member(&mut m, "choices", chj);
        assert(deep_members(m@) =~= chunk_json(self.created as int, self.model@, d@)->Object_0);
        Json::object(m)
    }
}

// ---------------------------------------------------------------------------
// Pieces shared by the reply logic
// ---------------------------------------------------------------------------

/// An integer member, `0` when it is missing.
pub open spec fn int_or_zero(v: JsonV, key: Seq<char>) -> int {
    match int_at(v, key) {
        Some(i) => i,
        None => 0,
    }
}

/// The string elements of an array, in order.
pub open spec fn str_elems(a: Seq<JsonV>) -> Seq<Seq<char>>
    decreases a.len(),
{
    if a.len() == 0 {
        Seq::empty()
    } else {
        let p = str_elems(a.drop_last());
        match a.last().as_str() {
            Some(s) => p.push(s),
            None => p,
        }
    }
}

/// The image URLs a model response names.
pub open spec fn generated_urls(mr: JsonV) -> Seq<Seq<char>> {
    match at(mr, "generatedImageUrls"@).as_array() {
        Some(a) => str_elems(a),
        None => Seq::empty(),
    }
}

/// The name shown for a generated image: the next-to-last piece of its URL
/// between slashes, or the whole URL when it has no slash.
pub open spec fn image_id(url: Seq<char>) -> Seq<char> {
    let parts = split_char(url, '/');
    if parts.len() >= 2 {
        parts[parts.len() - 2]
    } else {
        parts[0]
    }
}

/// The Markdown for a generated image shown under `link`.
pub open spec fn image_markdown(url: Seq<char>, link: Seq<char>) -> Seq<char> {
    "!["@ + image_id(url) + "]("@ + link + ")\n"@
}

pub open spec fn link_views(links: Seq<String>) -> Seq<Seq<char>> {
    links.map_values(|l: String| l@)
}

/// The string elements of an array of values.
pub fn str_elements(a: &Vec<Json>) -> (r: Vec<String>)
    ensures
        link_views(r@) == str_elems(deep_seq(a@)),
{
    let mut r: Vec<String> = Vec::new();
    let mut i: usize = 0;
    assert(link_views(r@) =~= Seq::empty());
    while i < a.len()
        invariant
            i <= a@.len(),
            link_views(r@) == str_elems(deep_seq(a@).take(i as int)),
        decreases a@.len() - i,
    {
        let ghost t = deep_seq(a@).take(i + 1);
        assert(t.drop_last() == deep_seq(a@).take(i as int));
        assert(t.last() == a@[i as int].deep());
        let ghost before = r@;
        if let Some(x) = a[i].as_str() {
            r.push(String::from_str(x));
            assert(link_views(r@) =~= link_views(before).push(x@));
        }
        i = i + 1;
    }
    assert(deep_seq(a@).take(a@.len() as int) == deep_seq(a@));
    r
}

/// The image URLs a model response names.
pub fn generated_image_urls(mr: Option<&Json>) -> (r: Vec<String>)
    ensures
        link_views(r@) == generated_urls(opt_deep(mr)),
{
    match field(mr, "generatedImageUrls") {
        Some(x) => match x.as_array() {
            Some(a) => str_elements(a),
            None => {
                let r: Vec<String> = Vec::new();
                assert(link_views(r@) =~= Seq::empty());
                r
            },
        },
        None => {
            let r: Vec<String> = Vec::new();
            assert(link_views(r@) =~= Seq::empty());
            r
        },
    }
}

fn image_id_exec(url: &str) -> (r: Vec<char>)
    ensures
        r@ == image_id(url@),
{
    let parts = split_chars(chars_of(url).as_slice(), '/');
    let n = parts.len();
    let k = if n >= 2 {
        n - 2
    } else {
        0
    };
    assert(views_of(parts@)[k as int] == parts@[k as int]@);
    let mut r: Vec<char> = Vec::new();
    extend(&mut r, parts[k].as_slice());
    r
}

/// The Markdown for a generated image shown under `link`.
pub fn image_markdown_exec(url: &str, link: &str) -> (r: Vec<char>)
    ensures
        r@ == image_markdown(url@, link@),
{
    let mut r = chars_of("![");
    extend(&mut r, image_id_exec(url).as_slice());
    extend_str(&mut r, "](");
    extend_str(&mut r, link);
    extend_str(&mut r, ")\n");
    r
}

proof fn lemma_fit_concat(a: Seq<Delta>, sa: Seq<DeltaS>, b: Seq<Delta>, sb: Seq<DeltaS>)
    requires
        deltas_fit(a, sa),
        deltas_fit(b, sb),
    ensures
        deltas_fit(a + b, sa + sb),
{
    assert forall|i: int| 0 <= i < (a + b).len() implies delta_fits(
        #[trigger] (a + b)[i]@,
        (sa + sb)[i],
    ) by {
        if i < a.len() {
        } else {
            assert((a + b)[i] == b[i - a.len()]);
            assert(delta_fits(b[i - a.len()]@, sb[i - a.len()]));
        }
    }
}

fn append_fit(out: &mut Vec<Delta>, more: Vec<Delta>, Ghost(so): Ghost<Seq<DeltaS>>, Ghost(sm): Ghost<Seq<DeltaS>>)
    requires
        deltas_fit(old(out)@, so),
        deltas_fit(more@, sm),
    ensures
        deltas_fit(final(out)@, so + sm),
{
    let mut m = more;
    let ghost a = out@;
    let ghost b = m@;
    out.append(&mut m);
    proof {
        lemma_fit_concat(a, so, b, sm);
    }
}

// ---------------------------------------------------------------------------
// Streamed chat replies
// ---------------------------------------------------------------------------

/// What a streaming chat reply remembers between upstream documents.
pub struct StreamState {
    pub response_id: Option<Seq<char>>,
    pub fingerprint: Seq<char>,
    pub think_opened: bool,
    pub role_sent: bool,
    pub filter_tags: Seq<Seq<char>>,
    pub image_format: Seq<char>,
    pub show_think: bool,
    pub rollout_id: Seq<char>,
    pub tool_usage_enabled: bool,
    pub tool_usage_opened: bool,
    pub tool_usage_buffer: Seq<char>,
    pub has_content: bool,
    pub stream_error: Option<Seq<char>>,
}

/// A chunk of text for the reply in state `st`.
pub open spec fn say(st: StreamState, text: Seq<char>) -> DeltaS {
    text_s(st.response_id, st.fingerprint, text)
}

/// The fingerprint, response id and rollout id an upstream response
/// carries, taken over.
pub open spec fn with_head(st: StreamState, resp: JsonV) -> StreamState {
    let fp = if resp.get("llmInfo"@) is Some && st.fingerprint.len() == 0 {
        match str_at(at(resp, "llmInfo"@), "modelHash"@) {
            Some(h) => h,
            None => st.fingerprint,
        }
    } else {
        st.fingerprint
    };
    let rid = match str_at(resp, "responseId"@) {
        Some(r) => Some(r),
        None => st.response_id,
    };
    let rollout = match str_at(resp, "rolloutId"@) {
        Some(r) => if st.rollout_id.len() == 0 {
            r
        } else {
            st.rollout_id
        },
        None => st.rollout_id,
    };
    StreamState { fingerprint: fp, response_id: rid, rollout_id: rollout, ..st }
}

/// The role chunk, sent once before anything else.
pub open spec fn role_part(st: StreamState) -> (StreamState, Seq<DeltaS>) {
    if st.role_sent {
        (st, Seq::empty())
    } else {
        (StreamState { role_sent: true, ..st }, seq![role_s(st.response_id, st.fingerprint)])
    }
}

/// Opening the thinking block unless it is open.
pub open spec fn open_think(st: StreamState) -> (StreamState, Seq<DeltaS>) {
    if st.think_opened {
        (st, Seq::empty())
    } else {
        (StreamState { think_opened: true, ..st }, seq![say(st, "<think>\n"@)])
    }
}

/// The progress line for an image being generated.
pub open spec fn image_progress_text(img: JsonV) -> Seq<char> {
    "正在生成第"@ + dec_int(int_or_zero(img, "imageIndex"@) + 1) + "张图片中，当前进度"@ + dec_int(
        int_or_zero(img, "progress"@),
    ) + "%\n"@
}

/// An image-generation progress report: shown inside the thinking block
/// when thinking is shown, dropped otherwise.
pub open spec fn image_part(st: StreamState, img: JsonV) -> (StreamState, Seq<DeltaS>) {
    if !st.show_think {
        (st, Seq::empty())
    } else {
        let (s1, o1) = open_think(st);
        (s1, o1.push(say(s1, image_progress_text(img))))
    }
}

/// The final model response closes an open thinking block, with its
/// message as the last thought.
pub open spec fn close_think_part(st: StreamState, mr: JsonV) -> (StreamState, Seq<DeltaS>) {
    if st.think_opened && st.show_think {
        let pre = match str_at(mr, "message"@) {
            Some(m) => seq![say(st, m + "\n"@)],
            None => Seq::empty(),
        };
        (StreamState { think_opened: false, ..st }, pre.push(say(st, "</think>\n"@)))
    } else {
        (st, Seq::empty())
    }
}

/// One chunk per generated image, showing it under its resolved link.
pub open spec fn image_chunks(st: StreamState, urls: Seq<Seq<char>>, links: Seq<Seq<char>>) -> Seq<DeltaS> {
    Seq::new(urls.len(), |i: int| say(st, image_markdown(urls[i], links[i])))
}

/// The model hash found in a model response's metadata.
pub open spec fn metadata_hash(mr: JsonV) -> Option<Seq<char>> {
    str_at(at(at(mr, "metadata"@), "llm_info"@), "modelHash"@)
}

/// The final model response: thinking closed, images shown, fingerprint
/// taken from its metadata.
pub open spec fn model_part(st: StreamState, mr: JsonV, links: Seq<Seq<char>>) -> (StreamState, Seq<DeltaS>) {
    let (s1, o1) = close_think_part(st, mr);
    let o2 = image_chunks(s1, generated_urls(mr), links);
    let fp = match metadata_hash(mr) {
        Some(h) => h,
        None => s1.fingerprint,
    };
    (StreamState { fingerprint: fp, ..s1 }, o1 + o2)
}

/// Whether a token is part of the model's thinking.
pub open spec fn is_thinking(resp: JsonV) -> bool {
    match at(resp, "isThinking"@).as_bool() {
        Some(b) => b,
        None => false,
    }
}

/// The token of a response that reaches the output filters: a non-empty
/// token, unless it is hidden thinking.
pub open spec fn token_fed(st: StreamState, resp: JsonV) -> Option<Seq<char>> {
    match str_at(resp, "token"@) {
        Some(t) => if t.len() == 0 || (is_thinking(resp) && !st.show_think) {
            None
        } else {
            Some(t)
        },
        None => None,
    }
}

/// Entering or leaving the thinking block before a token.
pub open spec fn think_switch(st: StreamState, thinking: bool) -> (StreamState, Seq<DeltaS>) {
    if thinking {
        open_think(st)
    } else if st.think_opened {
        (StreamState { think_opened: false, ..st }, seq![say(st, "\n</think>\n"@)])
    } else {
        (st, Seq::empty())
    }
}

/// A token passed through the tool-card filter when it is on.
pub open spec fn filter_token(st: StreamState, token: Seq<char>) -> (StreamState, Seq<char>) {
    if !st.tool_usage_enabled {
        (st, token)
    } else {
        let r = card_feed(st.tool_usage_opened, st.tool_usage_buffer, st.rollout_id, token);
        (StreamState { tool_usage_opened: r.1, tool_usage_buffer: r.2, ..st }, r.0)
    }
}

/// Some filter tag occurs in `text`.
pub open spec fn any_tag_in(tags: Seq<Seq<char>>, text: Seq<char>) -> bool {
    exists|i: int| 0 <= i < tags.len() && contains(text, #[trigger] tags[i])
}

/// A streamed token: thinking switched, tool cards filtered, and the text
/// sent unless it is empty or holds a filtered tag.
pub open spec fn token_part(st: StreamState, resp: JsonV) -> (StreamState, Seq<DeltaS>) {
    match token_fed(st, resp) {
        None => (st, Seq::empty()),
        Some(t) => {
            let (s1, o1) = think_switch(st, is_thinking(resp));
            let (s2, f) = filter_token(s1, t);
            if f.len() > 0 && !any_tag_in(s2.filter_tags, f) {
                (StreamState { has_content: true, ..s2 }, o1.push(say(s2, f)))
            } else {
                (s2, o1)
            }
        },
    }
}

/// The reply to the body of an upstream response, by its kind.
pub open spec fn body_part(st: StreamState, resp: JsonV, links: Seq<Seq<char>>) -> (StreamState, Seq<DeltaS>) {
    match resp.get("streamingImageGenerationResponse"@) {
        Some(img) => image_part(st, img),
        None => match resp.get("cardAttachment"@) {
            Some(card) => match card_markdown(card) {
                Some(md) => (st, seq![say(st, md)]),
                None => (st, Seq::empty()),
            },
            None => match resp.get("modelResponse"@) {
                Some(mr) => model_part(st, mr, links),
                None => token_part(st, resp),
            },
        },
    }
}

/// The reply to one upstream document, and the state after it.
pub open spec fn stream_step(st: StreamState, data: JsonV, links: Seq<Seq<char>>) -> (StreamState, Seq<DeltaS>) {
    let resp = response_of(data);
    let (s1, o1) = role_part(with_head(st, resp));
    let (s2, o2) = body_part(s1, resp, links);
    (s2, o1 + o2)
}

/// The generated images a streamed document shows, whose links the caller
/// resolves first.
pub open spec fn stream_image_urls(data: JsonV) -> Seq<Seq<char>> {
    let resp = response_of(data);
    if resp.get("streamingImageGenerationResponse"@) is None && resp.get("cardAttachment"@) is None {
        match resp.get("modelResponse"@) {
            Some(mr) => generated_urls(mr),
            None => Seq::empty(),
        }
    } else {
        Seq::empty()
    }
}

/// The tool cards a document completes can be read.
pub open spec fn stream_readable(st: StreamState, data: JsonV) -> bool {
    let resp = response_of(data);
    resp.get("streamingImageGenerationResponse"@) is None && resp.get("cardAttachment"@) is None
        && resp.get("modelResponse"@) is None ==> match token_fed(st, resp) {
        Some(t) => st.tool_usage_enabled ==> card_feed_ok(
            st.tool_usage_opened,
            st.tool_usage_buffer,
            t,
        ),
        None => true,
    }
}

/// The closing chunks of a streamed reply: the thinking block closed, an
/// upstream failure reported when nothing was said, and the stop chunk.
pub open spec fn stream_finish(st: StreamState) -> Seq<DeltaS> {
    let a = if st.think_opened {
        seq![say(st, "</think>\n"@)]
    } else {
        Seq::empty()
    };
    let b = match st.stream_error {
        Some(err) => if !st.has_content {
            let role = if !st.role_sent {
                seq![role_s(st.response_id, st.fingerprint)]
            } else {
                Seq::empty()
            };
            role.push(say(st, "[upstream error] 上游连接中断，未收到有效响应: "@ + err))
        } else {
            Seq::empty()
        },
        None => Seq::empty(),
    };
    a + b + seq![stop_s(st.response_id, st.fingerprint)]
}

/// None of the chunks sets a role.
pub open spec fn no_roles(s: Seq<DeltaS>) -> bool {
    forall|i: int| 0 <= i < s.len() ==> (#[trigger] s[i]).role is None
}

proof fn lemma_body_no_roles(st: StreamState, resp: JsonV, links: Seq<Seq<char>>)
    ensures
        no_roles(body_part(st, resp, links).1),
{
    let out = body_part(st, resp, links).1;
    match resp.get("streamingImageGenerationResponse"@) {
        Some(img) => {
            let (s1, o1) = open_think(st);
            assert(no_roles(o1));
        },
        None => match resp.get("cardAttachment"@) {
            Some(card) => {},
            None => match resp.get("modelResponse"@) {
                Some(mr) => {
                    let (s1, o1) = close_think_part(st, mr);
                    let o2 = image_chunks(s1, generated_urls(mr), links);
                    assert(no_roles(o1));
                    assert(no_roles(o2));
                    assert(no_roles(o1 + o2)) by {
                        assert forall|i: int| 0 <= i < (o1 + o2).len() implies (#[trigger] (o1
                            + o2)[i]).role is None by {
                            if i < o1.len() {
                                assert((o1 + o2)[i] == o1[i]);
                            } else {
                                assert((o1 + o2)[i] == o2[i - o1.len()]);
                            }
                        }
                    }
                },
                None => {
                    match token_fed(st, resp) {
                        None => {},
                        Some(t) => {
                            let (s1, o1) = think_switch(st, is_thinking(resp));
                            assert(no_roles(o1));
                        },
                    }
                },
            },
        },
    }
}

/// The role chunk is sent once, first: a reply that has not sent it yet
/// opens its answer to the next upstream document with it, and no other
/// chunk of a streamed answer carries a role.
pub proof fn lemma_role_sent_once(st: StreamState, data: JsonV, links: Seq<Seq<char>>)
    ensures
        stream_step(st, data, links).0.role_sent,
        !st.role_sent ==> stream_step(st, data, links).1.len() > 0 && stream_step(st, data, links).1[0].role
            == Some("assistant"@),
        forall|i: int|
            0 < i < stream_step(st, data, links).1.len() ==> (#[trigger] stream_step(st, data, links).1[i]).role
                is None,
        st.role_sent ==> no_roles(stream_step(st, data, links).1),
{
    let resp = response_of(data);
    let h = with_head(st, resp);
    let (s1, o1) = role_part(h);
    let (s2, o2) = body_part(s1, resp, links);
    lemma_body_no_roles(s1, resp, links);
    lemma_body_keeps_role(s1, resp, links);
    let out = o1 + o2;
    assert forall|i: int| 0 < i < out.len() implies (#[trigger] out[i]).role is None by {
        assert(o1.len() <= 1);
        assert(out[i] == o2[i - o1.len()]);
    }
    if st.role_sent {
        assert(o1.len() == 0);
        assert(out =~= o2);
    } else {
        assert(out[0] == o1[0]);
    }
}

proof fn lemma_body_keeps_role(st: StreamState, resp: JsonV, links: Seq<Seq<char>>)
    ensures
        body_part(st, resp, links).0.role_sent == st.role_sent,
{
}

/// A streaming chat reply in progress.
pub struct StreamProcessor {
    base: BaseProcessor,
    response_id: Option<String>,
    fingerprint: String,
    think_opened: bool,
    role_sent: bool,
    filter_tags: Vec<String>,
    image_format: String,
    show_think: bool,
    rollout_id: String,
    tool_usage_enabled: bool,
    tool_usage_opened: bool,
    tool_usage_buffer: Vec<char>,
    has_content: bool,
    stream_error: Option<String>,
}

impl View for StreamProcessor {
    type V = StreamState;

    closed spec fn view(&self) -> StreamState {
        StreamState {
            response_id: opt_view(self.response_id),
            fingerprint: self.fingerprint@,
            think_opened: self.think_opened,
            role_sent: self.role_sent,
            filter_tags: link_views(self.filter_tags@),
            image_format: self.image_format@,
            show_think: self.show_think,
            rollout_id: self.rollout_id@,
            tool_usage_enabled: self.tool_usage_enabled,
            tool_usage_opened: self.tool_usage_opened,
            tool_usage_buffer: self.tool_usage_buffer@,
            has_content: self.has_content,
            stream_error: opt_view(self.stream_error),
        }
    }
}

/// Whether one of `tags` is `tag`.
fn has_tag(tags: &Vec<String>, tag: &str) -> (b: bool)
    ensures
        b == exists|i: int| 0 <= i < tags@.len() && #[trigger] link_views(tags@)[i] == tag@,
{
    let mut i: usize = 0;
    while i < tags.len()
        invariant
            i <= tags@.len(),
            forall|j: int| 0 <= j < i ==> #[trigger] link_views(tags@)[j] != tag@,
        decreases tags@.len() - i,
    {
        if crate::text::str_eq(tags[i].as_str(), tag) {
            assert(link_views(tags@)[i as int] == tag@);
            return true;
        }
        i = i + 1;
    }
    false
}

/// Whether some tag of `tags` occurs in `text`.
fn any_tag_in_exec(tags: &Vec<String>, text: &[char]) -> (b: bool)
    ensures
        b == any_tag_in(link_views(tags@), text@),
{
    let mut i: usize = 0;
    while i < tags.len()
        invariant
            i <= tags@.len(),
            forall|j: int| 0 <= j < i ==> !contains(text@, #[trigger] link_views(tags@)[j]),
        decreases tags@.len() - i,
    {
        let t = chars_of(tags[i].as_str());
        if contains_exec(text, t.as_slice()) {
            assert(contains(text@, link_views(tags@)[i as int]));
            return true;
        }
        i = i + 1;
    }
    false
}

impl StreamProcessor {
    /// The common part of the processor.
    pub closed spec fn base_view(&self) -> BaseProcessor {
        self.base
    }

    /// The common part of the processor, which builds the output objects.
    pub fn base(&self) -> (r: &BaseProcessor)
        ensures
            *r == self.base_view(),
    {
        &self.base
    }

    /// A streaming reply for `model` and `token`. Thinking is shown as
    /// `think` asks, else as `default_think` says; the tool-card filter is on
    /// when `filter_tags` names `xai:tool_usage_card`.
    pub fn new(
        model: &str,
        token: &str,
        think: Option<bool>,
        default_think: bool,
        filter_tags: Vec<String>,
        image_format: &str,
        app_url: &str,
    ) -> (r: StreamProcessor)
        ensures
            r.base_view().model@ == model@,
            r.base_view().token@ == token@,
            r.base_view().app_url@ == app_url@,
            r@ == (StreamState {
                response_id: None,
                fingerprint: Seq::empty(),
                think_opened: false,
                role_sent: false,
                filter_tags: link_views(filter_tags@),
                image_format: image_format@,
                show_think: match think {
                    Some(v) => v,
                    None => default_think,
                },
                rollout_id: Seq::empty(),
                tool_usage_enabled: exists|i: int|
                    0 <= i < filter_tags@.len() && #[trigger] link_views(filter_tags@)[i]
                        == "xai:tool_usage_card"@,
                tool_usage_opened: false,
                tool_usage_buffer: Seq::empty(),
                has_content: false,
                stream_error: None,
            }),
    {
        let show = match think {
            Some(v) => v,
            None => default_think,
        };
        let enabled = has_tag(&filter_tags, "xai:tool_usage_card");
        StreamProcessor {
            base: BaseProcessor::new(model, token, app_url),
            response_id: None,
            fingerprint: String::new(),
            think_opened: false,
            role_sent: false,
            filter_tags,
            image_format: String::from_str(image_format),
            show_think: show,
            rollout_id: String::new(),
            tool_usage_enabled: enabled,
            tool_usage_opened: false,
            tool_usage_buffer: Vec::new(),
            has_content: false,
            stream_error: None,
        }
    }

    fn say(&self, text: &[char]) -> (d: Delta)
        ensures
            delta_fits(d@, say(self@, text@)),
    {
        text_delta(&self.response_id, self.fingerprint.as_str(), text)
    }

    fn say_str(&self, text: &str) -> (d: Delta)
        ensures
            delta_fits(d@, say(self@, text@)),
    {
        text_delta_str(&self.response_id, self.fingerprint.as_str(), text)
    }

    fn take_head(&mut self, resp: Option<&Json>)
        ensures
            final(self)@ == with_head(old(self)@, opt_deep(resp)),
            final(self).base_view() == old(self).base_view(),
    {
        if field(resp, "llmInfo").is_some() && self.fingerprint.as_str().is_empty() {
            if let Some(h) = str_field(field(resp, "llmInfo"), "modelHash") {
                self.fingerprint = String::from_str(h);
            }
        }
        if let Some(r) = str_field(resp, "responseId") {
            self.response_id = Some(String::from_str(r));
        }
        if let Some(r) = str_field(resp, "rolloutId") {
            if self.rollout_id.as_str().is_empty() {
                self.rollout_id = String::from_str(r);
            }
        }
    }

    /// A token with its tool cards replaced by their lines when the
    /// tool-card filter is on; a card still open stays buffered.
    pub fn filter_tool_card(&mut self, token: &str) -> (r: String)
        requires
            old(self)@.tool_usage_enabled ==> card_feed_ok(
                old(self)@.tool_usage_opened,
                old(self)@.tool_usage_buffer,
                token@,
            ),
        ensures
            final(self)@ == filter_token(old(self)@, token@).0,
            r@ == filter_token(old(self)@, token@).1,
            final(self).base_view() == old(self).base_view(),
    {
        if !self.tool_usage_enabled {
            return String::from_str(token);
        }
        let rid = chars_of(self.rollout_id.as_str());
        let out = feed_tool_cards(
            &mut self.tool_usage_opened,
            &mut self.tool_usage_buffer,
            rid.as_slice(),
            chars_of(token).as_slice(),
        );
        string_of(out.as_slice())
    }

    fn role_chunks(&mut self) -> (r: Vec<Delta>)
        ensures
            final(self)@ == role_part(old(self)@).0,
            deltas_fit(r@, role_part(old(self)@).1),
            final(self).base_view() == old(self).base_view(),
    {
        let mut out: Vec<Delta> = Vec::new();
        if !self.role_sent {
            let d = role_delta(&self.response_id, self.fingerprint.as_str());
            out.push(d);
            self.role_sent = true;
            assert(out@ == seq![d]);
        }
        out
    }

    fn open_think(&mut self) -> (r: Vec<Delta>)
        ensures
            final(self)@ == open_think(old(self)@).0,
            deltas_fit(r@, open_think(old(self)@).1),
            final(self).base_view() == old(self).base_view(),
    {
        let mut out: Vec<Delta> = Vec::new();
        if !self.think_opened {
            let d = self.say_str("<think>\n");
            out.push(d);
            self.think_opened = true;
            assert(out@ == seq![d]);
        }
        out
    }

    fn image_progress(&mut self, img: &Json) -> (r: Vec<Delta>)
        ensures
            final(self)@ == image_part(old(self)@, img.deep()).0,
            deltas_fit(r@, image_part(old(self)@, img.deep()).1),
            final(self).base_view() == old(self).base_view(),
    {
        if !self.show_think {
            return Vec::new();
        }
        let ghost s0 = self@;
        let mut out = self.open_think();
        let ghost o1 = open_think(s0).1;
        let idx: i128 = match img.get("imageIndex") {
            Some(j) => match j.as_i64() {
                Some(i) => i as i128,
                None => 0,
            },
            None => 0,
        };
        let progress: i128 = match img.get("progress") {
            Some(j) => match j.as_i64() {
                Some(i) => i as i128,
                None => 0,
            },
            None => 0,
        };
        assert(idx == int_or_zero(img.deep(), "imageIndex"@));
        assert(progress == int_or_zero(img.deep(), "progress"@));
        let mut msg = chars_of("正在生成第");
        extend(&mut msg, decimal(idx + 1).as_slice());
        extend_str(&mut msg, "张图片中，当前进度");
        extend(&mut msg, decimal(progress).as_slice());
        extend_str(&mut msg, "%\n");
        let d = self.say(msg.as_slice());
        let ghost before = out@;
        out.push(d);
        proof {
            lemma_fit_push(before, o1, d, say(self@, image_progress_text(img.deep())));
        }
        out
    }

    fn model_chunks(&mut self, mr: &Json, links: &Vec<String>) -> (r: Vec<Delta>)
        requires
            links@.len() == generated_urls(mr.deep()).len(),
        ensures
            final(self)@ == model_part(old(self)@, mr.deep(), link_views(links@)).0,
            deltas_fit(r@, model_part(old(self)@, mr.deep(), link_views(links@)).1),
            final(self).base_view() == old(self).base_view(),
    {
        let ghost s0 = self@;
        let mut out: Vec<Delta> = Vec::new();
        let ghost mut so: Seq<DeltaS> = Seq::empty();
        if self.think_opened && self.show_think {
            if let Some(m) = str_field(Some(mr), "message") {
                let mut t = chars_of(m);
                extend_str(&mut t, "\n");
                let d = self.say(t.as_slice());
                proof {
                    lemma_fit_push(out@, so, d, say(s0, m@ + "\n"@));
                    so = so.push(say(s0, m@ + "\n"@));
                }
                out.push(d);
            }
            let d = self.say_str("</think>\n");
            proof {
                lemma_fit_push(out@, so, d, say(s0, "</think>\n"@));
                so = so.push(say(s0, "</think>\n"@));
            }
            out.push(d);
            self.think_opened = false;
            assert(so == close_think_part(s0, mr.deep()).1);
        } else {
            assert(so == close_think_part(s0, mr.deep()).1);
        }
        assert(self@ == close_think_part(s0, mr.deep()).0);
        let ghost s1 = self@;
        let urls = generated_image_urls(Some(mr));
        let ghost uv = generated_urls(mr.deep());
        let ghost lv = link_views(links@);
        let mut i: usize = 0;
        while i < urls.len()
            invariant
                i <= urls@.len(),
                urls@.len() == links@.len(),
                link_views(urls@) == uv,
                lv == link_views(links@),
                self@ == s1,
                deltas_fit(out@, so + image_chunks(s1, uv, lv).take(i as int)),
            decreases urls@.len() - i,
        {
            let md = image_markdown_exec(urls[i].as_str(), links[i].as_str());
            let d = self.say(md.as_slice());
            assert(link_views(urls@)[i as int] == urls@[i as int]@);
            assert(lv[i as int] == links@[i as int]@);
            let ghost want = say(s1, image_markdown(uv[i as int], lv[i as int]));
            proof {
                lemma_fit_push(out@, so + image_chunks(s1, uv, lv).take(i as int), d, want);
                assert((so + image_chunks(s1, uv, lv).take(i as int)).push(want) == so + image_chunks(
                    s1,
                    uv,
                    lv,
                ).take(i + 1));
            }
            out.push(d);
            i = i + 1;
        }
        assert(image_chunks(s1, uv, lv).take(i as int) == image_chunks(s1, uv, lv));
        let meta = field(Some(mr), "metadata");
        let info = field(meta, "llm_info");
        assert(opt_deep(meta) == at(mr.deep(), "metadata"@));
        assert(opt_deep(info) == at(at(mr.deep(), "metadata"@), "llm_info"@));
        if let Some(h) = str_field(info, "modelHash") {
            self.fingerprint = String::from_str(h);
        }
        out
    }

    fn token_chunks(&mut self, resp: Option<&Json>) -> (r: Vec<Delta>)
        requires
            token_fed(old(self)@, opt_deep(resp)) matches Some(t) ==> (old(self)@.tool_usage_enabled
                ==> card_feed_ok(old(self)@.tool_usage_opened, old(self)@.tool_usage_buffer, t)),
        ensures
            final(self)@ == token_part(old(self)@, opt_deep(resp)).0,
            deltas_fit(r@, token_part(old(self)@, opt_deep(resp)).1),
            final(self).base_view() == old(self).base_view(),
    {
        let ghost s0 = self@;
        let token = match str_field(resp, "token") {
            Some(t) => t,
            None => return Vec::new(),
        };
        let thinking = match field(resp, "isThinking") {
            Some(j) => match j.as_bool() {
                Some(b) => b,
                None => false,
            },
            None => false,
        };
        assert(thinking == is_thinking(opt_deep(resp)));
        if token.is_empty() || (thinking && !self.show_think) {
            return Vec::new();
        }
        let mut out: Vec<Delta> = Vec::new();
        if thinking {
            out = self.open_think();
        } else if self.think_opened {
            let d = self.say_str("\n</think>\n");
            out.push(d);
            self.think_opened = false;
            assert(out@ == seq![d]);
        }
        let ghost s1 = self@;
        let ghost o1 = think_switch(s0, thinking).1;
        assert(s1 == think_switch(s0, thinking).0);
        let filtered = chars_of(self.filter_tool_card(token).as_str());
        assert(self@ == filter_token(s1, token@).0);
        assert(filtered@ == filter_token(s1, token@).1);
        if filtered.len() > 0 && !any_tag_in_exec(&self.filter_tags, filtered.as_slice()) {
            let d = self.say(filtered.as_slice());
            proof {
                lemma_fit_push(out@, o1, d, say(self@, filtered@));
            }
            out.push(d);
            self.has_content = true;
        }
        out
    }

    /// The generated images a document shows, in order; the caller resolves
    /// a link for each before handing the document to [`Self::on_data`].
    pub fn image_urls(data: &Json) -> (r: Vec<String>)
        ensures
            link_views(r@) == stream_image_urls(data.deep()),
    {
        let resp = response_in(data);
        if field(resp, "streamingImageGenerationResponse").is_none() && field(
            resp,
            "cardAttachment",
        ).is_none() {
            match field(resp, "modelResponse") {
                Some(mr) => generated_image_urls(Some(mr)),
                None => {
                    let r: Vec<String> = Vec::new();
                    assert(link_views(r@) =~= Seq::empty());
                    r
                },
            }
        } else {
            let r: Vec<String> = Vec::new();
            assert(link_views(r@) =~= Seq::empty());
            r
        }
    }

    /// Whether the tool cards that `data` completes can be read; a document
    /// for which this is false cannot be handled.
    pub fn accepts(&self, data: &Json) -> (b: bool)
        ensures
            b == stream_readable(self@, data.deep()),
    {
        let resp = response_in(data);
        if field(resp, "streamingImageGenerationResponse").is_some() || field(
            resp,
            "cardAttachment",
        ).is_some() || field(resp, "modelResponse").is_some() {
            return true;
        }
        let token = match str_field(resp, "token") {
            Some(t) => t,
            None => return true,
        };
        let thinking = match field(resp, "isThinking") {
            Some(j) => match j.as_bool() {
                Some(b) => b,
                None => false,
            },
            None => false,
        };
        assert(thinking == is_thinking(opt_deep(resp)));
        if token.is_empty() || (thinking && !self.show_think) {
            return true;
        }
        if !self.tool_usage_enabled {
            return true;
        }
        crate::tools::card_feed_readable(
            self.tool_usage_opened,
            self.tool_usage_buffer.as_slice(),
            chars_of(token).as_slice(),
        )
    }

    /// The chunks answering one upstream document, with `links` the resolved
    /// links of the images it shows.
    pub fn on_data(&mut self, data: &Json, links: &Vec<String>) -> (r: Vec<Delta>)
        requires
            links@.len() == stream_image_urls(data.deep()).len(),
            stream_readable(old(self)@, data.deep()),
        ensures
            final(self)@ == stream_step(old(self)@, data.deep(), link_views(links@)).0,
            deltas_fit(r@, stream_step(old(self)@, data.deep(), link_views(links@)).1),
            final(self).base_view() == old(self).base_view(),
    {
        let ghost s0 = self@;
        let ghost lv = link_views(links@);
        let resp = response_in(data);
        let ghost rv = opt_deep(resp);
        self.take_head(resp);
        let mut out = self.role_chunks();
        let ghost s1 = self@;
        let ghost o1 = role_part(with_head(s0, rv)).1;
        assert(s1 == role_part(with_head(s0, rv)).0);
        let more: Vec<Delta>;
        if let Some(img) = field(resp, "streamingImageGenerationResponse") {
            more = self.image_progress(img);
        } else if let Some(card) = field(resp, "cardAttachment") {
            match crate::cards::parse_card_attachment(card) {
                Some(md) => {
                    let d = self.say_str(md.as_str());
                    let mut v: Vec<Delta> = Vec::new();
                    v.push(d);
                    assert(v@ == seq![d]);
                    more = v;
                },
                None => {
                    more = Vec::new();
                },
            }
        } else if let Some(mr) = field(resp, "modelResponse") {
            more = self.model_chunks(mr, links);
        } else {
            more = self.token_chunks(resp);
        }
        assert(self@ == body_part(s1, rv, lv).0);
        append_fit(&mut out, more, Ghost(o1), Ghost(body_part(s1, rv, lv).1));
        out
    }

    /// Records that the upstream stream broke with `msg`.
    pub fn set_stream_error(&mut self, msg: String)
        ensures
            final(self)@ == (StreamState { stream_error: Some(msg@), ..old(self)@ }),
            final(self).base_view() == old(self).base_view(),
    {
        self.stream_error = Some(msg);
    }

    /// The closing chunks of the reply, sent when the upstream stream ends.
    pub fn finish(&self) -> (r: Vec<Delta>)
        ensures
            deltas_fit(r@, stream_finish(self@)),
            self@.stream_error is Some && !self@.has_content && !self@.role_sent ==> ({
                let k: int = if self@.think_opened {
                    1
                } else {
                    0
                };
                r@[k]@.id == r@[k + 1]@.id
            }),
    {
        let mut out: Vec<Delta> = Vec::new();
        let ghost mut so: Seq<DeltaS> = Seq::empty();
        if self.think_opened {
            let d = self.say_str("</think>\n");
            proof {
                lemma_fit_push(out@, so, d, say(self@, "</think>\n"@));
                so = so.push(say(self@, "</think>\n"@));
            }
            out.push(d);
        }
        if let Some(err) = &self.stream_error {
            if !self.has_content {
                let id = chunk_id(&self.response_id);
                if !self.role_sent {
                    let d = Delta {
                        id: id.clone(),
                        fingerprint: self.fingerprint.clone(),
                        content: None,
                        role: Some(String::from_str("assistant")),
                        finish: None,
                    };
                    proof {
                        lemma_fit_push(out@, so, d, role_s(self@.response_id, self@.fingerprint));
                        so = so.push(role_s(self@.response_id, self@.fingerprint));
                    }
                    out.push(d);
                }
                let mut msg = chars_of("[upstream error] 上游连接中断，未收到有效响应: ");
                extend_str(&mut msg, err.as_str());
                let d = Delta {
                    id,
                    fingerprint: self.fingerprint.clone(),
                    content: Some(string_of(msg.as_slice())),
                    role: None,
                    finish: None,
                };
                proof {
                    if !self.role_sent {
                        assert(out@.len() >= 1);
                        assert(out@[out@.len() - 1]@.id == d@.id);
                    }
                }
                let ghost want = say(self@, "[upstream error] 上游连接中断，未收到有效响应: "@ + err@);
                proof {
                    lemma_fit_push(out@, so, d, want);
                    so = so.push(want);
                }
                out.push(d);
            }
        }
        let d = stop_delta(&self.response_id, self.fingerprint.as_str());
        proof {
            lemma_fit_push(out@, so, d, stop_s(self@.response_id, self@.fingerprint));
            so = so.push(stop_s(self@.response_id, self@.fingerprint));
        }
        out.push(d);
        assert(so == stream_finish(self@));
        out
    }
}

// ---------------------------------------------------------------------------
// Collected chat replies
// ---------------------------------------------------------------------------

/// What a collected chat reply has gathered so far.
pub struct CollectState {
    pub response_id: Seq<char>,
    pub fingerprint: Seq<char>,
    pub content: Seq<char>,
    pub rollout_id: Seq<char>,
    pub stream_error: Option<Seq<char>>,
}

/// The fingerprint, response id and rollout id an upstream response
/// carries, taken over.
pub open spec fn collect_head(st: CollectState, resp: JsonV) -> CollectState {
    let fp = if resp.get("llmInfo"@) is Some && st.fingerprint.len() == 0 {
        match str_at(at(resp, "llmInfo"@), "modelHash"@) {
            Some(h) => h,
            None => st.fingerprint,
        }
    } else {
        st.fingerprint
    };
    let rid = match str_at(resp, "responseId"@) {
        Some(r) => r,
        None => st.response_id,
    };
    let rollout = match str_at(resp, "rolloutId"@) {
        Some(r) => if st.rollout_id.len() == 0 {
            r
        } else {
            st.rollout_id
        },
        None => st.rollout_id,
    };
    CollectState { fingerprint: fp, response_id: rid, rollout_id: rollout, ..st }
}

/// The Markdown lines of images shown under `links`, in order.
pub open spec fn image_lines(links: Seq<Seq<char>>) -> Seq<char>
    decreases links.len(),
{
    if links.len() == 0 {
        Seq::empty()
    } else {
        image_lines(links.drop_last()) + "![]("@ + links.last() + ")\n"@
    }
}

/// The text after a model response: its message appended, render tags
/// rewritten when it brings cards, and its images appended.
pub open spec fn collect_model_text(content: Seq<char>, mr: JsonV, links: Seq<Seq<char>>) -> Seq<char> {
    let c1 = match str_at(mr, "message"@) {
        Some(m) => content + m,
        None => content,
    };
    let c2 = match at(mr, "cardAttachmentsJson"@).as_array() {
        Some(cards) => {
            let e = card_entries(cards);
            if e.len() == 0 {
                c1
            } else {
                render_cards(c1, e)
            }
        },
        None => c1,
    };
    c2 + image_lines(links)
}

/// Rewriting the render tags of the text after a model response comes to
/// an end, where the response brings cards.
pub open spec fn model_renders(content: Seq<char>, mr: JsonV) -> bool {
    let c1 = match str_at(mr, "message"@) {
        Some(m) => content + m,
        None => content,
    };
    match at(mr, "cardAttachmentsJson"@).as_array() {
        Some(cards) => card_entries(cards).len() == 0 || render_ends(c1, card_entries(cards)),
        None => true,
    }
}

/// Gathering the document `data` comes to an end: the rewriting of render
/// tags that its model response asks for ends.
pub open spec fn collect_renders(st: CollectState, data: JsonV) -> bool {
    let resp = response_of(data);
    let s1 = collect_head(st, resp);
    let c1 = match resp.get("cardAttachment"@) {
        Some(card) => match card_markdown(card) {
            Some(md) => s1.content + md,
            None => s1.content,
        },
        None => s1.content,
    };
    match resp.get("modelResponse"@) {
        Some(mr) => model_renders(c1, mr),
        None => true,
    }
}

/// The cards a document's model response brings hold no `<` in their titles
/// and links (or it brings none).
pub open spec fn collect_safe(data: JsonV) -> bool {
    match response_of(data).get("modelResponse"@) {
        Some(mr) => match at(mr, "cardAttachmentsJson"@).as_array() {
            Some(cards) => crate::cards::entries_safe(card_entries(cards)),
            None => true,
        },
        None => true,
    }
}

/// The state after one upstream document.
pub open spec fn collect_step(st: CollectState, data: JsonV, links: Seq<Seq<char>>) -> CollectState {
    let resp = response_of(data);
    let s1 = collect_head(st, resp);
    let c1 = match resp.get("cardAttachment"@) {
        Some(card) => match card_markdown(card) {
            Some(md) => s1.content + md,
            None => s1.content,
        },
        None => s1.content,
    };
    let c2 = match resp.get("modelResponse"@) {
        Some(mr) => collect_model_text(c1, mr, links),
        None => c1,
    };
    let c3 = match str_at(resp, "token"@) {
        Some(t) => c2 + t,
        None => c2,
    };
    CollectState { content: c3, ..s1 }
}

/// The generated images a document shows, whose links the caller resolves
/// first.
pub open spec fn collect_image_urls(data: JsonV) -> Seq<Seq<char>> {
    match response_of(data).get("modelResponse"@) {
        Some(mr) => generated_urls(mr),
        None => Seq::empty(),
    }
}

/// The final text: tool cards rewritten, and an upstream failure reported
/// when nothing else is left.
pub open spec fn collect_content(st: CollectState) -> Seq<char> {
    let c = filter_tool_usage(st.content, st.rollout_id);
    if trim(c).len() == 0 {
        match st.stream_error {
            Some(err) => "[upstream error] 上游连接中断，未收到有效响应: "@ + err,
            None => c,
        }
    } else {
        c
    }
}

pub open spec fn message_json(content: Seq<char>) -> JsonV {
    JsonV::Object(
        seq![
            ("role"@, JsonV::Str("assistant"@)),
            ("content"@, JsonV::Str(content)),
            ("refusal"@, JsonV::Null),
            ("annotations"@, JsonV::Array(Seq::empty())),
        ],
    )
}

pub open spec fn completion_choice(content: Seq<char>) -> JsonV {
    JsonV::Object(
        seq![
            ("index"@, JsonV::Int(0)),
            ("message"@, message_json(content)),
            ("finish_reason"@, JsonV::Str("stop"@)),
        ],
    )
}

pub open spec fn prompt_details() -> JsonV {
    JsonV::Object(
        seq![
            ("cached_tokens"@, JsonV::Int(0)),
            ("text_tokens"@, JsonV::Int(0)),
            ("audio_tokens"@, JsonV::Int(0)),
            ("image_tokens"@, JsonV::Int(0)),
        ],
    )
}

pub open spec fn completion_details() -> JsonV {
    JsonV::Object(
        seq![
            ("text_tokens"@, JsonV::Int(0)),
            ("audio_tokens"@, JsonV::Int(0)),
            ("reasoning_tokens"@, JsonV::Int(0)),
        ],
    )
}

/// The usage block of a collected reply, all zero.
pub open spec fn full_usage() -> JsonV {
    JsonV::Object(
        seq![
            ("prompt_tokens"@, JsonV::Int(0)),
            ("completion_tokens"@, JsonV::Int(0)),
            ("total_tokens"@, JsonV::Int(0)),
            ("prompt_tokens_details"@, prompt_details()),
            ("completion_tokens_details"@, completion_details()),
        ],
    )
}

/// A `chat.completion` object.
pub open spec fn completion_json(created: int, model: Seq<char>, st: CollectState) -> JsonV {
    JsonV::Object(
        seq![
            ("id"@, JsonV::Str(st.response_id)),
            ("object"@, JsonV::Str("chat.completion"@)),
            ("created"@, JsonV::Int(created)),
            ("model"@, JsonV::Str(model)),
            ("system_fingerprint"@, JsonV::Str(st.fingerprint)),
            ("choices"@, JsonV::Array(seq![completion_choice(collect_content(st))])),
            ("usage"@, full_usage()),
        ],
    )
}

fn zero_members(keys: &Vec<&str>) -> (r: Json)
    ensures
        r.deep() == JsonV::Object(Seq::new(keys@.len(), |i: int| (keys@[i]@, JsonV::Int(0)))),
{
    let mut m: Vec<(String, Json)> = Vec::new();
    let mut i: usize = 0;
    assert(deep_members(m@) =~= Seq::new(0, |j: int| (keys@[j]@, JsonV::Int(0))));
    while i < keys.len()
        invariant
            i <= keys@.len(),
            deep_members(m@) == Seq::new(i as nat, |j: int| (keys@[j]@, JsonV::Int(0))),
        decreases keys@.len() - i,
    {
        push_member(&mut m, keys[i], Json::Int(0));
        assert(deep_members(m@) =~= Seq::new((i + 1) as nat, |j: int| (keys@[j]@, JsonV::Int(0))));
        i = i + 1;
    }
    Json::object(m)
}

fn usage_json() -> (r: Json)
    ensures
        r.deep() == full_usage(),
{
    let pd = zero_members(&vec!["cached_tokens", "text_tokens", "audio_tokens", "image_tokens"]);
    assert(pd.deep()->Object_0 =~= prompt_details()->Object_0);
    let cd = zero_members(&vec!["text_tokens", "audio_tokens", "reasoning_tokens"]);
    assert(cd.deep()->Object_0 =~= completion_details()->Object_0);
    let mut m: Vec<(String, Json)> = Vec::new();
    assert(deep_members(m@) =~= Seq::empty());
    push_member(&mut m, "prompt_tokens", Json::Int(0));
    push_member(&mut m, "completion_tokens", Json::Int(0));
    push_member(&mut m, "total_tokens", Json::Int(0));
    push_member(&mut m, "prompt_tokens_details", pd);
    push_member(&mut m, "completion_tokens_details", cd);
    assert(deep_members(m@) =~= full_usage()->Object_0);
    Json::object(m)
}

/// A collected chat reply in progress.
pub struct CollectProcessor {
    base: BaseProcessor,
    image_format: String,
    response_id: String,
    fingerprint: String,
    content: Vec<char>,
    rollout_id: String,
    stream_error: Option<String>,
}

impl View for CollectProcessor {
    type V = CollectState;

    closed spec fn view(&self) -> CollectState {
        CollectState {
            response_id: self.response_id@,
            fingerprint: self.fingerprint@,
            content: self.content@,
            rollout_id: self.rollout_id@,
            stream_error: opt_view(self.stream_error),
        }
    }
}

impl CollectProcessor {
    pub closed spec fn base_view(&self) -> BaseProcessor {
        self.base
    }

    pub closed spec fn image_format_view(&self) -> Seq<char> {
        self.image_format@
    }

    /// A collected reply for `model` and `token`.
    pub fn new(model: &str, token: &str, image_format: &str, app_url: &str) -> (r: CollectProcessor)
        ensures
            r.base_view().model@ == model@,
            r.base_view().token@ == token@,
            r.base_view().app_url@ == app_url@,
            r.image_format_view() == image_format@,
            r@ == (CollectState {
                response_id: Seq::empty(),
                fingerprint: Seq::empty(),
                content: Seq::empty(),
                rollout_id: Seq::empty(),
                stream_error: None,
            }),
    {
        CollectProcessor {
            base: BaseProcessor::new(model, token, app_url),
            image_format: String::from_str(image_format),
            response_id: String::new(),
            fingerprint: String::new(),
            content: Vec::new(),
            rollout_id: String::new(),
            stream_error: None,
        }
    }

    /// The common part of the processor.
    pub fn base(&self) -> (r: &BaseProcessor)
        ensures
            *r == self.base_view(),
    {
        &self.base
    }

    /// The generated images a document shows, in order; the caller resolves
    /// a link for each before handing the document to [`Self::on_data`].
    pub fn image_urls(data: &Json) -> (r: Vec<String>)
        ensures
            link_views(r@) == collect_image_urls(data.deep()),
    {
        let resp = response_in(data);
        match field(resp, "modelResponse") {
            Some(mr) => generated_image_urls(Some(mr)),
            None => {
                let r: Vec<String> = Vec::new();
                assert(link_views(r@) =~= Seq::empty());
                r
            },
        }
    }

    fn take_head(&mut self, resp: Option<&Json>)
        ensures
            final(self)@ == collect_head(old(self)@, opt_deep(resp)),
            final(self).base_view() == old(self).base_view(),
            final(self).image_format_view() == old(self).image_format_view(),
    {
        if field(resp, "llmInfo").is_some() && self.fingerprint.as_str().is_empty() {
            if let Some(h) = str_field(field(resp, "llmInfo"), "modelHash") {
                self.fingerprint = String::from_str(h);
            }
        }
        if let Some(r) = str_field(resp, "responseId") {
            self.response_id = String::from_str(r);
        }
        if let Some(r) = str_field(resp, "rolloutId") {
            if self.rollout_id.as_str().is_empty() {
                self.rollout_id = String::from_str(r);
            }
        }
    }

    fn take_model(content: Vec<char>, mr: &Json, links: &Vec<String>) -> (r: Vec<char>)
        requires
            model_renders(content@, mr.deep()),
        ensures
            r@ == collect_model_text(content@, mr.deep(), link_views(links@)),
    {
        let mut c = content;
        if let Some(m) = str_field(Some(mr), "message") {
            extend_str(&mut c, m);
        }
        let ghost c1 = c@;
        if let Some(cards_val) = field(Some(mr), "cardAttachmentsJson") {
            if let Some(cards) = cards_val.as_array() {
                let map = build_card_map(cards.as_slice());
                if !map.is_empty() {
                    let text = string_of(c.as_slice());
                    let replaced = replace_render_cards(text.as_str(), &map);
                    c = chars_of(replaced.as_str());
                }
            }
        }
        let ghost c2 = c@;
        let ghost lv = link_views(links@);
        let mut i: usize = 0;
        while i < links.len()
            invariant
                i <= links@.len(),
                lv == link_views(links@),
                c@ == c2 + image_lines(lv.take(i as int)),
            decreases links@.len() - i,
        {
            extend_str(&mut c, "![](");
            extend_str(&mut c, links[i].as_str());
            extend_str(&mut c, ")\n");
            assert(lv.take(i + 1).drop_last() == lv.take(i as int));
            assert(lv.take(i + 1).last() == links@[i as int]@);
            i = i + 1;
        }
        assert(lv.take(i as int) == lv);
        c
    }

    /// Gathers one upstream document, with `links` the resolved links of
    /// the images it shows.
    pub fn on_data(&mut self, data: &Json, links: &Vec<String>) -> (r: ())
        requires
            links@.len() == collect_image_urls(data.deep()).len(),
            collect_renders(old(self)@, data.deep()),
        ensures
            final(self)@ == collect_step(old(self)@, data.deep(), link_views(links@)),
            final(self).base_view() == old(self).base_view(),
            final(self).image_format_view() == old(self).image_format_view(),
    {
        let resp = response_in(data);
        self.take_head(resp);
        if let Some(card) = field(resp, "cardAttachment") {
            if let Some(md) = crate::cards::parse_card_attachment(card) {
                extend_str(&mut self.content, md.as_str());
            }
        }
        if let Some(mr) = field(resp, "modelResponse") {
            let mut c: Vec<char> = Vec::new();
            std::mem::swap(&mut c, &mut self.content);
            self.content = Self::take_model(c, mr, links);
        }
        if let Some(t) = str_field(resp, "token") {
            extend_str(&mut self.content, t);
        }
    }

    /// Records that the upstream stream broke with `msg`.
    pub fn set_stream_error(&mut self, msg: String)
        ensures
            final(self)@ == (CollectState { stream_error: Some(msg@), ..old(self)@ }),
            final(self).base_view() == old(self).base_view(),
            final(self).image_format_view() == old(self).image_format_view(),
    {
        self.stream_error = Some(msg);
    }

    /// Whether the cards of `data` hold no `<` in their titles and links;
    /// then gathering it meets the requirement of [`Self::on_data`] that the
    /// rewriting of render tags comes to an end.
    pub fn cards_hold_no_lt(&self, data: &Json) -> (b: bool)
        ensures
            b == collect_safe(data.deep()),
            b ==> collect_renders(self@, data.deep()),
    {
        let resp = response_in(data);
        let b = match field(resp, "modelResponse") {
            Some(mr) => match field(Some(mr), "cardAttachmentsJson") {
                Some(cards_val) => match cards_val.as_array() {
                    Some(cards) => build_card_map(cards.as_slice()).holds_no_lt(),
                    None => true,
                },
                None => true,
            },
            None => true,
        };
        proof {
            if b {
                let d = data.deep();
                let resp_v = response_of(d);
                let s1 = collect_head(self@, resp_v);
                let c1 = match resp_v.get("cardAttachment"@) {
                    Some(card) => match card_markdown(card) {
                        Some(md) => s1.content + md,
                        None => s1.content,
                    },
                    None => s1.content,
                };
                if let Some(mr) = resp_v.get("modelResponse"@) {
                    let c2 = match str_at(mr, "message"@) {
                        Some(m) => c1 + m,
                        None => c1,
                    };
                    if let Some(cards) = at(mr, "cardAttachmentsJson"@).as_array() {
                        crate::cards::lemma_render_cards_complete(c2, card_entries(cards));
                    }
                }
            }
        }
        b
    }

    /// Whether the tool cards of the gathered text can be read; when this is
    /// false the reply cannot be finished.
    pub fn readable(&self) -> (b: bool)
        ensures
            b == filter_ok(self@.content),
    {
        crate::tools::tool_cards_readable(string_of(self.content.as_slice()).as_str())
    }

    /// The `chat.completion` object of the gathered reply.
    pub fn finish(&self) -> (r: Json)
        requires
            filter_ok(self@.content),
        ensures
            r.deep() == completion_json(self.base_view().created as int, self.base_view().model@, self@),
    {
        let text = string_of(self.content.as_slice());
        let filtered = filter_tool_usage_content(text.as_str(), self.rollout_id.as_str());
        let mut content = chars_of(filtered.as_str());
        if trim_exec(content.as_slice()).len() == 0 {
            if let Some(err) = &self.stream_error {
                content = chars_of("[upstream error] 上游连接中断，未收到有效响应: ");
                extend_str(&mut content, err.as_str());
            }
        }
        assert(content@ == collect_content(self@));
        let mut msg: Vec<(String, Json)> = Vec::new();
        assert(deep_members(msg@) =~= Seq::empty());
        push_member(&mut msg, "role", Json::from_str("assistant"));
        push_member(&mut msg, "content", json_chars(content.as_slice()));
        push_member(&mut msg, "refusal", Json::Null);
        let empty: Vec<Json> = Vec::new();
        let ea = Json::array(empty);
        assert(ea.deep() == JsonV::Array(Seq::empty())) by {
            assert(deep_seq(empty@) =~= Seq::empty());
        }
        push_member(&mut msg, "annotations", ea);
        assert(deep_members(msg@) =~= message_json(content@)->Object_0);
        let mj = Json::object(msg);
        let mut choice: Vec<(String, Json)> = Vec::new();
        assert(deep_members(choice@) =~= Seq::empty());
        push_member(&mut choice, "index", Json::Int(0));
        push_member(&mut choice, "message", mj);
        push_member(&mut choice, "finish_reason", Json::from_str("stop"));
        assert(deep_members(choice@) =~= completion_choice(content@)->Object_0);
        let cj = Json::object(choice);
        let mut choices: Vec<Json> = Vec::new();
        assert(deep_seq(choices@) =~= Seq::empty());
        push_element(&mut choices, cj);
        let chj = Json::array(choices);
        assert(chj.deep() == JsonV::Array(seq![completion_choice(content@)]));
        let mut m: Vec<(String, Json)> = Vec::new();
        assert(deep_members(m@) =~= Seq::empty());
        push_member(&mut m, "id", Json::from_str(self.response_id.as_str()));
        push_member(&mut m, "object", Json::from_str("chat.completion"));
        push_member(&mut m, "created", Json::Int(self.base.created));
        push_member(&mut m, "model", Json::from_str(self.base.model.as_str()));
        push_member(&mut m, "system_fingerprint", Json::from_str(self.fingerprint.as_str()));
        push_member(&mut m, "choices", chj);
        push_member(&mut m, "usage", usage_json());
        assert(deep_members(m@) =~= completion_json(
            self.base.created as int,
            self.base.model@,
            self@,
        )->Object_0);
        Json::object(m)
    }
}

// ---------------------------------------------------------------------------
// Video replies
// ---------------------------------------------------------------------------

/// The HTML that shows a generated video, with its thumbnail as poster when
/// there is one.
pub open spec fn video_html(video_url: Seq<char>, thumbnail_url: Seq<char>) -> Seq<char> {
    let poster = if thumbnail_url.len() == 0 {
        Seq::empty()
    } else {
        " poster=\""@ + thumbnail_url + "\""@
    };
    "<video id=\"video\" controls=\"\" preload=\"none\""@ + poster
        + ">\n  <source id=\"mp4\" src=\""@ + video_url + "\" type=\"video/mp4\">\n</video>"@
}

fn video_html_exec(video_url: &str, thumbnail_url: &str) -> (r: String)
    ensures
        r@ == video_html(video_url@, thumbnail_url@),
{
    let mut out = chars_of("<video id=\"video\" controls=\"\" preload=\"none\"");
    if !thumbnail_url.is_empty() {
        extend_str(&mut out, " poster=\"");
        extend_str(&mut out, thumbnail_url);
        extend_str(&mut out, "\"");
    }
    extend_str(&mut out, ">\n  <source id=\"mp4\" src=\"");
    extend_str(&mut out, video_url);
    extend_str(&mut out, "\" type=\"video/mp4\">\n</video>");
    string_of(out.as_slice())
}

/// A finished video to bring in: upscaled first when asked, then linked
/// with its thumbnail.
pub struct VideoJob {
    pub video_url: String,
    pub thumbnail_url: String,
    pub upscale: bool,
}

pub struct VideoJobV {
    pub video_url: Seq<char>,
    pub thumbnail_url: Seq<char>,
    pub upscale: bool,
}

impl View for VideoJob {
    type V = VideoJobV;

    open spec fn view(&self) -> VideoJobV {
        VideoJobV { video_url: self.video_url@, thumbnail_url: self.thumbnail_url@, upscale: self.upscale }
    }
}

/// A string member, empty when it is missing.
pub open spec fn str_or_empty(v: JsonV, key: Seq<char>) -> Seq<char> {
    match str_at(v, key) {
        Some(s) => s,
        None => Seq::empty(),
    }
}

fn str_or_empty_exec(o: Option<&Json>, key: &str) -> (r: String)
    ensures
        r@ == str_or_empty(opt_deep(o), key@),
{
    match str_field(o, key) {
        Some(s) => String::from_str(s),
        None => String::new(),
    }
}

/// What a streaming video reply remembers between upstream documents.
pub struct VideoState {
    pub response_id: Option<Seq<char>>,
    pub think_opened: bool,
    pub role_sent: bool,
    pub show_think: bool,
    pub upscale_on_finish: bool,
}

/// A chunk of text for the video reply in state `st`.
pub open spec fn vsay(st: VideoState, text: Seq<char>) -> DeltaS {
    text_s(st.response_id, Seq::empty(), text)
}

/// The video job a finished video report starts.
pub open spec fn video_job_of(upscale: bool, vr: JsonV) -> Option<VideoJobV> {
    if int_or_zero(vr, "progress"@) == 100 && str_or_empty(vr, "videoUrl"@).len() > 0 {
        Some(
            VideoJobV {
                video_url: str_or_empty(vr, "videoUrl"@),
                thumbnail_url: str_or_empty(vr, "thumbnailImageUrl"@),
                upscale,
            },
        )
    } else {
        None
    }
}

/// The reply to a video progress report.
pub open spec fn video_progress_part(st: VideoState, vr: JsonV) -> (VideoState, Seq<DeltaS>) {
    let progress = int_or_zero(vr, "progress"@);
    let (s1, o1) = if st.show_think {
        let (sa, oa) = if st.think_opened {
            (st, Seq::empty())
        } else {
            (VideoState { think_opened: true, ..st }, seq![vsay(st, "<think>\n"@)])
        };
        (sa, oa.push(vsay(sa, "正在生成视频中，当前进度"@ + dec_int(progress) + "%\n"@)))
    } else {
        (st, Seq::empty())
    };
    if progress == 100 {
        let (s2, o2) = if s1.think_opened && s1.show_think {
            (VideoState { think_opened: false, ..s1 }, o1.push(vsay(s1, "</think>\n"@)))
        } else {
            (s1, o1)
        };
        if str_or_empty(vr, "videoUrl"@).len() > 0 && s2.upscale_on_finish {
            (s2, o2.push(vsay(s2, "正在对视频进行超分辨率\n"@)))
        } else {
            (s2, o2)
        }
    } else {
        (s1, o1)
    }
}

/// The reply to one upstream document, and the state after it.
pub open spec fn video_step(st: VideoState, data: JsonV) -> (VideoState, Seq<DeltaS>) {
    let resp = response_of(data);
    let s0 = match str_at(resp, "responseId"@) {
        Some(r) => VideoState { response_id: Some(r), ..st },
        None => st,
    };
    let (s1, o1) = if s0.role_sent {
        (s0, Seq::empty())
    } else {
        (VideoState { role_sent: true, ..s0 }, seq![role_s(s0.response_id, Seq::empty())])
    };
    match resp.get("streamingVideoGenerationResponse"@) {
        Some(vr) => {
            let (s2, o2) = video_progress_part(s1, vr);
            (s2, o1 + o2)
        },
        None => (s1, o1),
    }
}

/// The video job one upstream document starts.
pub open spec fn video_step_job(st: VideoState, data: JsonV) -> Option<VideoJobV> {
    match response_of(data).get("streamingVideoGenerationResponse"@) {
        Some(vr) => video_job_of(st.upscale_on_finish, vr),
        None => None,
    }
}

/// The closing chunks of a streamed video reply.
pub open spec fn video_finish(st: VideoState) -> Seq<DeltaS> {
    let a = if st.think_opened {
        seq![vsay(st, "</think>\n"@)]
    } else {
        Seq::empty()
    };
    a.push(stop_s(st.response_id, Seq::empty()))
}

/// A streaming video reply in progress.
pub struct VideoStreamProcessor {
    base: BaseProcessor,
    response_id: Option<String>,
    think_opened: bool,
    role_sent: bool,
    show_think: bool,
    upscale_on_finish: bool,
}

impl View for VideoStreamProcessor {
    type V = VideoState;

    closed spec fn view(&self) -> VideoState {
        VideoState {
            response_id: opt_view(self.response_id),
            think_opened: self.think_opened,
            role_sent: self.role_sent,
            show_think: self.show_think,
            upscale_on_finish: self.upscale_on_finish,
        }
    }
}

fn opt_job(vr: Option<&Json>, upscale: bool) -> (r: Option<VideoJob>)
    ensures
        r matches Some(j) ==> video_job_of(upscale, opt_deep(vr)) == Some(j@),
        r is None ==> video_job_of(upscale, opt_deep(vr)) is None,
{
    let progress = match int_field(vr, "progress") {
        Some(p) => p,
        None => 0,
    };
    let video_url = str_or_empty_exec(vr, "videoUrl");
    if progress == 100 && !video_url.as_str().is_empty() {
        Some(VideoJob { video_url, thumbnail_url: str_or_empty_exec(vr, "thumbnailImageUrl"), upscale })
    } else {
        None
    }
}

impl VideoStreamProcessor {
    pub closed spec fn base_view(&self) -> BaseProcessor {
        self.base
    }

    /// A streaming video reply for `model` and `token`.
    pub fn new(
        model: &str,
        token: &str,
        think: Option<bool>,
        default_think: bool,
        upscale_on_finish: bool,
        app_url: &str,
    ) -> (r: VideoStreamProcessor)
        ensures
            r.base_view().model@ == model@,
            r.base_view().token@ == token@,
            r.base_view().app_url@ == app_url@,
            r@ == (VideoState {
                response_id: None,
                think_opened: false,
                role_sent: false,
                show_think: match think {
                    Some(v) => v,
                    None => default_think,
                },
                upscale_on_finish,
            }),
    {
        VideoStreamProcessor {
            base: BaseProcessor::new(model, token, app_url),
            response_id: None,
            think_opened: false,
            role_sent: false,
            show_think: match think {
                Some(v) => v,
                None => default_think,
            },
            upscale_on_finish,
        }
    }

    /// The common part of the processor.
    pub fn base(&self) -> (r: &BaseProcessor)
        ensures
            *r == self.base_view(),
    {
        &self.base
    }

    /// The HTML that shows a generated video.
    pub fn build_video_html(video_url: &str, thumbnail_url: &str) -> (r: String)
        ensures
            r@ == video_html(video_url@, thumbnail_url@),
    {
        video_html_exec(video_url, thumbnail_url)
    }

    fn vsay(&self, text: &str) -> (d: Delta)
        ensures
            delta_fits(d@, vsay(self@, text@)),
    {
        proof {
            lemma_empty_lit();
        }
        text_delta_str(&self.response_id, "", text)
    }

    /// The chunks answering one upstream document, and the finished video
    /// to bring in, if it reports one.
    pub fn on_data(&mut self, data: &Json) -> (r: (Vec<Delta>, Option<VideoJob>))
        ensures
            final(self)@ == video_step(old(self)@, data.deep()).0,
            deltas_fit(r.0@, video_step(old(self)@, data.deep()).1),
            r.1 matches Some(j) ==> video_step_job(old(self)@, data.deep()) == Some(j@),
            r.1 is None ==> video_step_job(old(self)@, data.deep()) is None,
            final(self).base_view() == old(self).base_view(),
    {
        let ghost s_in = self@;
        let resp = response_in(data);
        if let Some(r) = str_field(resp, "responseId") {
            self.response_id = Some(String::from_str(r));
        }
        let mut out: Vec<Delta> = Vec::new();
        let ghost mut so: Seq<DeltaS> = Seq::empty();
        if !self.role_sent {
            proof {
                lemma_empty_lit();
            }
            let d = role_delta(&self.response_id, "");
            proof {
                lemma_fit_push(out@, so, d, role_s(self@.response_id, Seq::empty()));
                so = so.push(role_s(self@.response_id, Seq::empty()));
            }
            out.push(d);
            self.role_sent = true;
        }
        let vr = match field(resp, "streamingVideoGenerationResponse") {
            Some(v) => v,
            None => {
                return (out, None);
            },
        };
        let ghost s1 = self@;
        let ghost o1 = so;
        let progress = match int_field(Some(vr), "progress") {
            Some(p) => p,
            None => 0,
        };
        let ghost vrd = vr.deep();
        assert(progress == int_or_zero(vrd, "progress"@));
        if self.show_think {
            if !self.think_opened {
                let d = self.vsay("<think>\n");
                proof {
                    lemma_fit_push(out@, so, d, vsay(self@, "<think>\n"@));
                    so = so.push(vsay(self@, "<think>\n"@));
                }
                out.push(d);
                self.think_opened = true;
            }
            let mut msg = chars_of("正在生成视频中，当前进度");
            extend(&mut msg, decimal(progress as i128).as_slice());
            extend_str(&mut msg, "%\n");
            let d = text_delta(&self.response_id, "", msg.as_slice());
            let ghost want = vsay(self@, "正在生成视频中，当前进度"@ + dec_int(progress as int) + "%\n"@);
            proof {
                lemma_empty_lit();
                lemma_fit_push(out@, so, d, want);
                so = so.push(want);
            }
            out.push(d);
        }
        let job = opt_job(Some(vr), self.upscale_on_finish);
        if progress == 100 {
            if self.think_opened && self.show_think {
                let d = self.vsay("</think>\n");
                proof {
                    lemma_fit_push(out@, so, d, vsay(self@, "</think>\n"@));
                    so = so.push(vsay(self@, "</think>\n"@));
                }
                out.push(d);
                self.think_opened = false;
            }
            let video_url = str_or_empty_exec(Some(vr), "videoUrl");
            if !video_url.as_str().is_empty() && self.upscale_on_finish {
                let d = self.vsay("正在对视频进行超分辨率\n");
                proof {
                    lemma_fit_push(out@, so, d, vsay(self@, "正在对视频进行超分辨率\n"@));
                    so = so.push(vsay(self@, "正在对视频进行超分辨率\n"@));
                }
                out.push(d);
            }
        }
        assert(self@ == video_progress_part(s1, vrd).0);
        assert(so == o1 + video_progress_part(s1, vrd).1);
        (out, job)
    }

    /// The chunk that shows the finished video under `video_link`, with
    /// `thumbnail_link` as poster when it is not empty.
    pub fn video_chunk(&self, video_link: &str, thumbnail_link: &str) -> (d: Delta)
        ensures
            delta_fits(d@, vsay(self@, video_html(video_link@, thumbnail_link@))),
    {
        let html = video_html_exec(video_link, thumbnail_link);
        self.vsay(html.as_str())
    }

    /// The closing chunks of the reply, sent when the upstream stream ends.
    pub fn finish(&self) -> (r: Vec<Delta>)
        ensures
            deltas_fit(r@, video_finish(self@)),
    {
        let mut out: Vec<Delta> = Vec::new();
        let ghost mut so: Seq<DeltaS> = Seq::empty();
        if self.think_opened {
            let d = self.vsay("</think>\n");
            proof {
                lemma_fit_push(out@, so, d, vsay(self@, "</think>\n"@));
                so = so.push(vsay(self@, "</think>\n"@));
            }
            out.push(d);
        }
        proof {
            lemma_empty_lit();
        }
        let d = stop_delta(&self.response_id, "");
        proof {
            lemma_fit_push(out@, so, d, stop_s(self@.response_id, Seq::empty()));
            so = so.push(stop_s(self@.response_id, Seq::empty()));
        }
        out.push(d);
        assert(so == video_finish(self@));
        out
    }
}

// ---------------------------------------------------------------------------
// Collected video replies
// ---------------------------------------------------------------------------

/// What a collected video reply has gathered so far.
pub struct VideoCollectState {
    pub response_id: Seq<char>,
    pub content: Seq<char>,
}

/// The state after one upstream document: a finished video report sets the
/// response id.
pub open spec fn video_collect_step(st: VideoCollectState, data: JsonV) -> VideoCollectState {
    let resp = response_of(data);
    match resp.get("streamingVideoGenerationResponse"@) {
        Some(vr) => if int_at(vr, "progress"@) == Some(100int) {
            VideoCollectState { response_id: str_or_empty(resp, "responseId"@), ..st }
        } else {
            st
        },
        None => st,
    }
}

/// The video job one upstream document starts.
pub open spec fn video_collect_job(upscale: bool, data: JsonV) -> Option<VideoJobV> {
    match response_of(data).get("streamingVideoGenerationResponse"@) {
        Some(vr) => video_job_of(upscale, vr),
        None => None,
    }
}

pub open spec fn video_message_json(content: Seq<char>) -> JsonV {
    JsonV::Object(
        seq![
            ("role"@, JsonV::Str("assistant"@)),
            ("content"@, JsonV::Str(content)),
            ("refusal"@, JsonV::Null),
        ],
    )
}

pub open spec fn video_choice(content: Seq<char>) -> JsonV {
    JsonV::Object(
        seq![
            ("index"@, JsonV::Int(0)),
            ("message"@, video_message_json(content)),
            ("finish_reason"@, JsonV::Str("stop"@)),
        ],
    )
}

pub open spec fn zero_usage() -> JsonV {
    JsonV::Object(
        seq![
            ("prompt_tokens"@, JsonV::Int(0)),
            ("completion_tokens"@, JsonV::Int(0)),
            ("total_tokens"@, JsonV::Int(0)),
        ],
    )
}

/// The `chat.completion` object of a collected video reply.
pub open spec fn video_completion_json(created: int, model: Seq<char>, st: VideoCollectState) -> JsonV {
    JsonV::Object(
        seq![
            ("id"@, JsonV::Str(st.response_id)),
            ("object"@, JsonV::Str("chat.completion"@)),
            ("created"@, JsonV::Int(created)),
            ("model"@, JsonV::Str(model)),
            ("choices"@, JsonV::Array(seq![video_choice(st.content)])),
            ("usage"@, zero_usage()),
        ],
    )
}

/// A collected video reply in progress.
pub struct VideoCollectProcessor {
    base: BaseProcessor,
    upscale_on_finish: bool,
    response_id: String,
    content: String,
}

impl View for VideoCollectProcessor {
    type V = VideoCollectState;

    closed spec fn view(&self) -> VideoCollectState {
        VideoCollectState { response_id: self.response_id@, content: self.content@ }
    }
}

impl VideoCollectProcessor {
    pub closed spec fn base_view(&self) -> BaseProcessor {
        self.base
    }

    pub closed spec fn upscale_view(&self) -> bool {
        self.upscale_on_finish
    }

    /// A collected video reply for `model` and `token`.
    pub fn new(model: &str, token: &str, upscale_on_finish: bool, app_url: &str) -> (r: VideoCollectProcessor)
        ensures
            r.base_view().model@ == model@,
            r.base_view().token@ == token@,
            r.base_view().app_url@ == app_url@,
            r.upscale_view() == upscale_on_finish,
            r@ == (VideoCollectState { response_id: Seq::empty(), content: Seq::empty() }),
    {
        VideoCollectProcessor {
            base: BaseProcessor::new(model, token, app_url),
            upscale_on_finish,
            response_id: String::new(),
            content: String::new(),
        }
    }

    /// The common part of the processor.
    pub fn base(&self) -> (r: &BaseProcessor)
        ensures
            *r == self.base_view(),
    {
        &self.base
    }

    /// The HTML that shows a generated video.
    pub fn build_video_html(video_url: &str, thumbnail_url: &str) -> (r: String)
        ensures
            r@ == video_html(video_url@, thumbnail_url@),
    {
        video_html_exec(video_url, thumbnail_url)
    }

    /// Gathers one upstream document; returns the finished video to bring
    /// in, if it reports one.
    pub fn on_data(&mut self, data: &Json) -> (r: Option<VideoJob>)
        ensures
            final(self)@ == video_collect_step(old(self)@, data.deep()),
            r matches Some(j) ==> video_collect_job(old(self).upscale_view(), data.deep()) == Some(j@),
            r is None ==> video_collect_job(old(self).upscale_view(), data.deep()) is None,
            final(self).base_view() == old(self).base_view(),
            final(self).upscale_view() == old(self).upscale_view(),
    {
        let resp = response_in(data);
        let vr = match field(resp, "streamingVideoGenerationResponse") {
            Some(v) => v,
            None => return None,
        };
        if int_field(Some(vr), "progress") == Some(100i64) {
            self.response_id = str_or_empty_exec(resp, "responseId");
        }
        opt_job(Some(vr), self.upscale_on_finish)
    }

    /// Takes in the finished video, shown under `video_link` with
    /// `thumbnail_link` as poster when it is not empty.
    pub fn set_video(&mut self, video_link: &str, thumbnail_link: &str)
        ensures
            final(self)@ == (VideoCollectState {
                content: video_html(video_link@, thumbnail_link@),
                ..old(self)@
            }),
            final(self).base_view() == old(self).base_view(),
            final(self).upscale_view() == old(self).upscale_view(),
    {
        self.content = video_html_exec(video_link, thumbnail_link);
    }

    /// The `chat.completion` object of the gathered reply.
    pub fn finish(&self) -> (r: Json)
        ensures
            r.deep() == video_completion_json(self.base_view().created as int, self.base_view().model@, self@),
    {
        let mut msg: Vec<(String, Json)> = Vec::new();
        assert(deep_members(msg@) =~= Seq::empty());
        push_member(&mut msg, "role", Json::from_str("assistant"));
        push_member(&mut msg, "content", Json::from_str(self.content.as_str()));
        push_member(&mut msg, "refusal", Json::Null);
        assert(deep_members(msg@) =~= video_message_json(self@.content)->Object_0);
        let mj = Json::object(msg);
        let mut choice: Vec<(String, Json)> = Vec::new();
        assert(deep_members(choice@) =~= Seq::empty());
        push_member(&mut choice, "index", Json::Int(0));
        push_member(&mut choice, "message", mj);
        push_member(&mut choice, "finish_reason", Json::from_str("stop"));
        assert(deep_members(choice@) =~= video_choice(self@.content)->Object_0);
        let cj = Json::object(choice);
        let mut choices: Vec<Json> = Vec::new();
        assert(deep_seq(choices@) =~= Seq::empty());
        push_element(&mut choices, cj);
        let chj = Json::array(choices);
        assert(chj.deep() == JsonV::Array(seq![video_choice(self@.content)]));
        let mut usage: Vec<(String, Json)> = Vec::new();
        assert(deep_members(usage@) =~= Seq::empty());
        push_member(&mut usage, "prompt_tokens", Json::Int(0));
        push_member(&mut usage, "completion_tokens", Json::Int(0));
        push_member(&mut usage, "total_tokens", Json::Int(0));
        assert(deep_members(usage@) =~= zero_usage()->Object_0);
        let mut m: Vec<(String, Json)> = Vec::new();
        assert(deep_members(m@) =~= Seq::empty());
        push_member(&mut m, "id", Json::from_str(self.response_id.as_str()));
        push_member(&mut m, "object", Json::from_str("chat.completion"));
        push_member(&mut m, "created", Json::Int(self.base.created));
        push_member(&mut m, "model", Json::from_str(self.base.model.as_str()));
        push_member(&mut m, "choices", chj);
        push_member(&mut m, "usage", Json::object(usage));
        assert(deep_members(m@) =~= video_completion_json(
            self.base.created as int,
            self.base.model@,
            self@,
        )->Object_0);
        Json::object(m)
    }
}

// ---------------------------------------------------------------------------
// Image replies
// ---------------------------------------------------------------------------

/// A JSON number for a count: an integer when it fits in `i64`, else its
/// decimal text.
pub open spec fn count_json(n: nat) -> JsonV {
    if n <= i64::MAX {
        JsonV::Int(n as int)
    } else {
        JsonV::Number(dec_nat(n))
    }
}

/// A JSON number for a count.
pub fn count_json_pub(n: usize) -> (r: Json)
    ensures
        r.deep() == count_json(n as nat),
{
    count_json_exec(n)
}

fn count_json_exec(n: usize) -> (r: Json)
    ensures
        r.deep() == count_json(n as nat),
{
    if n as u128 <= i64::MAX as u128 {
        Json::Int(n as i64)
    } else {
        let d = decimal(n as i128);
        Json::Number(string_of(d.as_slice()))
    }
}

/// The text after the first `,` of a data URL, or the whole text when it
/// has none.
pub open spec fn after_comma(s: Seq<char>) -> Seq<char> {
    match find(s, seq![',']) {
        Some(i) => s.skip(i + 1),
        None => s,
    }
}

fn after_comma_exec(s: &str) -> (r: String)
    ensures
        r@ == after_comma(s@),
{
    let c = chars_of(s);
    let n = c.len();
    let comma = vec![','];
    assert(comma@ =~= seq![',']);
    match crate::text::find_exec(c.as_slice(), comma.as_slice()) {
        Some(i) => {
            proof {
                crate::text::lemma_find_from_spec(c@, comma@, 0);
            }
            assert(i + 1 <= n);
            string_of(slice_chars(c.as_slice(), i + 1, n).as_slice())
        },
        None => String::from_str(s),
    }
}

/// The image entry for a resolved image: its data without the data-URL
/// header when images are returned inline, else its link.
pub open spec fn image_entry(base64: bool, link: Seq<char>) -> JsonV {
    if base64 {
        JsonV::Object(seq![("b64_json"@, JsonV::Str(after_comma(link)))])
    } else {
        JsonV::Object(seq![("url"@, JsonV::Str(link))])
    }
}

/// The image entries for the resolved images, in order; an image that
/// could not be fetched (`None`) gives none.
pub open spec fn image_entries(base64: bool, links: Seq<Option<Seq<char>>>) -> Seq<JsonV>
    decreases links.len(),
{
    if links.len() == 0 {
        Seq::empty()
    } else {
        let p = image_entries(base64, links.drop_last());
        match links.last() {
            Some(l) => p.push(image_entry(base64, l)),
            None => p,
        }
    }
}

pub open spec fn opt_links(links: Seq<Option<String>>) -> Seq<Option<Seq<char>>> {
    links.map_values(|l: Option<String>| opt_view(l))
}

fn push_image_entries(images: &mut Vec<Json>, base64: bool, links: &Vec<Option<String>>)
    ensures
        deep_seq(final(images)@) == deep_seq(old(images)@) + image_entries(base64, opt_links(links@)),
{
    let ghost start = deep_seq(images@);
    let ghost lv = opt_links(links@);
    let mut i: usize = 0;
    assert(start + image_entries(base64, lv.take(0)) =~= start);
    while i < links.len()
        invariant
            i <= links@.len(),
            lv == opt_links(links@),
            deep_seq(images@) == start + image_entries(base64, lv.take(i as int)),
        decreases links@.len() - i,
    {
        assert(lv.take(i + 1).drop_last() == lv.take(i as int));
        assert(lv.take(i + 1).last() == opt_view(links@[i as int]));
        if let Some(l) = &links[i] {
            let mut m: Vec<(String, Json)> = Vec::new();
            assert(deep_members(m@) =~= Seq::empty());
            if base64 {
                push_member(&mut m, "b64_json", Json::Str(after_comma_exec(l.as_str())));
            } else {
                push_member(&mut m, "url", Json::from_str(l.as_str()));
            }
            let e = Json::object(m);
            assert(e.deep() == image_entry(base64, l@));
            let ghost before = deep_seq(images@);
            push_element(images, e);
            assert(before.push(image_entry(base64, l@)) == start + image_entries(base64, lv.take(i + 1)));
        }
        i = i + 1;
    }
    assert(lv.take(i as int) == lv);
}

/// The image URLs of a document that the image replies bring in.
pub open spec fn image_reply_urls(data: JsonV) -> Seq<Seq<char>> {
    match response_of(data).get("modelResponse"@) {
        Some(mr) => generated_urls(mr),
        None => Seq::empty(),
    }
}

/// What a streaming image reply remembers.
pub struct ImageStreamState {
    pub n: nat,
    pub target_index: Option<nat>,
    pub return_base64: bool,
    pub images: Seq<JsonV>,
}

/// An event of a streaming image reply: its name and its data.
pub struct SseEvent {
    pub event: String,
    pub data: Json,
}

pub struct SseEventV {
    pub event: Seq<char>,
    pub data: JsonV,
}

impl View for SseEvent {
    type V = SseEventV;

    open spec fn view(&self) -> SseEventV {
        SseEventV { event: self.event@, data: self.data.deep() }
    }
}

pub open spec fn events_view(v: Seq<SseEvent>) -> Seq<SseEventV> {
    v.map_values(|e: SseEvent| e@)
}

/// The index of an image reported by the upstream, read as a `usize`.
pub open spec fn reported_index(img: JsonV) -> usize {
    int_or_zero(img, "imageIndex"@) as usize
}

/// Whether an image at `index` is kept: a single requested image keeps only
/// the one at the chosen index.
pub open spec fn keeps(st: ImageStreamState, index: nat) -> bool {
    !(st.n == 1 && st.target_index is Some && index != st.target_index.unwrap())
}

/// The index shown for a kept image.
pub open spec fn shown_index(st: ImageStreamState, index: nat) -> nat {
    if st.n == 1 {
        0
    } else {
        index
    }
}

/// The partial-image event for a progress report.
pub open spec fn partial_event(st: ImageStreamState, img: JsonV) -> SseEventV {
    let idx = reported_index(img) as nat;
    let blank = if st.return_base64 {
        "b64_json"@
    } else {
        "url"@
    };
    SseEventV {
        event: "image_generation.partial_image"@,
        data: JsonV::Object(
            seq![
                ("type"@, JsonV::Str("image_generation.partial_image"@)),
                ("index"@, count_json(shown_index(st, idx))),
                ("progress"@, JsonV::Int(int_or_zero(img, "progress"@))),
                (blank, JsonV::Str(Seq::empty())),
            ],
        ),
    }
}

/// The events and state after one upstream document.
pub open spec fn image_stream_step(st: ImageStreamState, data: JsonV, links: Seq<Option<Seq<char>>>) -> (
    ImageStreamState,
    Seq<SseEventV>,
) {
    let resp = response_of(data);
    match resp.get("streamingImageGenerationResponse"@) {
        Some(img) => if keeps(st, reported_index(img) as nat) {
            (st, seq![partial_event(st, img)])
        } else {
            (st, Seq::empty())
        },
        None => match resp.get("modelResponse"@) {
            Some(mr) => (
                ImageStreamState { images: st.images + image_entries(st.return_base64, links), ..st },
                Seq::empty(),
            ),
            None => (st, Seq::empty()),
        },
    }
}

/// The image URLs a streamed document makes the reply bring in.
pub open spec fn image_stream_urls(data: JsonV) -> Seq<Seq<char>> {
    if response_of(data).get("streamingImageGenerationResponse"@) is Some {
        Seq::empty()
    } else {
        image_reply_urls(data)
    }
}

pub open spec fn image_usage() -> JsonV {
    JsonV::Object(
        seq![
            ("total_tokens"@, JsonV::Int(50)),
            ("input_tokens"@, JsonV::Int(25)),
            ("output_tokens"@, JsonV::Int(25)),
            ("input_tokens_details"@, image_usage_details()),
        ],
    )
}

pub open spec fn image_usage_details() -> JsonV {
    JsonV::Object(seq![("text_tokens"@, JsonV::Int(5)), ("image_tokens"@, JsonV::Int(20))])
}

/// The members an image brings into its completed event.
pub open spec fn image_extras(image: JsonV) -> Seq<(Seq<char>, JsonV)> {
    let a = match str_at(image, "b64_json"@) {
        Some(b) => seq![("b64_json"@, JsonV::Str(b))],
        None => Seq::empty(),
    };
    let b = match str_at(image, "url"@) {
        Some(u) => seq![("url"@, JsonV::Str(u))],
        None => Seq::empty(),
    };
    a + b
}

/// The completed event for the image at `index`.
pub open spec fn completed_event(st: ImageStreamState, index: nat, image: JsonV) -> SseEventV {
    SseEventV {
        event: "image_generation.completed"@,
        data: JsonV::Object(
            seq![
                ("type"@, JsonV::Str("image_generation.completed"@)),
                ("index"@, count_json(shown_index(st, index))),
                ("usage"@, image_usage()),
            ] + image_extras(image),
        ),
    }
}

/// The completed events for the first `k` images.
pub open spec fn completed_events(st: ImageStreamState, k: nat) -> Seq<SseEventV>
    decreases k,
{
    if k == 0 {
        Seq::empty()
    } else {
        let p = completed_events(st, (k - 1) as nat);
        if keeps(st, (k - 1) as nat) {
            p.push(completed_event(st, (k - 1) as nat, st.images[k - 1]))
        } else {
            p
        }
    }
}

/// A streaming image reply in progress.
pub struct ImageStreamProcessor {
    base: BaseProcessor,
    n: usize,
    target_index: Option<usize>,
    return_base64: bool,
    images: Vec<Json>,
}

impl View for ImageStreamProcessor {
    type V = ImageStreamState;

    closed spec fn view(&self) -> ImageStreamState {
        ImageStreamState {
            n: self.n as nat,
            target_index: match self.target_index {
                Some(t) => Some(t as nat),
                None => None,
            },
            return_base64: self.return_base64,
            images: deep_seq(self.images@),
        }
    }
}

fn image_usage_json() -> (r: Json)
    ensures
        r.deep() == image_usage(),
{
    let mut d: Vec<(String, Json)> = Vec::new();
    assert(deep_members(d@) =~= Seq::empty());
    push_member(&mut d, "text_tokens", Json::Int(5));
    push_member(&mut d, "image_tokens", Json::Int(20));
    assert(deep_members(d@) =~= image_usage_details()->Object_0);
    let dj = Json::object(d);
    let mut m: Vec<(String, Json)> = Vec::new();
    assert(deep_members(m@) =~= Seq::empty());
    push_member(&mut m, "total_tokens", Json::Int(50));
    push_member(&mut m, "input_tokens", Json::Int(25));
    push_member(&mut m, "output_tokens", Json::Int(25));
    push_member(&mut m, "input_tokens_details", dj);
    assert(deep_members(m@) =~= image_usage()->Object_0);
    Json::object(m)
}

impl ImageStreamProcessor {
    pub closed spec fn base_view(&self) -> BaseProcessor {
        self.base
    }

    /// A streaming image reply for `n` images, with `draw` the random number
    /// that picks, when one image is asked for, which of the two the
    /// upstream makes is kept: the first for an even draw, the second for an
    /// odd one.
    pub fn with_draw(
        model: &str,
        token: &str,
        n: usize,
        return_base64: bool,
        app_url: &str,
        draw: usize,
    ) -> (r: ImageStreamProcessor)
        ensures
            r.base_view().model@ == model@,
            r.base_view().token@ == token@,
            r.base_view().app_url@ == app_url@,
            r@.n == n,
            r@.return_base64 == return_base64,
            r@.images.len() == 0,
            n == 1 ==> r@.target_index == Some((draw % 2) as nat),
            n != 1 ==> r@.target_index is None,
    {
        let target_index = if n == 1 {
            Some(draw % 2)
        } else {
            None
        };
        let r = ImageStreamProcessor {
            base: BaseProcessor::new(model, token, app_url),
            n,
            target_index,
            return_base64,
            images: Vec::new(),
        };
        assert(deep_seq(r.images@) =~= Seq::empty());
        r
    }

    /// A streaming image reply for `n` images. When one image is asked for,
    /// one of the two the upstream makes is picked at random.
    pub fn new(model: &str, token: &str, n: usize, return_base64: bool, app_url: &str) -> (r: ImageStreamProcessor)
        ensures
            r.base_view().model@ == model@,
            r.base_view().token@ == token@,
            r.base_view().app_url@ == app_url@,
            r@.n == n,
            r@.return_base64 == return_base64,
            r@.images.len() == 0,
            n == 1 ==> (r@.target_index matches Some(t) && t < 2),
            n != 1 ==> r@.target_index is None,
    {
        let draw = if n == 1 {
            crate::ext::random_usize()
        } else {
            0
        };
        Self::with_draw(model, token, n, return_base64, app_url, draw)
    }

    /// The common part of the processor.
    pub fn base(&self) -> (r: &BaseProcessor)
        ensures
            *r == self.base_view(),
    {
        &self.base
    }

    /// The generated images a document shows, in order; the caller fetches
    /// each (`None` when an inline image cannot be fetched) before handing
    /// the document to [`Self::on_data`].
    pub fn image_urls(data: &Json) -> (r: Vec<String>)
        ensures
            link_views(r@) == image_stream_urls(data.deep()),
    {
        let resp = response_in(data);
        if field(resp, "streamingImageGenerationResponse").is_some() {
            let r: Vec<String> = Vec::new();
            assert(link_views(r@) =~= Seq::empty());
            return r;
        }
        match field(resp, "modelResponse") {
            Some(mr) => generated_image_urls(Some(mr)),
            None => {
                let r: Vec<String> = Vec::new();
                assert(link_views(r@) =~= Seq::empty());
                r
            },
        }
    }

    fn keeps_exec(&self, index: usize) -> (b: bool)
        ensures
            b == keeps(self@, index as nat),
    {
        !(self.n == 1 && match self.target_index {
            Some(t) => index != t,
            None => false,
        })
    }

    /// The events answering one upstream document, with `links` the fetched
    /// images it shows.
    pub fn on_data(&mut self, data: &Json, links: &Vec<Option<String>>) -> (r: Vec<SseEvent>)
        requires
            links@.len() == image_stream_urls(data.deep()).len(),
        ensures
            final(self)@ == image_stream_step(old(self)@, data.deep(), opt_links(links@)).0,
            events_view(r@) == image_stream_step(old(self)@, data.deep(), opt_links(links@)).1,
            final(self).base_view() == old(self).base_view(),
    {
        let resp = response_in(data);
        let mut out: Vec<SseEvent> = Vec::new();
        assert(events_view(out@) =~= Seq::empty());
        if let Some(img) = field(resp, "streamingImageGenerationResponse") {
            let raw = match int_field(Some(img), "imageIndex") {
                Some(i) => i,
                None => 0,
            };
            let index = raw as usize;
            assert(index == reported_index(img.deep()));
            let progress = match int_field(Some(img), "progress") {
                Some(p) => p,
                None => 0,
            };
            if !self.keeps_exec(index) {
                return out;
            }
            let shown = if self.n == 1 {
                0
            } else {
                index
            };
            let mut m: Vec<(String, Json)> = Vec::new();
            assert(deep_members(m@) =~= Seq::empty());
            push_member(&mut m, "type", Json::from_str("image_generation.partial_image"));
            push_member(&mut m, "index", count_json_exec(shown));
            push_member(&mut m, "progress", Json::Int(progress));
            proof {
                lemma_empty_lit();
            }
            if self.return_base64 {
                push_member(&mut m, "b64_json", Json::from_str(""));
            } else {
                push_member(&mut m, "url", Json::from_str(""));
            }
            let ghost want = partial_event(self@, img.deep());
            assert(deep_members(m@) =~= want.data->Object_0);
            let e = SseEvent {
                event: String::from_str("image_generation.partial_image"),
                data: Json::object(m),
            };
            out.push(e);
            assert(events_view(out@) =~= seq![want]);
            return out;
        }
        if field(resp, "modelResponse").is_some() {
            push_image_entries(&mut self.images, self.return_base64, links);
        }
        out
    }

    /// The completed events, one per kept image, sent when the upstream
    /// stream ends.
    pub fn finish(&self) -> (r: Vec<SseEvent>)
        ensures
            events_view(r@) == completed_events(self@, self@.images.len()),
    {
        let mut out: Vec<SseEvent> = Vec::new();
        let mut i: usize = 0;
        assert(events_view(out@) =~= Seq::empty());
        while i < self.images.len()
            invariant
                i <= self.images@.len(),
                events_view(out@) == completed_events(self@, i as nat),
            decreases self.images@.len() - i,
        {
            if self.keeps_exec(i) {
                let shown = if self.n == 1 {
                    0
                } else {
                    i
                };
                let image = &self.images[i];
                let ghost iv = image.deep();
                assert(self@.images[i as int] == iv);
                let mut m: Vec<(String, Json)> = Vec::new();
                assert(deep_members(m@) =~= Seq::empty());
                push_member(&mut m, "type", Json::from_str("image_generation.completed"));
                push_member(&mut m, "index", count_json_exec(shown));
                push_member(&mut m, "usage", image_usage_json());
                let ghost head = deep_members(m@);
                if let Some(b) = str_field(Some(image), "b64_json") {
                    push_member(&mut m, "b64_json", Json::from_str(b));
                }
                if let Some(u) = str_field(Some(image), "url") {
                    push_member(&mut m, "url", Json::from_str(u));
                }
                let ghost want = completed_event(self@, i as nat, iv);
                assert(deep_members(m@) =~= head + image_extras(iv));
                assert(deep_members(m@) =~= want.data->Object_0);
                let e = SseEvent {
                    event: String::from_str("image_generation.completed"),
                    data: Json::object(m),
                };
                let ghost before = out@;
                out.push(e);
                assert(events_view(out@) =~= events_view(before).push(want));
            }
            i = i + 1;
        }
        out
    }
}

// ---------------------------------------------------------------------------
// Collected image replies
// ---------------------------------------------------------------------------

/// A collected image reply in progress.
pub struct ImageCollectProcessor {
    base: BaseProcessor,
    return_base64: bool,
    images: Vec<Json>,
}

impl ImageCollectProcessor {
    pub closed spec fn base_view(&self) -> BaseProcessor {
        self.base
    }

    pub closed spec fn base64_view(&self) -> bool {
        self.return_base64
    }

    /// The images gathered so far.
    pub closed spec fn images_view(&self) -> Seq<JsonV> {
        deep_seq(self.images@)
    }

    /// A collected image reply.
    pub fn new(model: &str, token: &str, return_base64: bool, app_url: &str) -> (r: ImageCollectProcessor)
        ensures
            r.base_view().model@ == model@,
            r.base_view().token@ == token@,
            r.base_view().app_url@ == app_url@,
            r.base64_view() == return_base64,
            r.images_view().len() == 0,
    {
        let r = ImageCollectProcessor {
            base: BaseProcessor::new(model, token, app_url),
            return_base64,
            images: Vec::new(),
        };
        assert(deep_seq(r.images@) =~= Seq::empty());
        r
    }

    /// The common part of the processor.
    pub fn base(&self) -> (r: &BaseProcessor)
        ensures
            *r == self.base_view(),
    {
        &self.base
    }

    /// The generated images a document shows, in order; the caller fetches
    /// each (`None` when an inline image cannot be fetched) before handing
    /// the document to [`Self::on_data`].
    pub fn image_urls(data: &Json) -> (r: Vec<String>)
        ensures
            link_views(r@) == image_reply_urls(data.deep()),
    {
        let resp = response_in(data);
        match field(resp, "modelResponse") {
            Some(mr) => generated_image_urls(Some(mr)),
            None => {
                let r: Vec<String> = Vec::new();
                assert(link_views(r@) =~= Seq::empty());
                r
            },
        }
    }

    /// Gathers the images of one upstream document, with `links` the
    /// fetched images it shows.
    pub fn on_data(&mut self, data: &Json, links: &Vec<Option<String>>)
        requires
            links@.len() == image_reply_urls(data.deep()).len(),
        ensures
            final(self).images_view() == if response_of(data.deep()).get("modelResponse"@) is Some {
                old(self).images_view() + image_entries(old(self).base64_view(), opt_links(links@))
            } else {
                old(self).images_view()
            },
            final(self).base_view() == old(self).base_view(),
            final(self).base64_view() == old(self).base64_view(),
    {
        let resp = response_in(data);
        if field(resp, "modelResponse").is_some() {
            push_image_entries(&mut self.images, self.return_base64, links);
        }
    }

    /// The gathered images.
    pub fn finish(self) -> (r: Vec<Json>)
        ensures
            deep_seq(r@) == self.images_view(),
    {
        self.images
    }
}

// ---------------------------------------------------------------------------
// Laws of the reply processors
// ---------------------------------------------------------------------------

/// Once content has been sent, an upstream failure adds no error text: the
/// closing chunks are the `</think>` chunk when a thinking block is open,
/// then the stop chunk.
pub proof fn lemma_no_error_text_after_content(st: StreamState)
    requires
        st.has_content,
    ensures
        stream_finish(st) == (if st.think_opened {
            seq![
                DeltaS {
                    rid: st.response_id,
                    fingerprint: st.fingerprint,
                    content: Some("</think>\n"@),
                    role: None,
                    finish: None,
                },
            ]
        } else {
            Seq::<DeltaS>::empty()
        }).push(
            DeltaS {
                rid: st.response_id,
                fingerprint: st.fingerprint,
                content: None,
                role: None,
                finish: Some("stop"@),
            },
        ),
{
    let a = if st.think_opened {
        seq![say(st, "</think>\n"@)]
    } else {
        Seq::empty()
    };
    assert(a + Seq::<DeltaS>::empty() + seq![stop_s(st.response_id, st.fingerprint)] =~= a.push(
        stop_s(st.response_id, st.fingerprint),
    ));
}

/// When the upstream failed before any content was sent, the reply says so:
/// one closing chunk carries the error text with the failure's message, and
/// the stop chunk comes last.
pub proof fn lemma_error_text_without_content(st: StreamState, err: Seq<char>)
    requires
        !st.has_content,
        st.stream_error == Some(err),
    ensures
        exists|i: int|
            0 <= i < stream_finish(st).len() - 1 && (#[trigger] stream_finish(st)[i]).content == Some(
                "[upstream error] 上游连接中断，未收到有效响应: "@ + err,
            ),
        stream_finish(st).last().finish == Some("stop"@),
{
    let f = stream_finish(st);
    let a: int = if st.think_opened {
        1
    } else {
        0
    };
    let r: int = if st.role_sent {
        0
    } else {
        1
    };
    assert(f[a + r].content == Some("[upstream error] 上游连接中断，未收到有效响应: "@ + err));
}

/// With thinking shown, every video progress report shows its progress,
/// whatever it is: after the role chunk (when not yet sent) and the opening
/// of the thinking block (when it was closed) comes the line
/// `正在生成视频中，当前进度{p}%`.
pub proof fn lemma_video_progress_shown(st: VideoState, data: JsonV, vr: JsonV)
    requires
        st.show_think,
        response_of(data).get("streamingVideoGenerationResponse"@) == Some(vr),
    ensures
        ({
            let out = video_step(st, data).1;
            let k: int = (if st.role_sent {
                0int
            } else {
                1int
            }) + (if st.think_opened {
                0int
            } else {
                1int
            });
            &&& out.len() > k
            &&& out[k].content == Some(
                "正在生成视频中，当前进度"@ + dec_int(int_or_zero(vr, "progress"@)) + "%\n"@,
            )
            &&& !st.think_opened ==> out[k - 1].content == Some("<think>\n"@)
            &&& !st.role_sent ==> out[0].role == Some("assistant"@)
        }),
{
}

proof fn lemma_completed_event_index(st: ImageStreamState, index: nat, image: JsonV)
    ensures
        completed_event(st, index, image).data.get("index"@) == Some(count_json(shown_index(st, index))),
{
    reveal_strlit("type");
    reveal_strlit("index");
    let m = seq![
        ("type"@, JsonV::Str("image_generation.completed"@)),
        ("index"@, count_json(shown_index(st, index))),
        ("usage"@, image_usage()),
    ] + image_extras(image);
    assert(m[0].0 == "type"@);
    assert(m[0].0 != "index"@);
    assert(m[1].0 == "index"@);
    assert(crate::json::member(m, "index"@, 0) == crate::json::member(m, "index"@, 1));
}

/// When more than one image is asked for, every image gets its completed
/// event, in order, and the event for the image at position `i` carries
/// index `i`.
pub proof fn lemma_completed_indices(st: ImageStreamState, k: nat)
    requires
        st.n != 1,
    ensures
        completed_events(st, k).len() == k,
        forall|i: int|
            0 <= i < k && i <= i64::MAX ==> (#[trigger] completed_events(st, k)[i]).data.get(
                "index"@,
            ) == Some(JsonV::Int(i)),
        forall|i: int|
            0 <= i < k ==> (#[trigger] completed_events(st, k)[i]).event
                == "image_generation.completed"@,
    decreases k,
{
    if k > 0 {
        let j = (k - 1) as nat;
        lemma_completed_indices(st, j);
        lemma_completed_event_index(st, j, st.images[j as int]);
        let p = completed_events(st, j);
        assert forall|i: int| 0 <= i < j implies #[trigger] completed_events(st, k)[i] == p[i] by {}
    }
}

} // verus!
