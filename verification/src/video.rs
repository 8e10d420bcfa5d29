//! The public video page: the settings a generation starts with, the
//! messages it sends, and the relay of the reply as server-sent events.

use vstd::prelude::*;
use crate::text::{chars_of, contains, contains_exec, string_of, strip_prefix, trim, trim_exec};
use crate::json::{deep_members, deep_seq, push_element, push_member, Json, JsonV};
use crate::tools::{split_char, split_chars, views_of};
use crate::ext::{lowercase_of, to_lowercase};

verus! {

/// The aspect ratio a video is made with: a pixel size is read as its
/// ratio, a known ratio stays, anything else is `16:9`.
pub open spec fn aspect_ratio_for(input: Seq<char>) -> Seq<char> {
    if input == "1280x720"@ {
        "16:9"@
    } else if input == "720x1280"@ {
        "9:16"@
    } else if input == "3:2"@ || input == "2:3"@ || input == "16:9"@ || input == "9:16"@ || input
        == "1:1"@ {
        input
    } else {
        "16:9"@
    }
}

/// The aspect ratio a video is made with.
pub fn normalize_aspect_ratio(input: &str) -> (r: String)
    ensures
        r@ == aspect_ratio_for(input@),
{
    if crate::text::str_eq(input, "1280x720") {
        String::from_str("16:9")
    } else if crate::text::str_eq(input, "720x1280") {
        String::from_str("9:16")
    } else if crate::text::str_eq(input, "3:2") || crate::text::str_eq(input, "2:3")
        || crate::text::str_eq(input, "16:9") || crate::text::str_eq(input, "9:16")
        || crate::text::str_eq(input, "1:1") {
        String::from_str(input)
    } else {
        String::from_str("16:9")
    }
}

/// The resolution for a lower-cased name: `SD` for `480p` or `sd`, `HD`
/// otherwise.
pub open spec fn resolution_of_lower(lower: Seq<char>) -> Seq<char> {
    if lower == "480p"@ || lower == "sd"@ {
        "SD"@
    } else {
        "HD"@
    }
}

/// The resolution a video is made with: `SD` for `480p` or `sd` in any
/// case, `HD` otherwise.
pub open spec fn resolution_for(name: Seq<char>) -> Seq<char> {
    resolution_of_lower(lowercase_of(name))
}

/// The resolution for a name already lower-cased.
pub fn resolution_for_lower(lower: &str) -> (r: &'static str)
    ensures
        r@ == resolution_of_lower(lower@),
{
    if crate::text::str_eq(lower, "480p") || crate::text::str_eq(lower, "sd") {
        "SD"
    } else {
        "HD"
    }
}

/// The resolution a video is made with. For a name of ASCII characters
/// the case of its letters does not matter.
pub fn normalize_resolution(name: &str) -> (r: &'static str)
    ensures
        r@ == resolution_for(name@),
        (forall|i: int| 0 <= i < name@.len() ==> (#[trigger] name@[i] as u32) < 128) ==> r@
            == resolution_of_lower(crate::text::ascii_lower_seq(name@)),
{
    let lower = to_lowercase(name);
    resolution_for_lower(lower.as_str())
}

/// The length of a video in seconds: 6, 10 or 15 as asked, 6 otherwise.
pub open spec fn length_for(requested: Option<i32>) -> i32 {
    match requested {
        Some(v) => if v == 6 || v == 10 || v == 15 {
            v
        } else {
            6
        },
        None => 6,
    }
}

/// The length of a video in seconds.
pub fn normalize_video_length(requested: Option<i32>) -> (r: i32)
    ensures
        r == length_for(requested),
{
    match requested {
        Some(v) => if v == 6 || v == 10 || v == 15 {
            v
        } else {
            6
        },
        None => 6,
    }
}

/// What a video generation starts with.
pub struct VideoSession {
    pub prompt: String,
    pub aspect_ratio: String,
    pub video_length: i32,
    pub resolution_name: String,
    pub preset: String,
    pub image_url: Option<String>,
    pub reasoning_effort: Option<String>,
}

pub open spec fn or_default(o: Option<&str>, d: Seq<char>) -> Seq<char> {
    match o {
        Some(s) => s@,
        None => d,
    }
}

impl VideoSession {
    /// The session a start request opens: the aspect ratio normalized
    /// (`16:9` by default), the length normalized, `720p` and `normal` as
    /// default resolution and preset.
    pub fn from_request(
        prompt: String,
        aspect_ratio: Option<&str>,
        video_length: Option<i32>,
        resolution_name: Option<&str>,
        preset: Option<&str>,
        image_url: Option<String>,
        reasoning_effort: Option<String>,
    ) -> (r: VideoSession)
        ensures
            r.prompt@ == prompt@,
            r.aspect_ratio@ == aspect_ratio_for(or_default(aspect_ratio, "16:9"@)),
            r.video_length == length_for(video_length),
            r.resolution_name@ == or_default(resolution_name, "720p"@),
            r.preset@ == or_default(preset, "normal"@),
            r.image_url == image_url,
            r.reasoning_effort == reasoning_effort,
    {
        let ar = match aspect_ratio {
            Some(a) => normalize_aspect_ratio(a),
            None => normalize_aspect_ratio("16:9"),
        };
        VideoSession {
            prompt,
            aspect_ratio: ar,
            video_length: normalize_video_length(video_length),
            resolution_name: String::from_str(
                match resolution_name {
                    Some(r) => r,
                    None => "720p",
                },
            ),
            preset: String::from_str(
                match preset {
                    Some(p) => p,
                    None => "normal",
                },
            ),
            image_url,
            reasoning_effort,
        }
    }
}

/// The user message of a video generation: the prompt, with the reference
/// image when there is one.
pub open spec fn video_message(prompt: Seq<char>, image_url: Option<Seq<char>>) -> JsonV {
    match image_url {
        Some(url) => JsonV::Object(
            seq![
                ("role"@, JsonV::Str("user"@)),
                ("content"@, JsonV::Array(seq![text_item(prompt), image_item(url)])),
            ],
        ),
        None => JsonV::Object(seq![("role"@, JsonV::Str("user"@)), ("content"@, JsonV::Str(prompt))]),
    }
}

pub open spec fn text_item(text: Seq<char>) -> JsonV {
    JsonV::Object(seq![("type"@, JsonV::Str("text"@)), ("text"@, JsonV::Str(text))])
}

pub open spec fn image_item(url: Seq<char>) -> JsonV {
    JsonV::Object(
        seq![
            ("type"@, JsonV::Str("image_url"@)),
            ("image_url"@, JsonV::Object(seq![("url"@, JsonV::Str(url))])),
        ],
    )
}

/// The messages a video generation sends.
pub fn video_messages(prompt: &str, image_url: Option<&str>) -> (r: Vec<Json>)
    ensures
        deep_seq(r@) == seq![video_message(prompt@, match image_url {
            Some(u) => Some(u@),
            None => None,
        })],
{
    let mut m: Vec<(String, Json)> = Vec::new();
    assert(deep_members(m@) =~= Seq::empty());
    push_member(&mut m, "role", Json::from_str("user"));
    match image_url {
        Some(url) => {
            let mut t: Vec<(String, Json)> = Vec::new();
            assert(deep_members(t@) =~= Seq::empty());
            push_member(&mut t, "type", Json::from_str("text"));
            push_member(&mut t, "text", Json::from_str(prompt));
            assert(deep_members(t@) =~= text_item(prompt@)->Object_0);
            let mut u: Vec<(String, Json)> = Vec::new();
            assert(deep_members(u@) =~= Seq::empty());
            push_member(&mut u, "url", Json::from_str(url));
            let mut i: Vec<(String, Json)> = Vec::new();
            assert(deep_members(i@) =~= Seq::empty());
            push_member(&mut i, "type", Json::from_str("image_url"));
            push_member(&mut i, "image_url", Json::object(u));
            assert(deep_members(i@) =~= image_item(url@)->Object_0);
            let tj = Json::object(t);
            assert(tj.deep() == text_item(prompt@));
            let ij = Json::object(i);
            assert(ij.deep() == image_item(url@));
            let mut content: Vec<Json> = Vec::new();
            assert(deep_seq(content@) =~= Seq::empty());
            push_element(&mut content, tj);
            push_element(&mut content, ij);
            assert(deep_seq(content@) =~= seq![text_item(prompt@), image_item(url@)]);
            let c = Json::array(content);
            assert(c.deep() == JsonV::Array(seq![text_item(prompt@), image_item(url@)]));
            push_member(&mut m, "content", c);
        },
        None => {
            push_member(&mut m, "content", Json::from_str(prompt));
        },
    }
    let ghost want = video_message(prompt@, match image_url {
        Some(u) => Some(u@),
        None => None,
    });
    assert(deep_members(m@) =~= want->Object_0);
    let msg = Json::object(m);
    let mut r: Vec<Json> = Vec::new();
    assert(deep_seq(r@) =~= Seq::empty());
    push_element(&mut r, msg);
    assert(deep_seq(r@) =~= seq![want]);
    r
}

// ---------------------------------------------------------------------------
// Relaying a streamed reply
// ---------------------------------------------------------------------------

/// A line without the carriage return that may end it.
pub open spec fn strip_cr_chars(l: Seq<char>) -> Seq<char> {
    if l.len() > 0 && l.last() == '\r' {
        l.drop_last()
    } else {
        l
    }
}

/// `str::lines`: the pieces between line feeds, each without a carriage
/// return before its line feed; a final empty piece is no line.
pub open spec fn text_lines(s: Seq<char>) -> Seq<Seq<char>> {
    let p = split_char(s, '\n');
    let body = Seq::new((p.len() - 1) as nat, |i: int| strip_cr_chars(p[i]));
    if p.len() == 0 || p.last().len() == 0 {
        body
    } else {
        body.push(p.last())
    }
}

/// The data lines of a list of lines, without their `data: ` prefix.
pub open spec fn data_lines(lines: Seq<Seq<char>>) -> Seq<Seq<char>>
    decreases lines.len(),
{
    if lines.len() == 0 {
        Seq::empty()
    } else {
        let p = data_lines(lines.drop_last());
        match strip_prefix(lines.last(), "data: "@) {
            Some(d) => p.push(d),
            None => p,
        }
    }
}

/// The events a piece of the reply stream is relayed as: the data of its
/// `data: ` lines when it has any, else the piece itself unless it is
/// blank.
pub open spec fn relayed(text: Seq<char>) -> Seq<Seq<char>> {
    if contains(text, "data: "@) {
        data_lines(text_lines(text))
    } else if trim(text).len() > 0 {
        seq![text]
    } else {
        Seq::empty()
    }
}

pub open spec fn strings_view(v: Seq<String>) -> Seq<Seq<char>> {
    v.map_values(|s: String| s@)
}

/// The events a piece of the reply stream is relayed as.
pub fn relay_events(text: &str) -> (r: Vec<String>)
    ensures
        strings_view(r@) == relayed(text@),
{
    let t = chars_of(text);
    let mut out: Vec<String> = Vec::new();
    assert(strings_view(out@) =~= Seq::empty());
    if contains_exec(t.as_slice(), chars_of("data: ").as_slice()) {
        let parts = split_chars(t.as_slice(), '\n');
        let ghost p = views_of(parts@);
        let n = parts.len();
        let ghost lines = text_lines(text@);
        let last_empty = parts[n - 1].len() == 0;
        let count = if last_empty {
            n - 1
        } else {
            n
        };
        assert(lines.len() == count);
        let mut i: usize = 0;
        let prefix = chars_of("data: ");
        while i < count
            invariant
                i <= count,
                count <= n,
                n == parts@.len(),
                n >= 1,
                p == views_of(parts@),
                p == split_char(text@, '\n'),
                lines == text_lines(text@),
                lines.len() == count,
                prefix@ == "data: "@,
                strings_view(out@) == data_lines(lines.take(i as int)),
            decreases count - i,
        {
            let mut line: Vec<char> = Vec::new();
            crate::text::extend(&mut line, parts[i].as_slice());
            assert(p[i as int] == parts@[i as int]@);
            if i < n - 1 && line.len() > 0 && line[line.len() - 1] == '\r' {
                line.pop();
            }
            assert(line@ == lines[i as int]);
            assert(lines.take(i + 1).drop_last() == lines.take(i as int));
            assert(lines.take(i + 1).last() == lines[i as int]);
            if crate::text::starts_with_exec(line.as_slice(), prefix.as_slice()) {
                let d = crate::text::slice_chars(line.as_slice(), prefix.len(), line.len());
                let ghost before = out@;
                out.push(string_of(d.as_slice()));
                assert(strings_view(out@) =~= strings_view(before).push(d@));
            }
            i = i + 1;
        }
        assert(lines.take(i as int) == lines);
    } else if trim_exec(t.as_slice()).len() > 0 {
        out.push(String::from_str(text));
        assert(strings_view(out@) =~= seq![text@]);
    }
    out
}

} // verus!
