//! Image editing: the asset links of uploaded images, the post an edit
//! refers to, and the settings sent with an edit request.

use vstd::prelude::*;
use crate::text::{chars_of, extend, extend_str, starts_with, starts_with_exec, string_of, trim_start_char, trim_start_char_exec};
use crate::json::{deep_members, deep_seq, push_element, push_member, Json, JsonV};
use crate::tools::{split_char, split_chars, views_of};
use crate::errors::{err_v, ApiError, ErrorKind};

verus! {

/// The number of bytes of `c` in UTF-8.
pub open spec fn char_utf8_len(c: char) -> nat {
    let n = c as u32;
    if n < 0x80 {
        1
    } else if n < 0x800 {
        2
    } else if n < 0x10000 {
        3
    } else {
        4
    }
}

/// The number of bytes of `s` in UTF-8.
pub open spec fn utf8_len(s: Seq<char>) -> nat
    decreases s.len(),
{
    if s.len() == 0 {
        0
    } else {
        utf8_len(s.drop_last()) + char_utf8_len(s.last())
    }
}

fn utf8_len_exec(s: &[char]) -> (n: u128)
    ensures
        n == utf8_len(s@),
{
    let mut n: u128 = 0;
    let mut i: usize = 0;
    while i < s.len()
        invariant
            i <= s@.len(),
            n == utf8_len(s@.take(i as int)),
            n <= 4 * i,
        decreases s@.len() - i,
    {
        assert(s@.take(i + 1).drop_last() == s@.take(i as int));
        let c = s[i] as u32;
        let k: u128 = if c < 0x80 {
            1
        } else if c < 0x800 {
            2
        } else if c < 0x10000 {
            3
        } else {
            4
        };
        n = n + k;
        i = i + 1;
    }
    assert(s@.take(i as int) == s@);
    n
}

/// The piece after the first piece `prefix` at or after position `i`
/// whose next piece has the length of an id (32 to 36 bytes).
pub open spec fn id_after(parts: Seq<Seq<char>>, prefix: Seq<char>, i: int) -> Option<Seq<char>>
    decreases parts.len() - i,
{
    if i < 0 || i >= parts.len() {
        None
    } else if parts[i] == prefix && i + 1 < parts.len() && 32 <= utf8_len(parts[i + 1]) <= 36 {
        Some(parts[i + 1])
    } else {
        id_after(parts, prefix, i + 1)
    }
}

/// The id that follows the path piece `prefix` in `url`.
pub open spec fn url_id(url: Seq<char>, prefix: Seq<char>) -> Option<Seq<char>> {
    id_after(split_char(url, '/'), prefix, 0)
}

/// The id that follows the path piece `prefix_segment` in `url`: the next
/// piece, when it is 32 to 36 bytes long (the length of a UUID).
pub fn extract_id_from_url(url: &str, prefix_segment: &str) -> (r: Option<String>)
    ensures
        r matches Some(id) ==> url_id(url@, prefix_segment@) == Some(id@),
        r is None ==> url_id(url@, prefix_segment@) is None,
{
    let parts = split_chars(chars_of(url).as_slice(), '/');
    let ghost pv = views_of(parts@);
    let prefix = chars_of(prefix_segment);
    let n = parts.len();
    let mut i: usize = 0;
    while i < n
        invariant
            i <= n,
            n == parts@.len(),
            pv == views_of(parts@),
            pv == split_char(url@, '/'),
            prefix@ == prefix_segment@,
            id_after(pv, prefix_segment@, i as int) == url_id(url@, prefix_segment@),
        decreases n - i,
    {
        assert(pv[i as int] == parts@[i as int]@);
        if crate::text::eq_chars(parts[i].as_slice(), prefix.as_slice()) && i + 1 < n {
            assert(pv[i + 1] == parts@[i + 1]@);
            let len = utf8_len_exec(parts[i + 1].as_slice());
            if 32 <= len && len <= 36 {
                return Some(string_of(parts[i + 1].as_slice()));
            }
        }
        i = i + 1;
    }
    None
}

/// The asset link of an uploaded file: its URI when it is a URL, else the
/// URI on the asset host.
pub open spec fn uploaded_link(file_uri: Seq<char>) -> Seq<char> {
    if starts_with(file_uri, "http"@) {
        file_uri
    } else {
        "https://assets.grok.com/"@ + trim_start_char(file_uri, '/')
    }
}

/// The post an edit refers to, read from the image links: the id after a
/// `generated` piece, else after a `users` piece, of the first link that
/// has one; empty when none has.
pub open spec fn post_id_from_links(urls: Seq<Seq<char>>) -> Seq<char>
    decreases urls.len(),
{
    if urls.len() == 0 {
        Seq::empty()
    } else {
        match url_id(urls[0], "generated"@) {
            Some(id) => id,
            None => match url_id(urls[0], "users"@) {
                Some(id) => id,
                None => post_id_from_links(urls.skip(1)),
            },
        }
    }
}

/// The settings of an edit: the imagine edit model with the image links,
/// and the parent post when there is one.
pub open spec fn edit_model_config(urls: Seq<Seq<char>>, parent_post_id: Seq<char>) -> JsonV {
    JsonV::Object(seq![("modelMap"@, edit_model_map(urls, parent_post_id))])
}

pub open spec fn edit_model_map(urls: Seq<Seq<char>>, parent_post_id: Seq<char>) -> JsonV {
    JsonV::Object(
        seq![
            ("imageEditModel"@, JsonV::Str("imagine"@)),
            ("imageEditModelConfig"@, edit_config(urls, parent_post_id)),
        ],
    )
}

pub open spec fn edit_config(urls: Seq<Seq<char>>, parent_post_id: Seq<char>) -> JsonV {
    JsonV::Object(
        seq![("imageReferences"@, JsonV::Array(Seq::new(urls.len(), |i: int| JsonV::Str(urls[i]))))]
            + if parent_post_id.len() > 0 {
            seq![("parentPostId"@, JsonV::Str(parent_post_id))]
        } else {
            Seq::empty()
        },
    )
}

/// The tool settings of an edit request.
pub open spec fn edit_tools() -> JsonV {
    JsonV::Object(seq![("imageGen"@, JsonV::Bool(true))])
}

pub open spec fn links_view(v: Seq<String>) -> Seq<Seq<char>> {
    v.map_values(|s: String| s@)
}

/// Image editing.
pub struct ImageEditService;

impl ImageEditService {
    /// The asset link of an uploaded file.
    pub fn uploaded_link(file_uri: &str) -> (r: String)
        ensures
            r@ == uploaded_link(file_uri@),
    {
        let u = chars_of(file_uri);
        if starts_with_exec(u.as_slice(), chars_of("http").as_slice()) {
            String::from_str(file_uri)
        } else {
            let mut r = chars_of("https://assets.grok.com/");
            extend(&mut r, trim_start_char_exec(u.as_slice(), '/').as_slice());
            string_of(r.as_slice())
        }
    }

    /// The links of the uploaded images; an edit without any is refused.
    pub fn checked_uploads(image_urls: Vec<String>) -> (r: Result<Vec<String>, ApiError>)
        ensures
            image_urls@.len() == 0 ==> (r matches Err(e) && e@ == err_v(ErrorKind::Server, "Image upload failed"@)),
            image_urls@.len() > 0 ==> r == Ok::<Vec<String>, ApiError>(image_urls),
    {
        if image_urls.len() == 0 {
            Err(ApiError::server("Image upload failed"))
        } else {
            Ok(image_urls)
        }
    }

    /// The post an edit refers to, read from the image links.
    pub fn parent_post_id_from_urls(image_urls: &Vec<String>) -> (r: String)
        ensures
            r@ == post_id_from_links(links_view(image_urls@)),
    {
        let ghost lv = links_view(image_urls@);
        let mut i: usize = 0;
        assert(lv.skip(0) == lv);
        while i < image_urls.len()
            invariant
                i <= image_urls@.len(),
                lv == links_view(image_urls@),
                post_id_from_links(lv.skip(i as int)) == post_id_from_links(lv),
            decreases image_urls@.len() - i,
        {
            assert(lv.skip(i as int)[0] == image_urls@[i as int]@);
            assert(lv.skip(i as int).skip(1) == lv.skip(i + 1));
            if let Some(id) = extract_id_from_url(image_urls[i].as_str(), "generated") {
                return id;
            }
            if let Some(id) = extract_id_from_url(image_urls[i].as_str(), "users") {
                return id;
            }
            i = i + 1;
        }
        String::new()
    }

    /// The settings of an edit request.
    pub fn model_config(image_urls: &Vec<String>, parent_post_id: &str) -> (r: Json)
        ensures
            r.deep() == edit_model_config(links_view(image_urls@), parent_post_id@),
    {
        let ghost lv = links_view(image_urls@);
        let mut refs: Vec<Json> = Vec::new();
        let mut i: usize = 0;
        assert(deep_seq(refs@) =~= Seq::new(0, |k: int| JsonV::Str(lv[k])));
        while i < image_urls.len()
            invariant
                i <= image_urls@.len(),
                lv == links_view(image_urls@),
                deep_seq(refs@) == Seq::new(i as nat, |k: int| JsonV::Str(lv[k])),
            decreases image_urls@.len() - i,
        {
            push_element(&mut refs, Json::from_str(image_urls[i].as_str()));
            assert(deep_seq(refs@) =~= Seq::new((i + 1) as nat, |k: int| JsonV::Str(lv[k])));
            i = i + 1;
        }
        let mut cfg: Vec<(String, Json)> = Vec::new();
        assert(deep_members(cfg@) =~= Seq::empty());
        push_member(&mut cfg, "imageReferences", Json::array(refs));
        if !parent_post_id.is_empty() {
            push_member(&mut cfg, "parentPostId", Json::from_str(parent_post_id));
        }
        assert(deep_members(cfg@) =~= edit_config(lv, parent_post_id@)->Object_0);
        let cj = Json::object(cfg);
        let mut mm: Vec<(String, Json)> = Vec::new();
        assert(deep_members(mm@) =~= Seq::empty());
        push_member(&mut mm, "imageEditModel", Json::from_str("imagine"));
        push_member(&mut mm, "imageEditModelConfig", cj);
        assert(deep_members(mm@) =~= edit_model_map(lv, parent_post_id@)->Object_0);
        let mut m: Vec<(String, Json)> = Vec::new();
        assert(deep_members(m@) =~= Seq::empty());
        push_member(&mut m, "modelMap", Json::object(mm));
        assert(deep_members(m@) =~= edit_model_config(lv, parent_post_id@)->Object_0);
        Json::object(m)
    }

    /// The tool settings of an edit request.
    pub fn tool_overrides() -> (r: Json)
        ensures
            r.deep() == edit_tools(),
    {
        let mut m: Vec<(String, Json)> = Vec::new();
        assert(deep_members(m@) =~= Seq::empty());
        push_member(&mut m, "imageGen", Json::Bool(true));
        assert(deep_members(m@) =~= edit_tools()->Object_0);
        Json::object(m)
    }
}

} // verus!
