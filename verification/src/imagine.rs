//! The public image page: the commands its socket takes, the messages it
//! sends, and the loop that keeps generating images until it is stopped or
//! fails too often.

use vstd::prelude::*;
use crate::json::{deep_members, deep_seq, push_element, push_member, Json, JsonV};
use crate::processor::{at, field, opt_deep, str_at, str_field, str_or_empty};

verus! {

/// How many failed generations in a row end the loop.
pub const MAX_CONSECUTIVE_ERRORS: u32 = 5;

/// What an image generation starts with.
pub struct ImagineSession {
    pub prompt: String,
    pub aspect_ratio: String,
    pub nsfw: Option<bool>,
}

impl ImagineSession {
    /// The session a start request opens; the aspect ratio is `1:1` unless
    /// one is given.
    pub fn from_request(prompt: String, aspect_ratio: Option<String>, nsfw: Option<bool>) -> (r: ImagineSession)
        ensures
            r.prompt == prompt,
            r.aspect_ratio@ == match aspect_ratio {
                Some(a) => a@,
                None => "1:1"@,
            },
            r.nsfw == nsfw,
    {
        ImagineSession {
            prompt,
            aspect_ratio: match aspect_ratio {
                Some(a) => a,
                None => String::from_str("1:1"),
            },
            nsfw,
        }
    }
}

/// A message of the page's socket or event stream: `{"type", "message"}`.
pub open spec fn notice(kind: Seq<char>, message: Seq<char>) -> JsonV {
    JsonV::Object(seq![("type"@, JsonV::Str(kind)), ("message"@, JsonV::Str(message))])
}

/// The message carrying a generated image.
pub open spec fn image_notice(b64: Seq<char>) -> JsonV {
    JsonV::Object(seq![("type"@, JsonV::Str("image"@)), ("b64_json"@, JsonV::Str(b64))])
}

/// A `{"type", "message"}` message.
pub fn notice_json(kind: &str, message: &str) -> (r: Json)
    ensures
        r.deep() == notice(kind@, message@),
{
    let mut m: Vec<(String, Json)> = Vec::new();
    assert(deep_members(m@) =~= Seq::empty());
    push_member(&mut m, "type", Json::from_str(kind));
    push_member(&mut m, "message", Json::from_str(message));
    assert(deep_members(m@) =~= notice(kind@, message@)->Object_0);
    Json::object(m)
}

fn image_notice_json(b64: &str) -> (r: Json)
    ensures
        r.deep() == image_notice(b64@),
{
    let mut m: Vec<(String, Json)> = Vec::new();
    assert(deep_members(m@) =~= Seq::empty());
    push_member(&mut m, "type", Json::from_str("image"));
    push_member(&mut m, "b64_json", Json::from_str(b64));
    assert(deep_members(m@) =~= image_notice(b64@)->Object_0);
    Json::object(m)
}

// ---------------------------------------------------------------------------
// Socket commands
// ---------------------------------------------------------------------------

/// A command received on the socket.
pub enum WsCommand {
    /// Start generating for this session, stopping the generation before.
    Start(ImagineSession),
    /// Refuse the command with this error message.
    Refuse(String),
    /// Stop the generation.
    Stop,
    /// Nothing to do.
    Ignore,
}

/// The command a socket message asks for.
pub open spec fn command_kind(cmd: JsonV) -> Seq<char> {
    str_or_empty(cmd, "type"@)
}

/// Reads a socket message.
pub fn parse_ws_command(cmd: &Json) -> (r: WsCommand)
    ensures
        command_kind(cmd.deep()) == "start"@ && str_or_empty(cmd.deep(), "prompt"@).len() == 0 ==> (
        r matches WsCommand::Refuse(m) && m@ == "prompt is required"@),
        command_kind(cmd.deep()) == "start"@ && str_or_empty(cmd.deep(), "prompt"@).len() > 0 ==> (
        r matches WsCommand::Start(s) && s.prompt@ == str_or_empty(cmd.deep(), "prompt"@)
            && s.aspect_ratio@ == (match str_at(cmd.deep(), "aspect_ratio"@) {
            Some(a) => a,
            None => "1:1"@,
        }) && s.nsfw == at(cmd.deep(), "nsfw"@).as_bool()),
        command_kind(cmd.deep()) == "stop"@ ==> r is Stop,
        command_kind(cmd.deep()) != "start"@ && command_kind(cmd.deep()) != "stop"@ ==> r is Ignore,
{
    let c = Some(cmd);
    let kind = match str_field(c, "type") {
        Some(k) => k,
        None => "",
    };
    proof {
        reveal_strlit("");
        reveal_strlit("start");
        reveal_strlit("stop");
        assert(""@ =~= Seq::<char>::empty());
        assert("start"@ != "stop"@) by {
            assert("start"@[2] != "stop"@[2]);
        }
    }
    if crate::text::str_eq(kind, "start") {
        let prompt = match str_field(c, "prompt") {
            Some(p) => String::from_str(p),
            None => String::new(),
        };
        if prompt.as_str().is_empty() {
            return WsCommand::Refuse(String::from_str("prompt is required"));
        }
        let ar = match str_field(c, "aspect_ratio") {
            Some(a) => String::from_str(a),
            None => String::from_str("1:1"),
        };
        let nsfw = match field(c, "nsfw") {
            Some(j) => j.as_bool(),
            None => None,
        };
        WsCommand::Start(ImagineSession { prompt, aspect_ratio: ar, nsfw })
    } else if crate::text::str_eq(kind, "stop") {
        WsCommand::Stop
    } else {
        WsCommand::Ignore
    }
}

// ---------------------------------------------------------------------------
// The generation loop
// ---------------------------------------------------------------------------

/// The inline images of a generated batch, in order.
pub open spec fn batch_images(images: Seq<JsonV>) -> Seq<Seq<char>>
    decreases images.len(),
{
    if images.len() == 0 {
        Seq::empty()
    } else {
        let p = batch_images(images.drop_last());
        match str_at(images.last(), "b64_json"@) {
            Some(b) => p.push(b),
            None => p,
        }
    }
}

/// The messages a generated batch is reported with: one per inline image,
/// then `batch_done`.
pub open spec fn batch_messages(images: Seq<JsonV>) -> Seq<JsonV> {
    batch_images(images).map_values(|b: Seq<char>| image_notice(b)).push(notice("status"@, "batch_done"@))
}

/// The messages a failed generation is reported with, given how many
/// generations in a row have failed with it.
pub open spec fn failure_messages(message: Seq<char>, errors: nat) -> Seq<JsonV> {
    if errors >= MAX_CONSECUTIVE_ERRORS {
        seq![notice("error"@, message), notice("error"@, "Too many consecutive errors, stopping"@)]
    } else {
        seq![notice("error"@, message)]
    }
}

/// How the loop goes on after a generation.
pub enum LoopStep {
    /// Generate again at once.
    Continue,
    /// Wait a moment, then generate again.
    RetryAfterPause,
    /// Stop generating.
    Stop,
}

/// The loop that keeps generating images: it counts the failed
/// generations in a row.
pub struct GenerationLoop {
    errors: u32,
}

impl GenerationLoop {
    pub closed spec fn errors(&self) -> nat {
        self.errors as nat
    }

    /// A loop with no failure yet.
    pub fn new() -> (r: GenerationLoop)
        ensures
            r.errors() == 0,
    {
        GenerationLoop { errors: 0 }
    }

    /// The message sent when generation starts.
    pub fn started() -> (r: Json)
        ensures
            r.deep() == notice("status"@, "generating"@),
    {
        notice_json("status", "generating")
    }

    /// The messages for a generated batch; the loop goes on.
    pub fn on_images(&mut self, images: &Vec<Json>) -> (r: (Vec<Json>, LoopStep))
        ensures
            final(self).errors() == 0,
            deep_seq(r.0@) == batch_messages(deep_seq(images@)),
            r.1 is Continue,
    {
        self.errors = 0;
        let ghost iv = deep_seq(images@);
        let mut out: Vec<Json> = Vec::new();
        let mut i: usize = 0;
        assert(deep_seq(out@) =~= batch_images(iv.take(0)).map_values(|b: Seq<char>| image_notice(b)));
        while i < images.len()
            invariant
                i <= images@.len(),
                iv == deep_seq(images@),
                deep_seq(out@) == batch_images(iv.take(i as int)).map_values(
                    |b: Seq<char>| image_notice(b),
                ),
            decreases images@.len() - i,
        {
            assert(iv.take(i + 1).drop_last() == iv.take(i as int));
            assert(iv.take(i + 1).last() == images@[i as int].deep());
            let ghost before = deep_seq(out@);
            if let Some(b) = str_field(Some(&images[i]), "b64_json") {
                push_element(&mut out, image_notice_json(b));
                assert(batch_images(iv.take(i + 1)) == batch_images(iv.take(i as int)).push(b@));
                assert(deep_seq(out@) =~= batch_images(iv.take(i + 1)).map_values(
                    |b: Seq<char>| image_notice(b),
                ));
            }
            i = i + 1;
        }
        assert(iv.take(i as int) == iv);
        push_element(&mut out, notice_json("status", "batch_done"));
        (out, LoopStep::Continue)
    }

    /// The messages for a failed generation; the loop stops at the fifth
    /// failure in a row and pauses before retrying otherwise.
    pub fn on_error(&mut self, message: &str) -> (r: (Vec<Json>, LoopStep))
        requires
            old(self).errors() < MAX_CONSECUTIVE_ERRORS,
        ensures
            final(self).errors() == old(self).errors() + 1,
            deep_seq(r.0@) == failure_messages(message@, final(self).errors()),
            final(self).errors() >= MAX_CONSECUTIVE_ERRORS ==> r.1 is Stop,
            final(self).errors() < MAX_CONSECUTIVE_ERRORS ==> r.1 is RetryAfterPause,
    {
        self.errors = self.errors + 1;
        let mut out: Vec<Json> = Vec::new();
        assert(deep_seq(out@) =~= Seq::empty());
        push_element(&mut out, notice_json("error", message));
        if self.errors >= MAX_CONSECUTIVE_ERRORS {
            push_element(&mut out, notice_json("error", "Too many consecutive errors, stopping"));
            (out, LoopStep::Stop)
        } else {
            (out, LoopStep::RetryAfterPause)
        }
    }
}

/// The settings the image page reports.
pub open spec fn imagine_config(nsfw: bool) -> JsonV {
    JsonV::Object(seq![("final_min_bytes"@, JsonV::Int(50000)), ("nsfw"@, JsonV::Bool(nsfw))])
}

/// The settings the image page reports.
pub fn imagine_config_json(nsfw: bool) -> (r: Json)
    ensures
        r.deep() == imagine_config(nsfw),
{
    let mut m: Vec<(String, Json)> = Vec::new();
    assert(deep_members(m@) =~= Seq::empty());
    push_member(&mut m, "final_min_bytes", Json::Int(50000));
    push_member(&mut m, "nsfw", Json::Bool(nsfw));
    assert(deep_members(m@) =~= imagine_config(nsfw)->Object_0);
    Json::object(m)
}

} // verus!
