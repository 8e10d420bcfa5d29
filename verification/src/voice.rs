//! Voice mode: the LiveKit token handed to the voice page.

use vstd::prelude::*;
use crate::json::{deep_members, push_member, Json, JsonV};
use crate::processor::{str_at, str_field, str_or_empty};
use crate::errors::{err_v, ApiError, ErrorKind};

verus! {

/// Where LiveKit tokens are requested.
pub const LIVEKIT_TOKEN_API: &'static str = "https://grok.com/rest/livekit/tokens";

/// The LiveKit server the voice page connects to.
pub const LIVEKIT_WS_URL: &'static str = "wss://livekit.grok.com";

/// What the voice page receives: the token and the server to use.
pub open spec fn voice_token_json(token: Seq<char>) -> JsonV {
    JsonV::Object(
        seq![
            ("token"@, JsonV::Str(token)),
            ("url"@, JsonV::Str("wss://livekit.grok.com"@)),
            ("participant_name"@, JsonV::Str(Seq::empty())),
            ("room_name"@, JsonV::Str(Seq::empty())),
        ],
    )
}

/// Voice mode.
pub struct VoiceService;

impl VoiceService {
    /// The answer to the voice page for an upstream token reply: the token
    /// and the server, or an error when the reply holds no token.
    pub fn token_response(data: &Json) -> (r: Result<Json, ApiError>)
        ensures
            str_or_empty(data.deep(), "token"@).len() == 0 ==> (r matches Err(e) && e@ == err_v(
                ErrorKind::Server,
                "Upstream returned no voice token"@,
            )),
            str_or_empty(data.deep(), "token"@).len() > 0 ==> (r matches Ok(j) && j.deep()
                == voice_token_json(str_or_empty(data.deep(), "token"@))),
    {
        let token = match str_field(Some(data), "token") {
            Some(t) => t,
            None => "",
        };
        proof {
            reveal_strlit("");
            assert(""@ =~= Seq::<char>::empty());
        }
        if token.is_empty() {
            return Err(ApiError::server("Upstream returned no voice token"));
        }
        let mut m: Vec<(String, Json)> = Vec::new();
        assert(deep_members(m@) =~= Seq::empty());
        push_member(&mut m, "token", Json::from_str(token));
        push_member(&mut m, "url", Json::from_str(LIVEKIT_WS_URL));
        push_member(&mut m, "participant_name", Json::from_str(""));
        push_member(&mut m, "room_name", Json::from_str(""));
        assert(deep_members(m@) =~= voice_token_json(token@)->Object_0);
        Ok(Json::object(m))
    }
}

/// Where the site root sends a visitor: to the login page when the public
/// pages are on, else to the admin page.
pub fn root_redirect(public_enabled: bool) -> (r: &'static str)
    ensures
        r@ == if public_enabled {
            "/login"@
        } else {
            "/admin"@
        },
{
    if public_enabled {
        "/login"
    } else {
        "/admin"
    }
}

} // verus!
