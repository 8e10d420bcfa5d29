use grok2api::auth::{
    admit_stream_socket, stream_without_task, extract_bearer, verify_any_key, verify_api_key, verify_app_key, verify_bearer,
    verify_public_key, verify_query, verify_stream_api_key, verify_stream_public_key,
    EmptyKeyPolicy,
};
use grok2api::batch::BatchTask;
use grok2api::chat::{ChatRequestBuilder, ChatService, GrokChatService, MessageExtractor};
use grok2api::client::{
    body_preview, body_preview_from_bytes, connect_timeout_secs, parse_emulation, pool_key,
    BrowserFamily, EmulationProfile,
};
use grok2api::errors::{ApiError, ErrorKind};
use grok2api::image_edit::{extract_id_from_url, ImageEditService};
use grok2api::imagine::{imagine_config_json, parse_ws_command, GenerationLoop, LoopStep, WsCommand};
use grok2api::json::Json;
use grok2api::session::SessionStore;
use grok2api::usage::{normalize_json_text, usage_reply, UsageService};
use grok2api::video::{
    normalize_aspect_ratio, normalize_resolution, normalize_video_length, relay_events,
    resolution_for_lower,
    video_messages, VideoSession,
};
use grok2api::voice::{root_redirect, VoiceService};

fn obj(members: Vec<(&str, Json)>) -> Json {
    Json::Object(members.into_iter().map(|(k, v)| (k.to_string(), v)).collect())
}

fn s(x: &str) -> Json {
    Json::Str(x.to_string())
}

fn get<'a>(j: &'a Json, key: &str) -> Option<&'a Json> {
    match j {
        Json::Object(m) => m.iter().find(|(k, _)| k == key).map(|(_, v)| v),
        _ => None,
    }
}

fn err_msg<T>(r: Result<T, grok2api::errors::ApiError>) -> (ErrorKind, String) {
    match r {
        Err(e) => (e.kind, e.message),
        Ok(_) => panic!("expected an error"),
    }
}

#[test]
fn prompt_from_messages() {
    let msgs = vec![
        obj(vec![("role", s("system")), ("content", s("Be brief."))]),
        obj(vec![("role", s("user")), ("content", s("Hi"))]),
        obj(vec![("role", s("assistant")), ("content", s("Hello"))]),
        obj(vec![
            ("role", s("user")),
            (
                "content",
                Json::Array(vec![
                    obj(vec![("type", s("text")), ("text", s("What is this?"))]),
                    obj(vec![("type", s("text")), ("text", s("   "))]),
                    obj(vec![("type", s("image_url")), ("image_url", obj(vec![("url", s("https://i/1.png"))]))]),
                    obj(vec![("type", s("text")), ("text", s("Be exact."))]),
                ]),
            ),
        ]),
    ];
    let (text, atts) = MessageExtractor::extract(&msgs, false).unwrap();
    assert_eq!(
        text,
        "system: Be brief.\n\nuser: Hi\n\nassistant: Hello\n\nWhat is this?\nBe exact."
    );
    assert_eq!(atts, vec![("image".to_string(), "https://i/1.png".to_string())]);
}

#[test]
fn video_models_refuse_audio_and_files() {
    let msgs = vec![obj(vec![(
        "content",
        Json::Array(vec![obj(vec![("type", s("input_audio")), ("input_audio", s("AAA"))])]),
    )])];
    let (kind, m) = err_msg(MessageExtractor::extract(&msgs, true));
    assert_eq!(kind, ErrorKind::InvalidRequest);
    assert_eq!(m, "视频模型不支持 input_audio 类型");
    let (_, ok) = MessageExtractor::extract(&msgs, false).unwrap();
    assert_eq!(ok, vec![("audio".to_string(), "AAA".to_string())]);
    let files = vec![obj(vec![(
        "content",
        Json::Array(vec![obj(vec![("type", s("file")), ("file", obj(vec![("data", s("D"))]))])]),
    )])];
    let (_, m) = err_msg(MessageExtractor::extract(&files, true));
    assert_eq!(m, "视频模型不支持 file 类型");
    let (_, a) = MessageExtractor::extract(&files, false).unwrap();
    assert_eq!(a, vec![("file".to_string(), "D".to_string())]);
}

#[test]
fn unknown_model_is_refused() {
    let (kind, m) = err_msg(GrokChatService::prepare("nope", &[]));
    assert_eq!(kind, ErrorKind::InvalidRequest);
    assert_eq!(m, "Unknown model");
    let (info, text, _) = GrokChatService::prepare("grok-3", &[obj(vec![("content", s("x"))])]).unwrap();
    assert_eq!(info.model_id, "grok-3");
    assert_eq!(text, "x");
}

#[test]
fn upstream_status_error_message() {
    let e = GrokChatService::status_error(403, "text/html", "<b>\"no\"</b>\n");
    assert_eq!(e.kind, ErrorKind::Upstream);
    assert_eq!(
        e.message,
        "Grok API request failed: 403; content-type: text/html; body: <b>\\\"no\\\"</b>\\n"
    );
}

#[test]
fn payload_shape() {
    let files = vec!["f1".to_string()];
    let p = ChatRequestBuilder::build_payload(
        "hello",
        "grok-3",
        "MODEL_MODE_FAST",
        Some(true),
        &files,
        &[],
        Some(Json::Number("0.7".to_string())),
        None,
        Some("high"),
        None,
        None,
        true,
    );
    assert!(matches!(get(&p, "message"), Some(Json::Str(x)) if x == "hello"));
    assert!(matches!(get(&p, "temporary"), Some(Json::Bool(true))));
    assert!(matches!(get(&p, "imageGenerationCount"), Some(Json::Int(2))));
    assert!(matches!(get(&p, "fileAttachments"), Some(Json::Array(a)) if a.len() == 1));
    let meta = get(&p, "responseMetadata").unwrap();
    let cfg = get(meta, "modelConfigOverride").unwrap();
    assert!(matches!(get(cfg, "temperature"), Some(Json::Number(x)) if x == "0.7"));
    assert!(get(cfg, "topP").is_none());
    assert!(matches!(get(cfg, "reasoningEffort"), Some(Json::Str(x)) if x == "high"));
    let details = get(meta, "requestModelDetails").unwrap();
    assert!(matches!(get(details, "modelId"), Some(Json::Str(x)) if x == "grok-3"));
    assert!(matches!(get(&p, "toolOverrides"), Some(Json::Object(m)) if m.is_empty()));
}

#[test]
fn think_setting_choices() {
    assert_eq!(ChatService::think_setting(Some("none"), Some("enabled")), Some(false));
    assert_eq!(ChatService::think_setting(Some("low"), None), Some(true));
    assert_eq!(ChatService::think_setting(None, Some("enabled")), Some(true));
    assert_eq!(ChatService::think_setting(None, Some("disabled")), Some(false));
    assert_eq!(ChatService::think_setting(None, Some("auto")), None);
    assert_eq!(ChatService::think_setting(None, None), None);
}

#[test]
fn bearer_checks() {
    assert_eq!(extract_bearer(Some("Bearer  k1 ")), Some("k1".to_string()));
    assert_eq!(extract_bearer(Some("Basic k1")), None);
    assert!(verify_bearer(Some("Bearer k1"), "k1", &EmptyKeyPolicy::Deny).is_ok());
    assert_eq!(
        err_msg(verify_bearer(Some("Bearer k2"), "k1", &EmptyKeyPolicy::Allow)).1,
        "Invalid authentication token"
    );
    assert_eq!(
        err_msg(verify_bearer(None, "k1", &EmptyKeyPolicy::Allow)).1,
        "Missing authentication token"
    );
    assert!(verify_bearer(None, "", &EmptyKeyPolicy::Allow).is_ok());
    let (kind, m) = err_msg(verify_bearer(None, "", &EmptyKeyPolicy::Deny));
    assert_eq!(kind, ErrorKind::Authentication);
    assert_eq!(m, "App key is not configured");
    assert_eq!(
        err_msg(verify_bearer(None, "", &EmptyKeyPolicy::Switch(false))).1,
        "Public access is disabled"
    );
    assert!(verify_bearer(None, "", &EmptyKeyPolicy::Switch(true)).is_ok());
}

#[test]
fn stream_access_without_a_known_task() {
    assert!(admit_stream_socket(true, None, false, ""));
    assert!(!admit_stream_socket(false, None, true, "p"));
    assert!(admit_stream_socket(false, Some("p".to_string()), true, "p"));
    let e = stream_without_task(None, false, "", "task_id is required");
    assert_eq!(e.kind, ErrorKind::Authentication);
    assert_eq!(e.message, "Public access is disabled");
    let e = stream_without_task(Some("p".to_string()), true, "p", "task_id is required for SSE");
    assert_eq!(e.kind, ErrorKind::InvalidRequest);
    assert_eq!(e.message, "task_id is required for SSE");
}

#[test]
fn query_and_combined_checks() {
    assert!(verify_query(Some("Bearer k ".to_string()), "k", &EmptyKeyPolicy::Deny).is_ok());
    assert!(verify_query(Some(" k".to_string()), "k", &EmptyKeyPolicy::Deny).is_ok());
    assert_eq!(
        err_msg(verify_query(None, "k", &EmptyKeyPolicy::Allow)).1,
        "Invalid authentication token"
    );
    assert!(verify_api_key(None, "").is_ok());
    assert!(verify_app_key(None, "").is_err());
    assert!(verify_stream_api_key(None, "").is_ok());
    assert!(verify_public_key(Some("Bearer p"), false, "p").is_ok());
    assert!(verify_stream_public_key(Some("p".to_string()), false, "p").is_ok());
    assert!(verify_any_key(Some("Bearer p"), "a", true, "p").is_ok());
    assert!(verify_any_key(Some("Bearer a"), "a", false, "p").is_ok());
    assert_eq!(
        err_msg(verify_any_key(Some("Bearer x"), "a", true, "p")).1,
        "Invalid authentication token"
    );
}

#[test]
fn sessions_live_ten_minutes() {
    let mut store: SessionStore<u32> = SessionStore::new();
    let id = store.create_at(7, 1_000);
    assert_eq!(id.len(), 36);
    assert_eq!(store.get_at(&id, 600_999), Some(&7));
    assert_eq!(store.get_at(&id, 601_000), None);
    let a = store.create_at(1, 2_000_000);
    let b = store.create_at(2, 2_000_000);
    assert_eq!(store.remove_many(&vec![a.clone(), "zz".to_string(), a.clone()]), 1);
    assert_eq!(store.get_at(&a, 2_000_001), None);
    assert_eq!(store.get_at(&b, 2_000_001), Some(&2));
    store.remove(&b);
    assert_eq!(store.get_at(&b, 2_000_001), None);
}

#[test]
fn batch_task_counts_and_events() {
    let mut t = BatchTask::new_at(3, 0);
    assert_eq!(t.status, "running");
    let e = t.record(true, Some(s("i")), None, None);
    t.record(false, None, None, Some("boom".to_string()));
    assert_eq!((t.processed, t.ok, t.fail), (2, 1, 1));
    assert!(matches!(get(&e, "type"), Some(Json::Str(x)) if x == "progress"));
    assert!(matches!(get(&e, "processed"), Some(Json::Int(1))));
    assert!(matches!(get(&e, "item"), Some(Json::Str(x)) if x == "i"));
    let snap = t.snapshot();
    assert!(matches!(get(&snap, "warning"), Some(Json::Null)));
    assert!(t.final_event().is_none());
    let done = t.finish(s("R"), Some("w".to_string()));
    assert_eq!(t.status, "done");
    assert!(matches!(get(&done, "result"), Some(Json::Str(x)) if x == "R"));
    assert!(t.final_event().is_some());
    assert!(!t.expired_at(1_800_000));
    assert!(t.expired_at(1_800_001));
    let mut c = BatchTask::new_at(1, 0);
    c.cancel();
    assert!(c.cancelled);
    let ev = c.finish_cancelled();
    assert!(matches!(get(&ev, "type"), Some(Json::Str(x)) if x == "cancelled"));
    let mut f = BatchTask::new_at(1, 0);
    let ev = f.fail_task("bad".to_string());
    assert!(matches!(get(&ev, "error"), Some(Json::Str(x)) if x == "bad"));
    assert!(!f.expired_at(1_000));
}

#[test]
fn video_settings() {
    assert_eq!(normalize_aspect_ratio("1280x720"), "16:9");
    assert_eq!(normalize_aspect_ratio("720x1280"), "9:16");
    assert_eq!(normalize_aspect_ratio("2:3"), "2:3");
    assert_eq!(normalize_aspect_ratio("4:3"), "16:9");
    assert_eq!(normalize_resolution("480P"), "SD");
    assert_eq!(normalize_resolution("Sd"), "SD");
    assert_eq!(normalize_resolution("1080p"), "HD");
    assert_eq!(resolution_for_lower("480p"), "SD");
    assert_eq!(resolution_for_lower("480P"), "HD");
    assert_eq!(normalize_video_length(Some(10)), 10);
    assert_eq!(normalize_video_length(Some(7)), 6);
    assert_eq!(normalize_video_length(None), 6);
    let v = VideoSession::from_request("p".to_string(), None, Some(15), None, None, None, None);
    assert_eq!(v.aspect_ratio, "16:9");
    assert_eq!(v.video_length, 15);
    assert_eq!(v.resolution_name, "720p");
    assert_eq!(v.preset, "normal");
}

#[test]
fn video_message_with_reference_image() {
    let m = video_messages("go", Some("https://i"));
    let content = get(&m[0], "content").unwrap();
    match content {
        Json::Array(items) => {
            assert_eq!(items.len(), 2);
            assert!(matches!(get(&items[1], "type"), Some(Json::Str(x)) if x == "image_url"));
        },
        _ => panic!("content is not an array"),
    }
    let plain = video_messages("go", None);
    assert!(matches!(get(&plain[0], "content"), Some(Json::Str(x)) if x == "go"));
}

#[test]
fn relayed_events() {
    assert_eq!(relay_events("data: {\"a\":1}\n\n"), vec!["{\"a\":1}".to_string()]);
    assert_eq!(relay_events("data: x\r\ndata: y"), vec!["x".to_string(), "y".to_string()]);
    assert_eq!(relay_events(": heartbeat\n\n"), vec![": heartbeat\n\n".to_string()]);
    assert!(relay_events("  \n").is_empty());
}

#[test]
fn socket_commands() {
    let start = obj(vec![("type", s("start")), ("prompt", s("cat")), ("nsfw", Json::Bool(true))]);
    match parse_ws_command(&start) {
        WsCommand::Start(sess) => {
            assert_eq!(sess.prompt, "cat");
            assert_eq!(sess.aspect_ratio, "1:1");
            assert_eq!(sess.nsfw, Some(true));
        },
        _ => panic!("not a start"),
    }
    let empty = obj(vec![("type", s("start"))]);
    assert!(matches!(parse_ws_command(&empty), WsCommand::Refuse(m) if m == "prompt is required"));
    assert!(matches!(parse_ws_command(&obj(vec![("type", s("stop"))])), WsCommand::Stop));
    assert!(matches!(parse_ws_command(&obj(vec![])), WsCommand::Ignore));
}

#[test]
fn generation_loop_stops_after_five_failures() {
    let mut l = GenerationLoop::new();
    for _ in 0..4 {
        let (msgs, step) = l.on_error("e");
        assert_eq!(msgs.len(), 1);
        assert!(matches!(step, LoopStep::RetryAfterPause));
    }
    let (msgs, step) = l.on_error("e");
    assert_eq!(msgs.len(), 2);
    assert!(matches!(step, LoopStep::Stop));
    let mut l2 = GenerationLoop::new();
    l2.on_error("e");
    let imgs = vec![obj(vec![("b64_json", s("B"))]), obj(vec![("url", s("u"))])];
    let (msgs, step) = l2.on_images(&imgs);
    assert_eq!(msgs.len(), 2);
    assert!(matches!(step, LoopStep::Continue));
    assert!(matches!(get(&msgs[1], "message"), Some(Json::Str(x)) if x == "batch_done"));
    let cfg = imagine_config_json(false);
    assert!(matches!(get(&cfg, "final_min_bytes"), Some(Json::Int(50000))));
}

#[test]
fn image_edit_helpers() {
    let id = "0123456789abcdef0123456789abcdef";
    let url = format!("https://assets.grok.com/users/u1/generated/{id}/image.jpg");
    assert_eq!(extract_id_from_url(&url, "generated"), Some(id.to_string()));
    assert_eq!(extract_id_from_url("https://x/generated/short/a", "generated"), None);
    assert_eq!(
        ImageEditService::parent_post_id_from_urls(&vec!["https://x/a".to_string(), url.clone()]),
        id
    );
    assert_eq!(ImageEditService::uploaded_link("//users/a.png"), "https://assets.grok.com/users/a.png");
    assert_eq!(ImageEditService::uploaded_link("https://h/a.png"), "https://h/a.png");
    let (kind, m) = err_msg(ImageEditService::checked_uploads(vec![]));
    assert_eq!(kind, ErrorKind::Server);
    assert_eq!(m, "Image upload failed");
    let cfg = ImageEditService::model_config(&vec!["u".to_string()], "pp");
    let inner = get(get(&cfg, "modelMap").unwrap(), "imageEditModelConfig").unwrap();
    assert!(matches!(get(inner, "parentPostId"), Some(Json::Str(x)) if x == "pp"));
    let tools = ImageEditService::tool_overrides();
    assert!(matches!(get(&tools, "imageGen"), Some(Json::Bool(true))));
}

#[test]
fn usage_text_cleaning_and_errors() {
    assert_eq!(normalize_json_text("\u{feff}  )]}'\n  {\"a\":1} "), "{\"a\":1}");
    assert_eq!(normalize_json_text("for (;;);for (;;); {}"), "{}");
    assert_eq!(normalize_json_text("  "), "");
    let (kind, m) = err_msg(UsageService::check_reply(500, "text/plain", "oops"));
    assert_eq!(kind, ErrorKind::Upstream);
    assert_eq!(m, "Failed to get usage stats: 500; content-type: text/plain; body: oops");
    let (_, m) = err_msg(UsageService::check_reply(200, "application/json", " "));
    assert_eq!(m, "Usage parse error: empty response body; content-type: application/json");
    assert_eq!(UsageService::check_reply(200, "j", " {} ").unwrap(), "{}");
    let e = UsageService::parse_error("eof", "j", "x", &[0x1f, 0x8b, 0]);
    assert_eq!(
        e.message,
        "Usage parse error: eof; content-type: j; body: x; hint: upstream body still looks gzip-compressed"
    );
    assert_eq!(usage_reply(200, "j", b"\xef\xbb\xbf )]}'\n{\"limit\":5} ").unwrap(), "{\"limit\":5}");
    let (kind, m) = err_msg(usage_reply(403, "text/plain", b"no\xff"));
    assert_eq!(kind, ErrorKind::Upstream);
    assert_eq!(m, "Failed to get usage stats: 403; content-type: text/plain; body: no\\u{fffd}");
    let (_, m) = err_msg(usage_reply(200, "application/json", b"  "));
    assert_eq!(m, "Usage parse error: empty response body; content-type: application/json");
    let (_, m) = err_msg(usage_reply(200, "j", b"{\"a\":"));
    assert!(m.starts_with("Usage parse error: EOF while parsing"), "{m}");
    assert!(m.ends_with("; content-type: j; body: {\\\"a\\\":"), "{m}");
    assert_eq!(UsageService::emulation_override("  "), None);
    assert_eq!(UsageService::emulation_override(" safari_17 "), Some("safari_17".to_string()));
    let p = UsageService::payload("grok-3");
    assert!(matches!(get(&p, "requestKind"), Some(Json::Str(x)) if x == "DEFAULT"));
}

#[test]
fn voice_token_answers() {
    let ok = VoiceService::token_response(&obj(vec![("token", s("T"))])).unwrap();
    assert!(matches!(get(&ok, "url"), Some(Json::Str(x)) if x == "wss://livekit.grok.com"));
    let (kind, m) = err_msg(VoiceService::token_response(&obj(vec![])));
    assert_eq!(kind, ErrorKind::Server);
    assert_eq!(m, "Upstream returned no voice token");
    assert_eq!(root_redirect(true), "/login");
    assert_eq!(root_redirect(false), "/admin");
}

#[test]
fn previews_escape_like_escape_default() {
    assert_eq!(body_preview("a\tb\"c\\é\u{1}", 100), "a\\tb\\\"c\\\\\\u{e9}\\u{1}");
    assert_eq!(body_preview("abcdef", 3), "abc");
    assert_eq!(body_preview_from_bytes(&[b'h', 0xff, b'i'], 10), "h\\u{fffd}i");
}

#[test]
fn client_pool_settings() {
    assert_eq!(pool_key(Some("  http://p:1 ")), "http://p:1");
    assert_eq!(pool_key(None), "");
    assert_eq!(connect_timeout_secs(2), 5);
    assert_eq!(connect_timeout_secs(120), 30);
    assert_eq!(connect_timeout_secs(10), 10);
}

#[test]
fn emulation_profiles() {
    let p = |f, v| EmulationProfile { family: f, version: v };
    assert_eq!(parse_emulation(""), p(BrowserFamily::Chrome, 136));
    assert_eq!(parse_emulation(" Chrome_131 "), p(BrowserFamily::Chrome, 131));
    assert_eq!(parse_emulation("chrome_999"), p(BrowserFamily::Chrome, 136));
    assert_eq!(parse_emulation("edge-122"), p(BrowserFamily::Edge, 122));
    assert_eq!(parse_emulation("firefox_146"), p(BrowserFamily::Firefox, 146));
    assert_eq!(parse_emulation("safari_17_2_1"), p(BrowserFamily::Safari, 1721));
    assert_eq!(parse_emulation("safari_18"), p(BrowserFamily::Chrome, 136));
    assert_eq!(parse_emulation("opera"), p(BrowserFamily::Chrome, 136));
    assert_eq!(parse_emulation("FireFox_146"), parse_emulation("firefox_146"));
    assert_eq!(parse_emulation("edge-1_2-2"), parse_emulation("edge122"));
    assert_eq!(parse_emulation("_ edge"), p(BrowserFamily::Chrome, 136));
    assert_eq!(parse_emulation(" edge"), p(BrowserFamily::Edge, 136));
    assert_eq!(parse_emulation(" Edge-1_22 "), parse_emulation("edge122"));
    assert_eq!(parse_emulation("- chrome131"), p(BrowserFamily::Chrome, 136));
    assert_eq!(parse_emulation(" chrome131"), p(BrowserFamily::Chrome, 131));
}

#[test]
fn error_constructors_carry_kind() {
    let e = ApiError::rate_limit("No available tokens for voice mode");
    assert_eq!(e.kind, ErrorKind::RateLimit);
    assert_eq!(e.message, "No available tokens for voice mode");
    assert_eq!(ApiError::authentication("x").kind, ErrorKind::Authentication);
    assert_eq!(ApiError::new(ErrorKind::Server, "y").message, "y");
}
