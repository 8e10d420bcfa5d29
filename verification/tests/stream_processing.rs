use grok2api::json::Json;
use grok2api::processor::{
    BaseProcessor, CollectProcessor, Delta, ImageCollectProcessor, ImageStreamProcessor,
    StreamProcessor, VideoCollectProcessor, VideoStreamProcessor,
};
use grok2api::upstream::{is_blank_line, stream_error_line, stream_error_message, LineSplitter};

fn obj(members: Vec<(&str, Json)>) -> Json {
    Json::Object(members.into_iter().map(|(k, v)| (k.to_string(), v)).collect())
}

fn s(x: &str) -> Json {
    Json::Str(x.to_string())
}

fn doc(response: Json) -> Json {
    obj(vec![("result", obj(vec![("response", response)]))])
}

fn get<'a>(j: &'a Json, key: &str) -> Option<&'a Json> {
    match j {
        Json::Object(m) => m.iter().find(|(k, _)| k == key).map(|(_, v)| v),
        _ => None,
    }
}

fn text(d: &Delta) -> String {
    d.content.clone().unwrap_or_default()
}

#[test]
fn error_line_round_trip() {
    let line = stream_error_line("bad \"gateway\"");
    assert_eq!(line, "{\"__stream_error__\":\"bad \\\"gateway\\\"\"}");
    assert_eq!(stream_error_message(&line), Some("bad \"gateway\"".to_string()));
    assert_eq!(stream_error_message("{\"result\":{}}"), None);
}

#[test]
fn error_line_message_ending_in_quote_brace_is_cut() {
    let line = stream_error_line("x\"}");
    assert_eq!(stream_error_message(&line), Some("x\\".to_string()));
}

#[test]
fn blank_lines() {
    assert!(is_blank_line("  \t "));
    assert!(!is_blank_line(" a "));
}

#[test]
fn lines_split_across_chunks() {
    let mut sp = LineSplitter::new();
    assert_eq!(sp.push(b"one\r\ntw"), vec!["one".to_string()]);
    assert_eq!(sp.push(b"o\n\nthree"), vec!["two".to_string(), "".to_string()]);
    assert_eq!(sp.finish(), Some("three".to_string()));
    let mut bad = LineSplitter::new();
    assert_eq!(bad.push(&[0x66, 0xff, b'\n']), vec!["f\u{fffd}".to_string()]);
    assert_eq!(bad.finish(), None);
}

#[test]
fn base_processor_asset_links() {
    let local = BaseProcessor::new("m", "t", "");
    let a = local.process_url("https://assets.grok.com/users/u/img.png?x=1", "image");
    assert_eq!(a.url, "https://assets.grok.com/users/u/img.png");
    assert_eq!(a.fetch_path, None);
    let served = BaseProcessor::new("m", "t", "http://me:8000//");
    let b = served.process_url("users/u/img.png", "image");
    assert_eq!(b.url, "http://me:8000/v1/files/image/users/u/img.png");
    assert_eq!(b.fetch_path, Some("/users/u/img.png".to_string()));
}

#[test]
fn chunk_object_shape() {
    let base = BaseProcessor::new("grok-3", "t", "");
    let d = Delta {
        id: "rid".to_string(),
        fingerprint: "fp".to_string(),
        content: None,
        role: Some("assistant".to_string()),
        finish: None,
    };
    let c = base.sse_chunk(&d);
    assert!(matches!(get(&c, "object"), Some(Json::Str(x)) if x == "chat.completion.chunk"));
    assert!(matches!(get(&c, "id"), Some(Json::Str(x)) if x == "rid"));
    let choices = match get(&c, "choices") {
        Some(Json::Array(a)) => a,
        _ => panic!("no choices"),
    };
    let delta = get(&choices[0], "delta").unwrap();
    assert!(matches!(get(delta, "role"), Some(Json::Str(x)) if x == "assistant"));
    assert!(matches!(get(delta, "content"), Some(Json::Str(x)) if x.is_empty()));
    assert!(matches!(get(&choices[0], "finish_reason"), Some(Json::Null)));
}

#[test]
fn stream_reply_with_thinking_and_tokens() {
    let mut p = StreamProcessor::new("grok-3", "t", Some(true), false, vec![], "url", "");
    let first = doc(obj(vec![
        ("responseId", s("r-1")),
        ("llmInfo", obj(vec![("modelHash", s("hash"))])),
        ("token", s("hmm")),
        ("isThinking", Json::Bool(true)),
    ]));
    assert!(p.accepts(&first));
    let out = p.on_data(&first, &vec![]);
    assert_eq!(out.len(), 3);
    assert_eq!(out[0].role, Some("assistant".to_string()));
    assert_eq!(out[0].id, "r-1");
    assert_eq!(out[0].fingerprint, "hash");
    assert_eq!(text(&out[1]), "<think>\n");
    assert_eq!(text(&out[2]), "hmm");
    let second = doc(obj(vec![("token", s("Answer"))]));
    let out = p.on_data(&second, &vec![]);
    assert_eq!(out.len(), 2);
    assert_eq!(text(&out[0]), "\n</think>\n");
    assert_eq!(text(&out[1]), "Answer");
    let fin = p.finish();
    assert_eq!(fin.len(), 1);
    assert_eq!(fin[0].finish, Some("stop".to_string()));
    assert_eq!(fin[0].id, "r-1");
}

#[test]
fn stream_reply_hides_thinking_and_images() {
    let mut p = StreamProcessor::new("grok-3", "t", None, false, vec![], "url", "");
    let think = doc(obj(vec![("token", s("secret")), ("isThinking", Json::Bool(true))]));
    let out = p.on_data(&think, &vec![]);
    assert_eq!(out.len(), 1);
    assert!(out[0].id.starts_with("chatcmpl-") && out[0].id.len() == 41);
    let mr = doc(obj(vec![(
        "modelResponse",
        obj(vec![(
            "generatedImageUrls",
            Json::Array(vec![s("https://assets.grok.com/users/u/abc/image.jpg"), Json::Int(3)]),
        )]),
    )]));
    let urls = StreamProcessor::image_urls(&mr);
    assert_eq!(urls, vec!["https://assets.grok.com/users/u/abc/image.jpg".to_string()]);
    let out = p.on_data(&mr, &vec!["LINK".to_string()]);
    assert_eq!(out.len(), 1);
    assert_eq!(text(&out[0]), "![abc](LINK)\n");
}

#[test]
fn stream_progress_messages() {
    let mut p = StreamProcessor::new("grok-3", "t", Some(true), false, vec![], "url", "");
    let img = doc(obj(vec![(
        "streamingImageGenerationResponse",
        obj(vec![("imageIndex", Json::Int(1)), ("progress", Json::Int(50))]),
    )]));
    let out = p.on_data(&img, &vec![]);
    assert_eq!(out.len(), 3);
    assert_eq!(text(&out[1]), "<think>\n");
    assert_eq!(text(&out[2]), "正在生成第2张图片中，当前进度50%\n");
    let mr = doc(obj(vec![("modelResponse", obj(vec![("message", s("done"))]))]));
    let out = p.on_data(&mr, &vec![]);
    assert_eq!(out.len(), 2);
    assert_eq!(text(&out[0]), "done\n");
    assert_eq!(text(&out[1]), "</think>\n");
}

#[test]
fn stream_filters_tags_and_tool_cards() {
    let tags = vec!["xai:tool_usage_card".to_string(), "<secret>".to_string()];
    let mut p = StreamProcessor::new("grok-3", "t", Some(false), false, tags, "url", "");
    let d1 = doc(obj(vec![("rolloutId", s("R")), ("token", s("a <secret> b"))]));
    let out = p.on_data(&d1, &vec![]);
    assert_eq!(out.len(), 1);
    let d2 = doc(obj(vec![(
        "token",
        s("x<xai:tool_usage_card><xai:tool_name>web_search</xai:tool_name><xai:tool_args>{\"query\":\"k\"}</xai:tool_args></xai:tool_usage_card>y"),
    )]));
    assert!(p.accepts(&d2));
    let out = p.on_data(&d2, &vec![]);
    assert_eq!(out.len(), 1);
    assert_eq!(text(&out[0]), "x[R][WebSearch] k\ny");
}

#[test]
fn stream_error_reported_when_nothing_said() {
    let mut p = StreamProcessor::new("grok-3", "t", Some(false), false, vec![], "url", "");
    p.set_stream_error("reset".to_string());
    let fin = p.finish();
    assert_eq!(fin.len(), 3);
    assert_eq!(fin[0].role, Some("assistant".to_string()));
    assert_eq!(fin[0].id, fin[1].id);
    assert_eq!(text(&fin[1]), "[upstream error] 上游连接中断，未收到有效响应: reset");
    assert_eq!(fin[2].finish, Some("stop".to_string()));
}

#[test]
fn collected_reply_with_cards_and_tools() {
    let mut p = CollectProcessor::new("grok-3", "t", "url", "");
    let d1 = doc(obj(vec![("responseId", s("rid")), ("rolloutId", s("R")), ("token", s("Hello "))]));
    p.on_data(&d1, &vec![]);
    let d2 = doc(obj(vec![(
        "modelResponse",
        obj(vec![
            ("message", s("<grok:render card_id=\"c\"/>")),
            (
                "cardAttachmentsJson",
                Json::Array(vec![s("{\"id\":\"c\",\"image\":{\"original\":\"U\",\"title\":\"T\"}}")]),
            ),
            ("generatedImageUrls", Json::Array(vec![s("https://x/y/z.png")])),
        ]),
    )]));
    assert_eq!(CollectProcessor::image_urls(&d2), vec!["https://x/y/z.png".to_string()]);
    p.on_data(&d2, &vec!["L".to_string()]);
    assert!(p.readable());
    let j = p.finish();
    assert!(matches!(get(&j, "id"), Some(Json::Str(x)) if x == "rid"));
    let choices = match get(&j, "choices") {
        Some(Json::Array(a)) => a,
        _ => panic!(),
    };
    let msg = get(&choices[0], "message").unwrap();
    assert!(matches!(get(msg, "content"), Some(Json::Str(x)) if x == "Hello ![T](U)![](L)\n"));
}

#[test]
fn collected_reply_reports_broken_stream() {
    let mut p = CollectProcessor::new("grok-3", "t", "url", "");
    p.set_stream_error("eof".to_string());
    let j = p.finish();
    let choices = match get(&j, "choices") {
        Some(Json::Array(a)) => a,
        _ => panic!(),
    };
    let msg = get(&choices[0], "message").unwrap();
    assert!(matches!(get(msg, "content"), Some(Json::Str(x)) if x == "[upstream error] 上游连接中断，未收到有效响应: eof"));
}

#[test]
fn video_html_with_and_without_poster() {
    assert_eq!(
        VideoStreamProcessor::build_video_html("V", ""),
        "<video id=\"video\" controls=\"\" preload=\"none\">\n  <source id=\"mp4\" src=\"V\" type=\"video/mp4\">\n</video>"
    );
    assert_eq!(
        VideoCollectProcessor::build_video_html("V", "T"),
        "<video id=\"video\" controls=\"\" preload=\"none\" poster=\"T\">\n  <source id=\"mp4\" src=\"V\" type=\"video/mp4\">\n</video>"
    );
}

#[test]
fn video_stream_progress_and_job() {
    let mut p = VideoStreamProcessor::new("v", "t", Some(true), false, true, "");
    let d = doc(obj(vec![
        ("responseId", s("vid")),
        (
            "streamingVideoGenerationResponse",
            obj(vec![("progress", Json::Int(100)), ("videoUrl", s("VU")), ("thumbnailImageUrl", s("TU"))]),
        ),
    ]));
    let (out, job) = p.on_data(&d);
    let texts: Vec<String> = out.iter().map(text).collect();
    assert_eq!(out[0].role, Some("assistant".to_string()));
    assert_eq!(
        texts[1..].to_vec(),
        vec![
            "<think>\n".to_string(),
            "正在生成视频中，当前进度100%\n".to_string(),
            "</think>\n".to_string(),
            "正在对视频进行超分辨率\n".to_string(),
        ]
    );
    let job = job.unwrap();
    assert_eq!(job.video_url, "VU");
    assert_eq!(job.thumbnail_url, "TU");
    assert!(job.upscale);
    let c = p.video_chunk("FV", "");
    assert!(text(&c).contains("src=\"FV\""));
    let fin = p.finish();
    assert_eq!(fin.len(), 1);
    assert_eq!(fin[0].id, "vid");
}

#[test]
fn video_collect_sets_content() {
    let mut p = VideoCollectProcessor::new("v", "t", false, "");
    let d = doc(obj(vec![
        ("responseId", s("vid")),
        ("streamingVideoGenerationResponse", obj(vec![("progress", Json::Int(100)), ("videoUrl", s("VU"))])),
    ]));
    let job = p.on_data(&d).unwrap();
    assert!(!job.upscale);
    p.set_video("L", "");
    let j = p.finish();
    assert!(matches!(get(&j, "id"), Some(Json::Str(x)) if x == "vid"));
    let early = doc(obj(vec![("streamingVideoGenerationResponse", obj(vec![("progress", Json::Int(40))]))]));
    assert!(p.on_data(&early).is_none());
}

#[test]
fn image_stream_events() {
    let mut p = ImageStreamProcessor::new("m", "t", 2, true, "");
    let partial = doc(obj(vec![(
        "streamingImageGenerationResponse",
        obj(vec![("imageIndex", Json::Int(1)), ("progress", Json::Int(30))]),
    )]));
    let ev = p.on_data(&partial, &vec![]);
    assert_eq!(ev.len(), 1);
    assert_eq!(ev[0].event, "image_generation.partial_image");
    assert!(matches!(get(&ev[0].data, "index"), Some(Json::Int(1))));
    assert!(matches!(get(&ev[0].data, "b64_json"), Some(Json::Str(x)) if x.is_empty()));
    let mr = doc(obj(vec![(
        "modelResponse",
        obj(vec![("generatedImageUrls", Json::Array(vec![s("a"), s("b")]))]),
    )]));
    assert_eq!(ImageStreamProcessor::image_urls(&mr).len(), 2);
    let ev = p.on_data(&mr, &vec![Some("data:image/png;base64,QUJD".to_string()), None]);
    assert!(ev.is_empty());
    let done = p.finish();
    assert_eq!(done.len(), 1);
    assert_eq!(done[0].event, "image_generation.completed");
    assert!(matches!(get(&done[0].data, "b64_json"), Some(Json::Str(x)) if x == "QUJD"));
}

#[test]
fn image_stream_single_image_keeps_one() {
    let mut p = ImageStreamProcessor::new("m", "t", 1, false, "");
    let mr = doc(obj(vec![(
        "modelResponse",
        obj(vec![("generatedImageUrls", Json::Array(vec![s("a"), s("b")]))]),
    )]));
    p.on_data(&mr, &vec![Some("LA".to_string()), Some("LB".to_string())]);
    let done = p.finish();
    assert_eq!(done.len(), 1);
    assert!(matches!(get(&done[0].data, "index"), Some(Json::Int(0))));
    assert!(matches!(get(&done[0].data, "url"), Some(Json::Str(x)) if x == "LA" || x == "LB"));
}

#[test]
fn image_stream_draw_picks_the_image() {
    let mr = doc(obj(vec![(
        "modelResponse",
        obj(vec![("generatedImageUrls", Json::Array(vec![s("a"), s("b")]))]),
    )]));
    for (draw, want) in [(4usize, "LA"), (7usize, "LB")] {
        let mut p = ImageStreamProcessor::with_draw("m", "t", 1, false, "", draw);
        p.on_data(&mr, &vec![Some("LA".to_string()), Some("LB".to_string())]);
        let done = p.finish();
        assert_eq!(done.len(), 1);
        assert!(matches!(get(&done[0].data, "url"), Some(Json::Str(x)) if x == want));
    }
}

#[test]
fn card_titles_with_angle_brackets_are_told_apart() {
    let p = CollectProcessor::new("grok-3", "t", "url", "");
    let with_cards = |title: &str| {
        let card = format!("{{\"id\":\"c\",\"image\":{{\"original\":\"u\",\"title\":\"{title}\"}}}}");
        doc(obj(vec![("modelResponse", obj(vec![("cardAttachmentsJson", Json::Array(vec![s(&card)]))]))]))
    };
    assert!(p.cards_hold_no_lt(&with_cards("plain")));
    assert!(!p.cards_hold_no_lt(&with_cards("a<b")));
    assert!(p.cards_hold_no_lt(&doc(obj(vec![("token", s("x"))]))));
}

#[test]
fn image_collect_gathers_links() {
    let mut p = ImageCollectProcessor::new("m", "t", false, "");
    let mr = doc(obj(vec![("modelResponse", obj(vec![("generatedImageUrls", Json::Array(vec![s("a")]))]))]));
    assert_eq!(ImageCollectProcessor::image_urls(&mr), vec!["a".to_string()]);
    p.on_data(&mr, &vec![Some("L".to_string())]);
    let imgs = p.finish();
    assert_eq!(imgs.len(), 1);
    assert!(matches!(get(&imgs[0], "url"), Some(Json::Str(x)) if x == "L"));
}

#[test]
fn lines_do_not_depend_on_chunking() {
    let body = b"alpha\r\nbeta\ngam";
    let mut whole = LineSplitter::new();
    let all = whole.push(body);
    let mut parts = LineSplitter::new();
    let mut got = Vec::new();
    for chunk in body.chunks(3) {
        got.extend(parts.push(chunk));
    }
    assert_eq!(got, all);
    assert_eq!(all, vec!["alpha".to_string(), "beta".to_string()]);
    assert_eq!(parts.finish(), whole.finish());
    assert_eq!(whole.finish(), Some("gam".to_string()));
}

#[test]
fn role_chunk_comes_once() {
    let mut p = StreamProcessor::new("grok-3", "t", Some(false), false, vec![], "url", "");
    let d = doc(obj(vec![("token", s("a"))]));
    let first = p.on_data(&d, &vec![]);
    let second = p.on_data(&d, &vec![]);
    assert_eq!(first[0].role, Some("assistant".to_string()));
    assert!(first[1..].iter().all(|c| c.role.is_none()));
    assert!(second.iter().all(|c| c.role.is_none()));
}
