use grok2api::headers::{
    build_arch_hint, build_cookie, build_grok_headers_with_id, build_os_platform_ua,
    build_platform_hint, build_sec_ch_ua, build_user_agent, detect_browser, extract_version,
    get_matched_user_agent, Arch, HeaderConfig, Platform,
};
use grok2api::model::{Cost, ModelInfo, ModelService, Tier};

fn cfg(emulation: &str, ua: &str, cf: &str) -> HeaderConfig {
    HeaderConfig {
        emulation: emulation.to_string(),
        user_agent: ua.to_string(),
        cf_clearance: cf.to_string(),
    }
}

#[test]
fn model_info_new_is_basic_low_cost() {
    let m = ModelInfo::new("id", "grok-x", "MODE", "Name");
    assert_eq!(m.model_id, "id");
    assert_eq!(m.grok_model, "grok-x");
    assert_eq!(m.model_mode, "MODE");
    assert_eq!(m.display_name, "Name");
    assert_eq!(m.tier, Tier::Basic);
    assert_eq!(m.cost, Cost::Low);
    assert_eq!(m.description, "");
    assert!(!m.is_video && !m.is_image && !m.is_image_edit);
}

#[test]
fn model_list_has_catalogue_in_order() {
    let list = ModelService::list();
    assert_eq!(list[0].model_id, "grok-3");
    let heavy = list.iter().find(|m| m.model_id == "grok-4-heavy").unwrap();
    assert_eq!(heavy.tier, Tier::Super);
    assert_eq!(heavy.cost, Cost::High);
    let video = list.iter().find(|m| m.model_id == "grok-imagine-1.0-video").unwrap();
    assert!(video.is_video);
    assert_eq!(video.description, "Video generation model");
}

#[test]
fn model_get_and_valid_agree() {
    let m = ModelService::get("grok-4.1-fast").unwrap();
    assert_eq!(m.grok_model, "grok-4-1-thinking-1129");
    assert_eq!(m.model_mode, "MODEL_MODE_FAST");
    assert!(ModelService::valid("grok-4.1-fast"));
    assert!(ModelService::get("gpt-4").is_none());
    assert!(!ModelService::valid("gpt-4"));
}

#[test]
fn pool_candidates_by_tier() {
    assert_eq!(ModelService::pool_candidates_for_model("grok-4-heavy"), vec!["ssoSuper"]);
    assert_eq!(
        ModelService::pool_candidates_for_model("grok-3"),
        vec!["ssoBasic", "ssoSuper"]
    );
    assert_eq!(
        ModelService::pool_candidates_for_model("unknown"),
        vec!["ssoBasic", "ssoSuper"]
    );
}

#[test]
fn browser_detection_and_versions() {
    assert_eq!(
        detect_browser("Chrome_136"),
        Some(("Google Chrome", "136".to_string()))
    );
    assert_eq!(
        detect_browser("edge-142"),
        Some(("Microsoft Edge", "142".to_string()))
    );
    assert_eq!(detect_browser("firefox_133"), None);
    assert_eq!(extract_version("chrome_-120", "chrome"), "120");
}

#[test]
fn platform_and_arch_hints() {
    assert_eq!(build_os_platform_ua(Platform::MacOs), "Macintosh; Intel Mac OS X 10_15_7");
    assert_eq!(build_platform_hint(Platform::Linux), "\"Linux\"");
    assert_eq!(build_platform_hint(Platform::Other), "\"Windows\"");
    assert_eq!(build_arch_hint(Arch::Arm), "arm");
    assert_eq!(build_arch_hint(Arch::X86), "x86");
}

#[test]
fn user_agents_for_browsers() {
    assert_eq!(
        build_user_agent("chrome_136", Platform::Linux),
        "Mozilla/5.0 (X11; Linux x86_64) AppleWebKit/537.36 (KHTML, like Gecko) Chrome/136.0.0.0 Safari/537.36"
    );
    assert_eq!(
        build_user_agent("edge_142", Platform::Other),
        "Mozilla/5.0 (Windows NT 10.0; Win64; x64) AppleWebKit/537.36 (KHTML, like Gecko) Chrome/142.0.0.0 Safari/537.36 Edg/142.0.0.0"
    );
    assert_eq!(
        build_sec_ch_ua("Google Chrome", "136"),
        "\"Google Chrome\";v=\"136\", \"Chromium\";v=\"136\", \"Not(A:Brand\";v=\"24\""
    );
}

#[test]
fn cookie_with_and_without_clearance() {
    assert_eq!(build_cookie("abc", ""), "sso=abc; sso-rw=abc");
    assert_eq!(
        build_cookie("sso=abc", " cf1 "),
        "sso=abc; sso-rw=abc; cf_clearance=cf1"
    );
}

#[test]
fn configured_user_agent_wins() {
    let c = cfg("chrome_136", "  MyAgent/1.0 ", "");
    assert_eq!(get_matched_user_agent(&c, Platform::Linux), "  MyAgent/1.0 ");
}

#[test]
fn grok_headers_carry_token_and_request_id() {
    let c = cfg("chrome_136", "", "");
    let h = build_grok_headers_with_id("tok", None, None, &c, "sig", "rid-1", Platform::Linux, Arch::X86);
    let get = |k: &str| h.iter().find(|(n, _)| n == k).map(|(_, v)| v.clone());
    assert_eq!(get("Cookie"), Some("sso=tok; sso-rw=tok".to_string()));
    assert_eq!(get("x-statsig-id"), Some("sig".to_string()));
    assert_eq!(get("x-xai-request-id"), Some("rid-1".to_string()));
    assert_eq!(get("Content-Type"), Some("application/json".to_string()));
}
