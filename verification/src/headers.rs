//! Request headers that match the browser the upstream client emulates.

use vstd::prelude::*;
use crate::text::{
    ascii_lower_exec, ascii_lower_seq, chars_of, extend, extend_str, slice_chars, starts_with,
    starts_with_exec, string_of, strip_prefix, trim, trim_exec, trim_start_char,
    trim_start_char_exec,
};
use crate::ext::{is_hyphenated_uuid, new_uuid_hyphenated};

verus! {

/// Operating system the service was built for; it decides the platform
/// part of the generated User-Agent and the platform client hint.
#[derive(Debug, Clone, Copy, PartialEq, Eq, Structural)]
pub enum Platform {
    MacOs,
    Linux,
    Other,
}

/// CPU family the service was built for; it decides the architecture
/// client hint.
#[derive(Debug, Clone, Copy, PartialEq, Eq, Structural)]
pub enum Arch {
    Arm,
    X86,
}

/// The configuration the headers depend on.
pub struct HeaderConfig {
    /// Name of the emulated browser, such as `chrome_136`.
    pub emulation: String,
    /// A User-Agent set by the operator; blank means "generate one".
    pub user_agent: String,
    /// An optional Cloudflare clearance cookie; blank means none.
    pub cf_clearance: String,
}

// ---------------------------------------------------------------------------
// Specifications
// ---------------------------------------------------------------------------

/// The version that follows `prefix` in an emulation name such as
/// `chrome_144`, `chrome-144` or `chrome144`.
pub open spec fn version_after(lower: Seq<char>, prefix: Seq<char>) -> Seq<char> {
    let rest = match strip_prefix(lower, prefix) {
        Some(r) => r,
        None => Seq::empty(),
    };
    trim_start_char(trim_start_char(rest, '_'), '-')
}

/// Brand and version of a Chromium-based emulation; `None` for browsers that
/// send no client hints.
pub open spec fn browser_of(emulation: Seq<char>) -> Option<(Seq<char>, Seq<char>)> {
    let lower = ascii_lower_seq(emulation);
    if starts_with(lower, "chrome"@) {
        Some(("Google Chrome"@, version_after(lower, "chrome"@)))
    } else if starts_with(lower, "edge"@) {
        Some(("Microsoft Edge"@, version_after(lower, "edge"@)))
    } else {
        None
    }
}

pub open spec fn or_default(v: Seq<char>, d: Seq<char>) -> Seq<char> {
    if v.len() == 0 {
        d
    } else {
        v
    }
}

pub open spec fn os_platform(p: Platform) -> Seq<char> {
    match p {
        Platform::MacOs => "Macintosh; Intel Mac OS X 10_15_7"@,
        Platform::Linux => "X11; Linux x86_64"@,
        Platform::Other => "Windows NT 10.0; Win64; x64"@,
    }
}

pub open spec fn platform_hint(p: Platform) -> Seq<char> {
    match p {
        Platform::MacOs => "\"macOS\""@,
        Platform::Linux => "\"Linux\""@,
        Platform::Other => "\"Windows\""@,
    }
}

pub open spec fn arch_hint(a: Arch) -> Seq<char> {
    match a {
        Arch::Arm => "arm"@,
        Arch::X86 => "x86"@,
    }
}

/// The User-Agent generated for an emulation name.
pub open spec fn user_agent_for(emulation: Seq<char>, p: Platform) -> Seq<char> {
    let lower = ascii_lower_seq(emulation);
    if starts_with(lower, "firefox"@) {
        let ver = or_default(version_after(lower, "firefox"@), "130"@);
        "Mozilla/5.0 (Windows NT 10.0; Win64; x64; rv:"@ + ver + ".0) Gecko/20100101 Firefox/"@
            + ver + ".0"@
    } else {
        let ver = if starts_with(lower, "chrome"@) {
            or_default(version_after(lower, "chrome"@), "136"@)
        } else if starts_with(lower, "edge"@) {
            or_default(version_after(lower, "edge"@), "136"@)
        } else {
            "136"@
        };
        let ua = "Mozilla/5.0 ("@ + os_platform(p) + ") AppleWebKit/537.36 (KHTML, like Gecko) Chrome/"@
            + ver + ".0.0.0 Safari/537.36"@;
        if starts_with(lower, "edge"@) {
            ua + " Edg/"@ + ver + ".0.0.0"@
        } else {
            ua
        }
    }
}

/// The `Sec-Ch-Ua` value for a Chromium brand and version.
pub open spec fn sec_ch_ua(brand: Seq<char>, version: Seq<char>) -> Seq<char> {
    "\""@ + brand + "\";v=\""@ + version + "\", \"Chromium\";v=\""@ + version
        + "\", \"Not(A:Brand\";v=\"24\""@
}

/// The cookie for an SSO token (with or without its `sso=` prefix).
pub open spec fn cookie_for(token: Seq<char>, cf_clearance: Seq<char>) -> Seq<char> {
    let raw = match strip_prefix(token, "sso="@) {
        Some(r) => r,
        None => token,
    };
    let cf = trim(cf_clearance);
    if cf.len() == 0 {
        "sso="@ + raw + "; sso-rw="@ + raw
    } else {
        "sso="@ + raw + "; sso-rw="@ + raw + "; cf_clearance="@ + cf
    }
}

/// The User-Agent in effect: the configured one, or a generated one when the
/// configured one is blank.
pub open spec fn effective_user_agent(cfg: HeaderConfig, p: Platform) -> Seq<char> {
    if trim(cfg.user_agent@).len() == 0 {
        user_agent_for(cfg.emulation@, p)
    } else {
        cfg.user_agent@
    }
}

pub open spec fn opt_or(v: Option<Seq<char>>, d: Seq<char>) -> Seq<char> {
    match v {
        Some(x) => x,
        None => d,
    }
}

/// The headers of a request to the chat backend, in order.
pub open spec fn grok_headers(
    token: Seq<char>,
    content_type: Option<Seq<char>>,
    referer: Option<Seq<char>>,
    cfg: HeaderConfig,
    statsig_id: Seq<char>,
    request_id: Seq<char>,
    p: Platform,
    a: Arch,
) -> Seq<(Seq<char>, Seq<char>)> {
    let head = seq![
        ("Accept"@, "*/*"@),
        ("Accept-Encoding"@, "gzip, deflate, br, zstd"@),
        ("Accept-Language"@, "zh-CN,zh;q=0.9"@),
        (
            "Baggage"@,
            "sentry-environment=production,sentry-release=d6add6fb0460641fd482d767a335ef72b9b6abb8,sentry-public_key=b311e0f2690c81f25e2c4cf6d4f7ce1c"@,
        ),
        ("Cache-Control"@, "no-cache"@),
        ("Content-Type"@, opt_or(content_type, "application/json"@)),
        ("Origin"@, "https://grok.com"@),
        ("Pragma"@, "no-cache"@),
        ("Priority"@, "u=1, i"@),
        ("Referer"@, opt_or(referer, "https://grok.com/"@)),
    ];
    let hints = match browser_of(cfg.emulation@) {
        Some((brand, version)) => seq![
            ("Sec-Ch-Ua"@, sec_ch_ua(brand, version)),
            ("Sec-Ch-Ua-Arch"@, arch_hint(a)),
            ("Sec-Ch-Ua-Bitness"@, "64"@),
            ("Sec-Ch-Ua-Mobile"@, "?0"@),
            ("Sec-Ch-Ua-Model"@, ""@),
            ("Sec-Ch-Ua-Platform"@, platform_hint(p)),
        ],
        None => Seq::empty(),
    };
    let tail = seq![
        ("Sec-Fetch-Dest"@, "empty"@),
        ("Sec-Fetch-Mode"@, "cors"@),
        ("Sec-Fetch-Site"@, "same-origin"@),
        ("User-Agent"@, effective_user_agent(cfg, p)),
        ("x-statsig-id"@, statsig_id),
        ("x-xai-request-id"@, request_id),
        ("Cookie"@, cookie_for(token, cfg.cf_clearance@)),
    ];
    head + hints + tail
}

/// The headers of an asset download, in order.
pub open spec fn download_headers(token: Seq<char>, cfg: HeaderConfig, p: Platform) -> Seq<
    (Seq<char>, Seq<char>),
> {
    seq![
        (
            "Accept"@,
            "text/html,application/xhtml+xml,application/xml;q=0.9,image/avif,image/webp,*/*;q=0.8"@,
        ),
        ("Sec-Fetch-Dest"@, "document"@),
        ("Sec-Fetch-Mode"@, "navigate"@),
        ("Sec-Fetch-Site"@, "same-site"@),
        ("Sec-Fetch-User"@, "?1"@),
        ("Upgrade-Insecure-Requests"@, "1"@),
        ("User-Agent"@, effective_user_agent(cfg, p)),
        ("Cookie"@, cookie_for(token, cfg.cf_clearance@)),
        ("Referer"@, "https://grok.com/"@),
    ]
}

/// The names and values of a header list.
pub open spec fn pairs_view(h: Seq<(String, String)>) -> Seq<(Seq<char>, Seq<char>)> {
    h.map_values(|p: (String, String)| (p.0@, p.1@))
}

// ---------------------------------------------------------------------------
// Executable functions
// ---------------------------------------------------------------------------

/// Brand and version of a Chromium-based emulation, `None` for browsers that
/// send no client hints.
pub fn detect_browser(emulation: &str) -> (r: Option<(&'static str, String)>)
    ensures
        r matches Some((b, v)) ==> browser_of(emulation@) == Some((b@, v@)),
        r is None ==> browser_of(emulation@) is None,
{
    let lower = ascii_lower_exec(chars_of(emulation).as_slice());
    let chrome = chars_of("chrome");
    let edge = chars_of("edge");
    if starts_with_exec(lower.as_slice(), chrome.as_slice()) {
        let v = extract_version_chars(lower.as_slice(), chrome.as_slice());
        Some(("Google Chrome", string_of(v.as_slice())))
    } else if starts_with_exec(lower.as_slice(), edge.as_slice()) {
        let v = extract_version_chars(lower.as_slice(), edge.as_slice());
        Some(("Microsoft Edge", string_of(v.as_slice())))
    } else {
        None
    }
}

fn extract_version_chars(lower: &[char], prefix: &[char]) -> (r: Vec<char>)
    ensures
        r@ == version_after(lower@, prefix@),
{
    let rest = if starts_with_exec(lower, prefix) {
        slice_chars(lower, prefix.len(), lower.len())
    } else {
        Vec::new()
    };
    assert(starts_with(lower@, prefix@) ==> lower@.subrange(prefix@.len() as int, lower@.len() as int)
        == lower@.skip(prefix@.len() as int));
    let a = trim_start_char_exec(rest.as_slice(), '_');
    trim_start_char_exec(a.as_slice(), '-')
}

/// The version that follows `prefix` in an emulation name such as
/// `chrome_144`.
pub fn extract_version(lower: &str, prefix: &str) -> (r: String)
    ensures
        r@ == version_after(lower@, prefix@),
{
    let v = extract_version_chars(chars_of(lower).as_slice(), chars_of(prefix).as_slice());
    string_of(v.as_slice())
}

/// The platform part of the generated User-Agent.
pub fn build_os_platform_ua(p: Platform) -> (r: &'static str)
    ensures
        r@ == os_platform(p),
{
    match p {
        Platform::MacOs => "Macintosh; Intel Mac OS X 10_15_7",
        Platform::Linux => "X11; Linux x86_64",
        Platform::Other => "Windows NT 10.0; Win64; x64",
    }
}

/// The `Sec-Ch-Ua-Platform` value.
pub fn build_platform_hint(p: Platform) -> (r: &'static str)
    ensures
        r@ == platform_hint(p),
{
    match p {
        Platform::MacOs => "\"macOS\"",
        Platform::Linux => "\"Linux\"",
        Platform::Other => "\"Windows\"",
    }
}

/// The `Sec-Ch-Ua-Arch` value.
pub fn build_arch_hint(a: Arch) -> (r: &'static str)
    ensures
        r@ == arch_hint(a),
{
    match a {
        Arch::Arm => "arm",
        Arch::X86 => "x86",
    }
}

fn or_default_exec(v: Vec<char>, d: &str) -> (r: Vec<char>)
    ensures
        r@ == or_default(v@, d@),
{
    if v.len() == 0 {
        chars_of(d)
    } else {
        v
    }
}

/// The User-Agent generated for an emulation name.
pub fn build_user_agent(emulation: &str, p: Platform) -> (r: String)
    ensures
        r@ == user_agent_for(emulation@, p),
{
    let lower = ascii_lower_exec(chars_of(emulation).as_slice());
    let firefox = chars_of("firefox");
    let chrome = chars_of("chrome");
    let edge = chars_of("edge");
    let mut out: Vec<char> = Vec::new();
    if starts_with_exec(lower.as_slice(), firefox.as_slice()) {
        let ver = or_default_exec(
            extract_version_chars(lower.as_slice(), firefox.as_slice()),
            "130",
        );
        extend_str(&mut out, "Mozilla/5.0 (Windows NT 10.0; Win64; x64; rv:");
        extend(&mut out, ver.as_slice());
        extend_str(&mut out, ".0) Gecko/20100101 Firefox/");
        extend(&mut out, ver.as_slice());
        extend_str(&mut out, ".0");
        return string_of(out.as_slice());
    }
    let is_edge = starts_with_exec(lower.as_slice(), edge.as_slice());
    let ver = if starts_with_exec(lower.as_slice(), chrome.as_slice()) {
        or_default_exec(extract_version_chars(lower.as_slice(), chrome.as_slice()), "136")
    } else if is_edge {
        or_default_exec(extract_version_chars(lower.as_slice(), edge.as_slice()), "136")
    } else {
        chars_of("136")
    };
    extend_str(&mut out, "Mozilla/5.0 (");
    extend_str(&mut out, build_os_platform_ua(p));
    extend_str(&mut out, ") AppleWebKit/537.36 (KHTML, like Gecko) Chrome/");
    extend(&mut out, ver.as_slice());
    extend_str(&mut out, ".0.0.0 Safari/537.36");
    if is_edge {
        extend_str(&mut out, " Edg/");
        extend(&mut out, ver.as_slice());
        extend_str(&mut out, ".0.0.0");
    }
    string_of(out.as_slice())
}

/// The `Sec-Ch-Ua` value for a Chromium brand and version.
pub fn build_sec_ch_ua(brand: &str, version: &str) -> (r: String)
    ensures
        r@ == sec_ch_ua(brand@, version@),
{
    let mut out: Vec<char> = Vec::new();
    extend_str(&mut out, "\"");
    extend_str(&mut out, brand);
    extend_str(&mut out, "\";v=\"");
    extend_str(&mut out, version);
    extend_str(&mut out, "\", \"Chromium\";v=\"");
    extend_str(&mut out, version);
    extend_str(&mut out, "\", \"Not(A:Brand\";v=\"24\"");
    string_of(out.as_slice())
}

/// The cookie for an SSO token, with the clearance cookie when one is set.
pub fn build_cookie(token: &str, cf_clearance: &str) -> (r: String)
    ensures
        r@ == cookie_for(token@, cf_clearance@),
{
    let t = chars_of(token);
    let sso = chars_of("sso=");
    let raw = if starts_with_exec(t.as_slice(), sso.as_slice()) {
        slice_chars(t.as_slice(), sso.len(), t.len())
    } else {
        t
    };
    assert(starts_with(token@, "sso="@) ==> token@.subrange(4, token@.len() as int) == token@.skip(4));
    let cf = trim_exec(chars_of(cf_clearance).as_slice());
    let mut out: Vec<char> = Vec::new();
    extend_str(&mut out, "sso=");
    extend(&mut out, raw.as_slice());
    extend_str(&mut out, "; sso-rw=");
    extend(&mut out, raw.as_slice());
    if cf.len() != 0 {
        extend_str(&mut out, "; cf_clearance=");
        extend(&mut out, cf.as_slice());
    }
    string_of(out.as_slice())
}

/// The User-Agent in effect and the emulation name it was derived from.
pub fn resolve_user_agent(cfg: &HeaderConfig, p: Platform) -> (r: (String, String))
    ensures
        r.0@ == effective_user_agent(*cfg, p),
        r.1@ == cfg.emulation@,
{
    let custom = trim_exec(chars_of(cfg.user_agent.as_str()).as_slice());
    let ua = if custom.len() == 0 {
        build_user_agent(cfg.emulation.as_str(), p)
    } else {
        cfg.user_agent.clone()
    };
    (ua, cfg.emulation.clone())
}

/// The User-Agent matching the emulated browser.
pub fn get_matched_user_agent(cfg: &HeaderConfig, p: Platform) -> (r: String)
    ensures
        r@ == effective_user_agent(*cfg, p),
{
    resolve_user_agent(cfg, p).0
}

fn push_header(h: &mut Vec<(String, String)>, name: &str, value: String)
    ensures
        pairs_view(final(h)@) == pairs_view(old(h)@).push((name@, value@)),
{
    h.push((String::from_str(name), value));
    assert(pairs_view(h@) =~= pairs_view(old(h)@).push((name@, value@)));
}

fn push_lit(h: &mut Vec<(String, String)>, name: &str, value: &str)
    ensures
        pairs_view(final(h)@) == pairs_view(old(h)@).push((name@, value@)),
{
    push_header(h, name, String::from_str(value));
}

/// The headers of a request to the chat backend with the given request id.
pub fn build_grok_headers_with_id(
    token: &str,
    content_type: Option<&str>,
    referer: Option<&str>,
    cfg: &HeaderConfig,
    statsig_id: &str,
    request_id: &str,
    p: Platform,
    a: Arch,
) -> (r: Vec<(String, String)>)
    ensures
        pairs_view(r@) == grok_headers(
            token@,
            match content_type {
                Some(c) => Some(c@),
                None => None,
            },
            match referer {
                Some(c) => Some(c@),
                None => None,
            },
            *cfg,
            statsig_id@,
            request_id@,
            p,
            a,
        ),
{
    let (user_agent, emulation) = resolve_user_agent(cfg, p);
    let mut h: Vec<(String, String)> = Vec::new();
    push_lit(&mut h, "Accept", "*/*");
    push_lit(&mut h, "Accept-Encoding", "gzip, deflate, br, zstd");
    push_lit(&mut h, "Accept-Language", "zh-CN,zh;q=0.9");
    push_lit(
        &mut h,
        "Baggage",
        "sentry-environment=production,sentry-release=d6add6fb0460641fd482d767a335ef72b9b6abb8,sentry-public_key=b311e0f2690c81f25e2c4cf6d4f7ce1c",
    );
    push_lit(&mut h, "Cache-Control", "no-cache");
    let ct = match content_type {
        Some(c) => c,
        None => "application/json",
    };
    push_lit(&mut h, "Content-Type", ct);
    push_lit(&mut h, "Origin", "https://grok.com");
    push_lit(&mut h, "Pragma", "no-cache");
    push_lit(&mut h, "Priority", "u=1, i");
    let rf = match referer {
        Some(c) => c,
        None => "https://grok.com/",
    };
    push_lit(&mut h, "Referer", rf);
    let ghost head = pairs_view(h@);
    if let Some((brand, version)) = detect_browser(emulation.as_str()) {
        push_header(&mut h, "Sec-Ch-Ua", build_sec_ch_ua(brand, version.as_str()));
        push_lit(&mut h, "Sec-Ch-Ua-Arch", build_arch_hint(a));
        push_lit(&mut h, "Sec-Ch-Ua-Bitness", "64");
        push_lit(&mut h, "Sec-Ch-Ua-Mobile", "?0");
        push_lit(&mut h, "Sec-Ch-Ua-Model", "");
        push_lit(&mut h, "Sec-Ch-Ua-Platform", build_platform_hint(p));
    }
    let ghost mid = pairs_view(h@);
    push_lit(&mut h, "Sec-Fetch-Dest", "empty");
    push_lit(&mut h, "Sec-Fetch-Mode", "cors");
    push_lit(&mut h, "Sec-Fetch-Site", "same-origin");
    push_header(&mut h, "User-Agent", user_agent);
    push_lit(&mut h, "x-statsig-id", statsig_id);
    push_lit(&mut h, "x-xai-request-id", request_id);
    push_header(&mut h, "Cookie", build_cookie(token, cfg.cf_clearance.as_str()));
    assert(pairs_view(h@) =~= grok_headers(
        token@,
        match content_type {
            Some(c) => Some(c@),
            None => None,
        },
        match referer {
            Some(c) => Some(c@),
            None => None,
        },
        *cfg,
        statsig_id@,
        request_id@,
        p,
        a,
    ));
    h
}

/// The headers of a request to the chat backend; the request id is a fresh
/// random UUID.
pub fn build_grok_headers(
    token: &str,
    content_type: Option<&str>,
    referer: Option<&str>,
    cfg: &HeaderConfig,
    statsig_id: &str,
    p: Platform,
    a: Arch,
) -> (r: Vec<(String, String)>)
    ensures
        exists|rid: Seq<char>|
            is_hyphenated_uuid(rid) && pairs_view(r@) == grok_headers(
                token@,
                match content_type {
                    Some(c) => Some(c@),
                    None => None,
                },
                match referer {
                    Some(c) => Some(c@),
                    None => None,
                },
                *cfg,
                statsig_id@,
                rid,
                p,
                a,
            ),
{
    let rid = new_uuid_hyphenated();
    build_grok_headers_with_id(token, content_type, referer, cfg, statsig_id, rid.as_str(), p, a)
}

/// The headers of an asset download.
pub fn build_download_headers(token: &str, cfg: &HeaderConfig, p: Platform) -> (r: Vec<
    (String, String),
>)
    ensures
        pairs_view(r@) == download_headers(token@, *cfg, p),
{
    let (user_agent, _) = resolve_user_agent(cfg, p);
    let mut h: Vec<(String, String)> = Vec::new();
    push_lit(
        &mut h,
        "Accept",
        "text/html,application/xhtml+xml,application/xml;q=0.9,image/avif,image/webp,*/*;q=0.8",
    );
    push_lit(&mut h, "Sec-Fetch-Dest", "document");
    push_lit(&mut h, "Sec-Fetch-Mode", "navigate");
    push_lit(&mut h, "Sec-Fetch-Site", "same-site");
    push_lit(&mut h, "Sec-Fetch-User", "?1");
    push_lit(&mut h, "Upgrade-Insecure-Requests", "1");
    push_header(&mut h, "User-Agent", user_agent);
    push_header(&mut h, "Cookie", build_cookie(token, cfg.cf_clearance.as_str()));
    push_lit(&mut h, "Referer", "https://grok.com/");
    assert(pairs_view(h@) =~= download_headers(token@, *cfg, p));
    h
}

/// A Firefox emulation (its name starting with `firefox` in any case) gets
/// the Firefox agent with the version its name gives (130 when it gives
/// none), whatever the platform.
pub proof fn lemma_firefox_agent(emulation: Seq<char>, p: Platform, q: Platform)
    requires
        starts_with(ascii_lower_seq(emulation), "firefox"@),
    ensures
        ({
            let v = or_default(version_after(ascii_lower_seq(emulation), "firefox"@), "130"@);
            user_agent_for(emulation, p) == "Mozilla/5.0 (Windows NT 10.0; Win64; x64; rv:"@ + v
                + ".0) Gecko/20100101 Firefox/"@ + v + ".0"@
        }),
        user_agent_for(emulation, p) == user_agent_for(emulation, q),
{
}

} // verus!
