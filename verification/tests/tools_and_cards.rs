use grok2api::cards::{build_card_map, parse_card_attachment, replace_render_cards, CardMap};
use grok2api::json::Json;
use grok2api::tools::{
    extract_attr, extract_json_field, extract_tool_text, extract_xml_content,
    filter_tool_usage_content, feed_tool_cards, tool_cards_readable,
};

fn obj(members: Vec<(&str, Json)>) -> Json {
    Json::Object(members.into_iter().map(|(k, v)| (k.to_string(), v)).collect())
}

fn s(x: &str) -> Json {
    Json::Str(x.to_string())
}

#[test]
fn xml_content_plain_and_cdata() {
    assert_eq!(
        extract_xml_content("<a><xai:tool_name> web_search </xai:tool_name>", "xai:tool_name"),
        Some("web_search".to_string())
    );
    assert_eq!(
        extract_xml_content(
            "<xai:tool_args><![CDATA[{\"query\":\"rust\"}]]></xai:tool_args>",
            "xai:tool_args"
        ),
        Some("{\"query\":\"rust\"}".to_string())
    );
    assert_eq!(extract_xml_content("<x>1</x>", "y"), None);
}

#[test]
fn json_field_reads_string_members() {
    assert_eq!(extract_json_field("{\"query\":\"rust\"}", "query"), Some("rust".to_string()));
    assert_eq!(extract_json_field("{\"query\":3}", "query"), None);
    assert_eq!(extract_json_field("not json", "query"), None);
    assert_eq!(extract_json_field("[\"a\"]", "0"), None);
    assert_eq!(extract_json_field("{\"a/b\":\"x\"}", "a/b"), Some("x".to_string()));
    assert_eq!(extract_json_field("{\"a\":{\"b\":\"x\"}}", "a/b"), None);
}

#[test]
fn tool_text_for_known_tools() {
    let web = "<xai:tool_usage_card><xai:tool_name>web_search</xai:tool_name><xai:tool_args><![CDATA[{\"query\":\"verus\"}]]></xai:tool_args></xai:tool_usage_card>";
    assert_eq!(extract_tool_text(web, ""), "[WebSearch] verus\n");
    assert_eq!(extract_tool_text(web, "r1"), "[r1][WebSearch] verus\n");
    let other = "<xai:tool_name>calc</xai:tool_name><xai:tool_args>1+1</xai:tool_args>";
    assert_eq!(extract_tool_text(other, ""), "[calc] 1+1\n");
    assert_eq!(extract_tool_text("nothing here", "r1"), "");
    let img = "<xai:tool_name>search_images</xai:tool_name><xai:tool_args>{\"description\":\"cats\"}</xai:tool_args>";
    assert_eq!(extract_tool_text(img, ""), "[SearchImage] cats\n");
    let chat = "<xai:tool_name>chatroom_send</xai:tool_name><xai:tool_args>not json</xai:tool_args>";
    assert_eq!(extract_tool_text(chat, ""), "[AgentThink] not json\n");
}

#[test]
fn tool_cards_filtered_from_whole_text() {
    let content = "before <xai:tool_usage_card><xai:tool_name>web_search</xai:tool_name><xai:tool_args>{\"query\":\"q\"}</xai:tool_args></xai:tool_usage_card> after";
    assert!(tool_cards_readable(content));
    assert_eq!(
        filter_tool_usage_content(content, ""),
        "before [WebSearch] q\n after"
    );
    assert_eq!(
        filter_tool_usage_content("x <xai:tool_usage_card> never closed", ""),
        "x "
    );
    assert_eq!(filter_tool_usage_content("plain", "r"), "plain");
}

#[test]
fn tool_card_spanning_tokens() {
    let mut opened = false;
    let mut buffer: Vec<char> = Vec::new();
    let rid: Vec<char> = Vec::new();
    let t1: Vec<char> = "Hi <xai:tool_usage_card><xai:tool_name>web_search".chars().collect();
    let out1 = feed_tool_cards(&mut opened, &mut buffer, &rid, &t1);
    assert_eq!(out1.iter().collect::<String>(), "Hi ");
    assert!(opened);
    let t2: Vec<char> = "</xai:tool_name><xai:tool_args>{\"query\":\"z\"}</xai:tool_args></xai:tool_usage_card>!"
        .chars()
        .collect();
    let out2 = feed_tool_cards(&mut opened, &mut buffer, &rid, &t2);
    assert_eq!(out2.iter().collect::<String>(), "[WebSearch] z\n!");
    assert!(!opened);
    assert!(buffer.is_empty());
}

#[test]
fn splitting_a_token_between_tags_changes_nothing() {
    let whole = "a<xai:tool_usage_card><xai:tool_name>x</xai:tool_name><xai:tool_args>y</xai:tool_args></xai:tool_usage_card>b<xai:tool_usage_card>z";
    let rid: Vec<char> = "r".chars().collect();
    let feed = |parts: &[&str]| {
        let mut opened = false;
        let mut buffer: Vec<char> = Vec::new();
        let mut out = String::new();
        for p in parts {
            let t: Vec<char> = p.chars().collect();
            out.extend(feed_tool_cards(&mut opened, &mut buffer, &rid, &t));
        }
        (out, opened, buffer.iter().collect::<String>())
    };
    let one = feed(&[whole]);
    assert_eq!(one, ("a[r][x] y\nb".to_string(), true, "<xai:tool_usage_card>z".to_string()));
    for k in [1, 30, 60, 109, whole.len() - 1] {
        assert_eq!(feed(&[&whole[..k], &whole[k..]]), one, "split at {k}");
    }
}

#[test]
fn attribute_values() {
    assert_eq!(
        extract_attr("<grok:render card_id=\"c1\" type=\"x\">", "card_id"),
        Some("c1".to_string())
    );
    assert_eq!(extract_attr("<grok:render>", "card_id"), None);
}

#[test]
fn streamed_card_attachment_markdown() {
    let card = obj(vec![(
        "jsonData",
        s(" {\"image\":{\"original\":\"https://img/1.png\",\"title\":\"A\\ncat\"}} "),
    )]);
    assert_eq!(
        parse_card_attachment(&card),
        Some("![A cat](https://img/1.png)\n".to_string())
    );
    let untitled = obj(vec![("jsonData", s("{\"image\":{\"original\":\"u\"}}"))]);
    assert_eq!(parse_card_attachment(&untitled), Some("![image](u)\n".to_string()));
    let empty = obj(vec![("jsonData", s("{\"image\":{\"original\":\"\"}}"))]);
    assert_eq!(parse_card_attachment(&empty), None);
}

#[test]
fn render_tags_become_images() {
    let cards = vec![
        s("{\"id\":\"c1\",\"image\":{\"original\":\"https://a/1.png\",\"title\":\"one\"}}"),
        s("{\"id\":\"c2\",\"image\":{\"original\":\"https://a/2.png\",\"title\":\" \"}}"),
        s("not json"),
    ];
    let map = build_card_map(&cards);
    assert!(!map.is_empty());
    let text = "A <grok:render card_id=\"c1\"></grok:render> B <grok:render card_id=\"c2\"/> C <grok:render card_id=\"zz\"/>";
    assert_eq!(
        replace_render_cards(text, &map),
        "A ![one](https://a/1.png) B ![image](https://a/2.png) C "
    );
}

#[test]
fn title_with_angle_bracket_is_still_rendered() {
    let mut map = CardMap::new();
    map.insert("c".to_string(), "a<b".to_string(), "u<1".to_string());
    assert_eq!(
        replace_render_cards("x <grok:render card_id=\"c\"/> y <grok:render card_id=\"c\"/>", &map),
        "x ![a<b](u<1) y ![a<b](u<1)"
    );
}

#[test]
fn later_card_entry_wins() {
    let mut map = CardMap::new();
    assert!(map.is_empty());
    map.insert("c".to_string(), "old".to_string(), "u1".to_string());
    map.insert("c".to_string(), "new".to_string(), "u2".to_string());
    let id: Vec<char> = "c".chars().collect();
    let (t, u) = map.get(&id).unwrap();
    assert_eq!(t.iter().collect::<String>(), "new");
    assert_eq!(u.iter().collect::<String>(), "u2");
}

#[test]
fn unterminated_render_tag_is_left() {
    let map = CardMap::new();
    assert_eq!(replace_render_cards("x <grok:render card_id=\"c", &map), "x <grok:render card_id=\"c");
}

#[test]
fn streamed_and_collected_filters_agree() {
    let content = "a<xai:tool_usage_card><xai:tool_name>web_search</xai:tool_name><xai:tool_args>{\"query\":\"q\"}</xai:tool_args></xai:tool_usage_card>b<xai:tool_usage_card>open";
    let mut opened = false;
    let mut buffer: Vec<char> = Vec::new();
    let rid: Vec<char> = "r".chars().collect();
    let token: Vec<char> = content.chars().collect();
    let streamed: String = feed_tool_cards(&mut opened, &mut buffer, &rid, &token).iter().collect();
    assert_eq!(streamed, filter_tool_usage_content(content, "r"));
    assert_eq!(streamed, "a[r][WebSearch] q\nb");
    assert!(opened);
}
