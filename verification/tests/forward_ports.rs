use dcw::config::{ConfigError, ConfigSource};
use dcw::forward_ports::{
    load_forward_ports, parse_forward_ports_from_value, read_jsonc, strip_comment_lines,
};
use dcw::json::{Json, JsonNumber};

fn num(n: u64) -> Json {
    Json::Number(JsonNumber::Unsigned(n))
}

fn text(s: &str) -> Json {
    Json::Text(s.to_string())
}

fn arr(items: Vec<Json>) -> Json {
    Json::Array(items)
}

fn obj(members: Vec<(&str, Json)>) -> Json {
    Json::Object(members.into_iter().map(|(k, v)| (k.to_string(), v)).collect())
}

#[test]
fn parse_number_ports() {
    let val = obj(vec![("forwardPorts", arr(vec![num(3000), num(8080)]))]);
    assert_eq!(parse_forward_ports_from_value(&val), vec![3000, 8080]);
}

#[test]
fn parse_string_ports() {
    let val = obj(vec![("forwardPorts", arr(vec![text("3000"), text("localhost:8080")]))]);
    assert_eq!(parse_forward_ports_from_value(&val), vec![3000, 8080]);
}

#[test]
fn parse_object_ports() {
    let val = obj(vec![(
        "forwardPorts",
        arr(vec![obj(vec![("port", num(3000))]), obj(vec![("port", num(9090))])]),
    )]);
    assert_eq!(parse_forward_ports_from_value(&val), vec![3000, 9090]);
}

#[test]
fn parse_mixed_ports() {
    let val = obj(vec![(
        "forwardPorts",
        arr(vec![num(3000), text("localhost:8080"), obj(vec![("port", num(9090))])]),
    )]);
    assert_eq!(parse_forward_ports_from_value(&val), vec![3000, 8080, 9090]);
}

#[test]
fn parse_missing_forward_ports() {
    let val = obj(vec![("name", text("test"))]);
    assert_eq!(parse_forward_ports_from_value(&val), Vec::<u16>::new());
}

#[test]
fn read_jsonc_strips_comments() {
    let content = r#"
// This is a comment
{
    // another comment
    "forwardPorts": [3000]
}
"#;
    let val = read_jsonc(content, ConfigSource::Base).unwrap();
    assert_eq!(parse_forward_ports_from_value(&val), vec![3000]);
}

#[test]
fn parse_every_shape_in_order() {
    let val = obj(vec![(
        "forwardPorts",
        arr(vec![num(3000), text("8080"), text("localhost:9090"), obj(vec![("port", num(4000))])]),
    )]);
    assert_eq!(parse_forward_ports_from_value(&val), vec![3000, 8080, 9090, 4000]);
}

#[test]
fn parse_drops_what_is_out_of_range() {
    let val = obj(vec![("forwardPorts", arr(vec![num(3000), num(70000), num(8080)]))]);
    assert_eq!(parse_forward_ports_from_value(&val), vec![3000, 8080]);

    let val = obj(vec![(
        "forwardPorts",
        arr(vec![
            num(0),
            num(65535),
            num(65536),
            Json::Number(JsonNumber::Negative(-1)),
            Json::Number(JsonNumber::Real("80.5".to_string())),
            text("65536"),
            text("host:"),
            text("a:b:81"),
            text("+82"),
            text("-83"),
            text(" 84"),
            text(""),
            obj(vec![("port", num(70000))]),
            obj(vec![("port", text("85"))]),
            obj(vec![("other", num(86))]),
            Json::Null,
            Json::Bool(true),
            arr(vec![num(87)]),
        ]),
    )]);
    assert_eq!(parse_forward_ports_from_value(&val), vec![0, 65535, 81, 82]);
}

#[test]
fn parse_wants_an_array_in_an_object() {
    assert_eq!(parse_forward_ports_from_value(&obj(vec![("forwardPorts", num(3000))])), Vec::<u16>::new());
    assert_eq!(parse_forward_ports_from_value(&arr(vec![num(3000)])), Vec::<u16>::new());
    assert_eq!(parse_forward_ports_from_value(&Json::Null), Vec::<u16>::new());
    assert_eq!(parse_forward_ports_from_value(&obj(vec![("forwardPorts", arr(vec![]))])), Vec::<u16>::new());
}

#[test]
fn strip_comment_lines_empties_whole_line_comments_only() {
    assert_eq!(strip_comment_lines("a\n  // b\nc"), "a\n\nc");
    assert_eq!(strip_comment_lines("// only"), "");
    assert_eq!(strip_comment_lines("{\"u\": \"http://x\"} // tail\n"), "{\"u\": \"http://x\"} // tail");
    assert_eq!(strip_comment_lines("a\r\n\t//x\r\nb\n"), "a\n\nb");
    assert_eq!(strip_comment_lines(""), "");
    assert_eq!(strip_comment_lines("/ /x\n/"), "/ /x\n/");
}

#[test]
fn read_jsonc_is_strict_but_for_comment_lines() {
    assert!(read_jsonc("{\"a\": 1,}", ConfigSource::Base).is_err());
    assert!(read_jsonc("{\"a\": 1} // tail", ConfigSource::Base).is_err());
    match read_jsonc("", ConfigSource::Override) {
        Err(ConfigError::Parse { source, message }) => {
            assert_eq!(source, ConfigSource::Override);
            assert!(!message.is_empty());
        }
        other => panic!("expected a parse error, got {:?}", other),
    }
}

#[test]
fn load_prefers_the_override_if_it_names_ports() {
    let main = "{\"forwardPorts\": [3000]}";
    let local = "{\"forwardPorts\": [\"localhost:8080\"]}";
    assert_eq!(load_forward_ports(Some(local), Some(main)), Ok(vec![8080]));
    assert_eq!(load_forward_ports(Some("{\"forwardPorts\": []}"), Some(main)), Ok(vec![3000]));
    assert_eq!(load_forward_ports(Some("{}"), Some(main)), Ok(vec![3000]));
    assert_eq!(load_forward_ports(None, Some(main)), Ok(vec![3000]));
    assert_eq!(load_forward_ports(Some(local), None), Ok(vec![8080]));
    assert_eq!(load_forward_ports(Some("{}"), None), Ok(Vec::<u16>::new()));
    assert_eq!(load_forward_ports(None, None), Ok(Vec::<u16>::new()));
}

#[test]
fn load_reports_which_document_is_broken() {
    match load_forward_ports(Some("{"), Some("{}")) {
        Err(ConfigError::Parse { source, .. }) => assert_eq!(source, ConfigSource::Override),
        other => panic!("expected a parse error, got {:?}", other),
    }
    match load_forward_ports(Some("{}"), Some("{")) {
        Err(ConfigError::Parse { source, .. }) => assert_eq!(source, ConfigSource::Base),
        other => panic!("expected a parse error, got {:?}", other),
    }
    assert_eq!(load_forward_ports(Some("{\"forwardPorts\": [1]}"), Some("{")), Ok(vec![1]));
}
