use dcw::commands::update::{
    asset_name, detect_target, parse_tag_from_response, release_tag, run, tag_of_document,
    UpdateArgs, UpdateError, UpdatePlan,
};
use dcw::json::{Json, JsonNumber};

#[test]
fn parse_tag_pretty_printed() {
    let body = r#"{
  "tag_name": "v0.2.0",
  "name": "Release v0.2.0",
  "draft": false
}"#;
    assert_eq!(parse_tag_from_response(body).unwrap(), "v0.2.0");
}

#[test]
fn parse_tag_minified() {
    let body = r#"{"tag_name":"v1.0.0","name":"Release"}"#;
    assert_eq!(parse_tag_from_response(body).unwrap(), "v1.0.0");
}

#[test]
fn parse_tag_missing_field() {
    let body = r#"{"name": "Release"}"#;
    assert!(parse_tag_from_response(body).is_err());
}

#[test]
fn parse_tag_invalid_json() {
    let body = "not json at all";
    assert!(parse_tag_from_response(body).is_err());
}

#[test]
fn parse_tag_tells_its_errors_apart() {
    assert_eq!(parse_tag_from_response(r#"{"name": "Release"}"#), Err(UpdateError::MissingTag));
    assert_eq!(parse_tag_from_response(r#"{"tag_name": 3}"#), Err(UpdateError::MissingTag));
    assert_eq!(parse_tag_from_response(r#"["tag_name"]"#), Err(UpdateError::MissingTag));
    assert!(matches!(
        parse_tag_from_response("not json at all"),
        Err(UpdateError::InvalidResponse { .. })
    ));
}

#[test]
fn a_target_is_known_for_two_architectures() {
    assert_eq!(detect_target("x86_64"), Ok("x86_64-unknown-linux-gnu".to_string()));
    assert_eq!(detect_target("aarch64"), Ok("aarch64-unknown-linux-gnu".to_string()));
    assert_eq!(
        detect_target("riscv64"),
        Err(UpdateError::UnsupportedArchitecture { arch: "riscv64".to_string() })
    );
    assert_eq!(
        detect_target("x86_64 "),
        Err(UpdateError::UnsupportedArchitecture { arch: "x86_64 ".to_string() })
    );
}

#[test]
fn a_tag_has_one_leading_v() {
    assert_eq!(release_tag("0.2.0"), "v0.2.0");
    assert_eq!(release_tag("v0.2.0"), "v0.2.0");
    assert_eq!(release_tag("vv1"), "vv1");
    assert_eq!(release_tag(""), "v");
    assert_eq!(asset_name("v0.2.0", "x86_64-unknown-linux-gnu"), "dcw-v0.2.0-x86_64-unknown-linux-gnu.tar.gz");
}

#[test]
fn an_update_installs_unless_up_to_date() {
    let asked = UpdateArgs { version: None, force: false };
    let forced = UpdateArgs { version: None, force: true };
    assert_eq!(run(&asked, "v0.2.0", "0.2.0"), UpdatePlan::UpToDate);
    assert_eq!(run(&asked, "v0.2.0", "v0.2.0"), UpdatePlan::UpToDate);
    assert_eq!(
        run(&forced, "v0.2.0", "0.2.0"),
        UpdatePlan::Install { tag: "v0.2.0".to_string(), reinstall: true }
    );
    assert_eq!(
        run(&asked, "v0.3.0", "0.2.0"),
        UpdatePlan::Install { tag: "v0.3.0".to_string(), reinstall: false }
    );
    assert_eq!(
        run(&forced, "v0.3.0", "0.2.0"),
        UpdatePlan::Install { tag: "v0.3.0".to_string(), reinstall: false }
    );
}

#[test]
fn a_tag_is_the_string_under_tag_name() {
    let member = |key: &str, value: Json| (key.to_string(), value);
    let text = |s: &str| Json::Text(s.to_string());
    let release = Json::Object(vec![member("name", text("Release")), member("tag_name", text("v0.2.0"))]);
    assert_eq!(tag_of_document(&release), Ok("v0.2.0".to_string()));
    let first_wins = Json::Object(vec![member("tag_name", text("v1")), member("tag_name", text("v2"))]);
    assert_eq!(tag_of_document(&first_wins), Ok("v1".to_string()));
    let number = Json::Object(vec![member("tag_name", Json::Number(JsonNumber::Unsigned(2)))]);
    assert_eq!(tag_of_document(&number), Err(UpdateError::MissingTag));
    assert_eq!(tag_of_document(&Json::Object(vec![])), Err(UpdateError::MissingTag));
    assert_eq!(tag_of_document(&text("v0.2.0")), Err(UpdateError::MissingTag));
    assert_eq!(tag_of_document(&Json::Array(vec![text("tag_name")])), Err(UpdateError::MissingTag));
}
