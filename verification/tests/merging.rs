use devc::field_order::FieldOrder;
use devc::json::JsonValue;
use devc::merger::{ConfigMerger, DevcontainerJson, MergeError};

fn s(x: &str) -> String {
    x.to_string()
}

#[test]
fn field_order_lists_the_well_known_members() {
    let order = FieldOrder::get_order();
    assert_eq!(order.len(), 11);
    assert_eq!(order[0], "name");
    assert_eq!(order[4], "containerEnv");
    assert_eq!(order[10], "customizations");
    for i in 0..order.len() {
        for j in (i + 1)..order.len() {
            assert_ne!(order[i], order[j]);
        }
    }
}

#[test]
fn escape_string_escapes_quotes_and_controls() {
    assert_eq!(ConfigMerger::escape_string("plain text"), "plain text");
    assert_eq!(ConfigMerger::escape_string("a\"b\\c"), "a\\\"b\\\\c");
    assert_eq!(ConfigMerger::escape_string("l1\nl2\r\tx"), "l1\\nl2\\r\\tx");
    assert_eq!(ConfigMerger::escape_string("\u{1}"), "\\u{0001}");
    assert_eq!(ConfigMerger::escape_string("\u{9f}"), "\\u{009f}");
    assert_eq!(ConfigMerger::escape_string("ñandú"), "ñandú");
}

#[test]
fn write_value_renders_scalars_and_nesting() {
    let mut out = String::new();
    ConfigMerger::write_value(&mut out, &JsonValue::Null, 0);
    assert_eq!(out, "null");
    let mut out = String::from("x=");
    ConfigMerger::write_value(&mut out, &JsonValue::Bool(true), 3);
    assert_eq!(out, "x=true");
    let mut out = String::new();
    let arr = JsonValue::Array(vec![JsonValue::Number(s("1")), JsonValue::String(s("a"))]);
    ConfigMerger::write_value(&mut out, &arr, 1);
    assert_eq!(out, "[\n    1,\n    \"a\"\n  ]");
    let mut out = String::new();
    ConfigMerger::write_value(&mut out, &JsonValue::Array(vec![]), 0);
    assert_eq!(out, "[]\n");
    let mut out = String::new();
    ConfigMerger::write_value(&mut out, &JsonValue::Object(vec![]), 0);
    assert_eq!(out, "{}\n");
}

#[test]
fn serialize_ordered_puts_known_members_first() {
    let doc = JsonValue::Object(vec![
        (s("extra"), JsonValue::Bool(false)),
        (s("remoteUser"), JsonValue::String(s("dev"))),
        (s("name"), JsonValue::String(s("n"))),
    ]);
    let text = ConfigMerger::serialize_ordered(&doc);
    assert_eq!(
        text,
        "{\n  \"name\": \"n\",\n  \"remoteUser\": \"dev\",\n  \"extra\": false\n}\n"
    );
    assert_eq!(ConfigMerger::serialize_ordered(&JsonValue::Number(s("7"))), "7\n");
}

#[test]
fn apply_modifications_sets_title_and_identity() {
    let mut doc = JsonValue::Object(vec![
        (s("image"), JsonValue::String(s("img"))),
        (s("name"), JsonValue::String(s("old"))),
    ]);
    ConfigMerger::apply_modifications(&mut doc, "proj", Some("Ann"), Some("ann@x.io"));
    let text = ConfigMerger::serialize_ordered(&doc);
    assert_eq!(
        text,
        "{\n  \"name\": \"proj DevContainer\",\n  \"containerEnv\": {\n    \"GIT_USER_EMAIL\": \"ann@x.io\",\n    \"GIT_USER_NAME\": \"Ann\"\n  },\n  \"image\": \"img\"\n}\n"
    );
}

#[test]
fn apply_modifications_without_both_identity_values_keeps_env() {
    let mut doc = JsonValue::Object(vec![(s("image"), JsonValue::String(s("img")))]);
    ConfigMerger::apply_modifications(&mut doc, "proj", Some("Ann"), None);
    assert_eq!(
        ConfigMerger::serialize_ordered(&doc),
        "{\n  \"image\": \"img\"\n}\n"
    );
}

#[test]
fn merge_template_parses_and_personalises() {
    let content = "{ \"name\": \"Node\", \"containerEnv\": { \"A\": \"1\" }, \"forwardPorts\": [3000] }";
    let r = ConfigMerger::merge_template(true, Some(content), "web", Some("Bo"), Some("bo@x.io"));
    assert_eq!(
        r,
        Ok(Some(s(
            "{\n  \"name\": \"web DevContainer\",\n  \"containerEnv\": {\n    \"A\": \"1\",\n    \"GIT_USER_EMAIL\": \"bo@x.io\",\n    \"GIT_USER_NAME\": \"Bo\"\n  },\n  \"forwardPorts\": [\n    3000\n  ]\n}\n"
        )))
    );
}

#[test]
fn merge_template_without_devcontainer_folder_fails() {
    let r = ConfigMerger::merge_template(false, Some("{}"), "web", None, None);
    assert_eq!(r, Err(MergeError::DevcontainerDirMissing));
    assert_eq!(
        MergeError::DevcontainerDirMissing.message(),
        "Invalid template: .devcontainer folder not found"
    );
}

#[test]
fn merge_template_with_invalid_json_fails() {
    let r = ConfigMerger::merge_template(true, Some("{ not json"), "web", None, None);
    assert_eq!(r, Err(MergeError::InvalidDevcontainerJson));
    assert_eq!(
        MergeError::InvalidDevcontainerJson.message(),
        "Failed to parse devcontainer.json"
    );
}

#[test]
fn merge_template_without_file_writes_nothing() {
    assert_eq!(ConfigMerger::merge_template(true, None, "web", None, None), Ok(None));
}

#[test]
fn merge_document_takes_a_parsed_document() {
    let doc = JsonValue::Object(vec![(s("name"), JsonValue::String(s("x")))]);
    let r = ConfigMerger::merge_document(true, DevcontainerJson::Parsed(doc), "p", None, None);
    assert_eq!(r, Ok(Some(s("{\n  \"name\": \"p DevContainer\"\n}\n"))));
    let r = ConfigMerger::merge_document(true, DevcontainerJson::Unparsable, "p", None, None);
    assert_eq!(r, Err(MergeError::InvalidDevcontainerJson));
}

#[test]
fn update_docker_compose_renames_the_service() {
    let content = "services:\n  testing_devcontainer:\n    container_name: testing_devcontainer\n";
    assert_eq!(
        ConfigMerger::update_docker_compose(content, "My-Web-App"),
        "services:\n  my_web_app:\n    container_name: my_web_app\n"
    );
    assert_eq!(ConfigMerger::update_docker_compose("image: x\n", "p"), "image: x\n");
}
