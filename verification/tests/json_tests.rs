use serde_json::Value;
use sisr::json::{merge_json, selected_app_id_text, set_selected_app_id, update_config_text, Json};

fn obj(members: Vec<(&str, Json)>) -> Json {
    Json::Object(members.into_iter().map(|(k, v)| (k.to_string(), v)).collect())
}

fn num(t: &str) -> Json {
    Json::Number(t.to_string())
}

fn text(v: &str) -> Value {
    serde_json::from_str(v).unwrap()
}

fn is_obj_with<'a>(j: &'a Json, key: &str) -> Option<&'a Json> {
    match j {
        Json::Object(es) => es.iter().find(|(k, _)| k == key).map(|(_, v)| v),
        _ => None,
    }
}

#[test]
fn merge_writes_set_fields_and_keeps_others() {
    let mut base = obj(vec![("a", num("1")), ("b", Json::Bool(true))]);
    merge_json(&mut base, obj(vec![("a", num("2")), ("c", Json::Str("x".to_string()))]));
    assert!(matches!(is_obj_with(&base, "a"), Some(Json::Number(t)) if t == "2"));
    assert!(matches!(is_obj_with(&base, "b"), Some(Json::Bool(true))));
    assert!(matches!(is_obj_with(&base, "c"), Some(Json::Str(s)) if s == "x"));
}

#[test]
fn null_members_of_the_patch_are_skipped() {
    let mut base = obj(vec![("a", num("1"))]);
    merge_json(&mut base, obj(vec![("a", Json::Null), ("b", Json::Null)]));
    assert!(matches!(is_obj_with(&base, "a"), Some(Json::Number(t)) if t == "1"));
    assert!(is_obj_with(&base, "b").is_none());
}

#[test]
fn nested_objects_merge_member_by_member() {
    let mut base = obj(vec![("w", obj(vec![("x", num("1")), ("y", num("2"))]))]);
    merge_json(&mut base, obj(vec![("w", obj(vec![("y", num("3")), ("x", Json::Null)]))]));
    let w = is_obj_with(&base, "w").unwrap();
    assert!(matches!(is_obj_with(w, "x"), Some(Json::Number(t)) if t == "1"));
    assert!(matches!(is_obj_with(w, "y"), Some(Json::Number(t)) if t == "3"));
}

#[test]
fn non_object_patch_replaces() {
    let mut base = obj(vec![("a", num("1"))]);
    merge_json(&mut base, Json::Array(vec![num("5")]));
    assert!(matches!(&base, Json::Array(v) if v.len() == 1));
    let mut base2 = num("7");
    merge_json(&mut base2, obj(vec![("a", Json::Null), ("b", Json::Bool(true))]));
    // an object merged into a non-object is merged into an empty object
    assert!(is_obj_with(&base2, "a").is_none());
    assert!(matches!(is_obj_with(&base2, "b"), Some(Json::Bool(true))));
}

#[test]
fn config_update_merges_into_the_file() {
    let existing = r#"{"port": 8080, "window": {"create": true, "fullscreen": false}}"#;
    let patch = r#"{"port": null, "window": {"fullscreen": true, "create": null}, "tray": false}"#;
    let out = update_config_text(Some(existing), patch).unwrap();
    assert_eq!(text(&out), text(r#"{"port": 8080, "window": {"create": true, "fullscreen": true}, "tray": false}"#));
}

#[test]
fn config_update_without_file_or_with_bad_file_starts_empty() {
    let patch = r#"{"tray": true, "port": null}"#;
    assert_eq!(text(&update_config_text(None, patch).unwrap()), text(r#"{"tray": true}"#));
    assert_eq!(text(&update_config_text(Some("not json"), patch).unwrap()), text(r#"{"tray": true}"#));
}

#[test]
fn config_update_of_a_non_object_file_takes_the_patch() {
    let patch = r#"{"tray": true, "port": null}"#;
    assert_eq!(text(&update_config_text(Some("5"), patch).unwrap()), text(r#"{"tray": true}"#));
}

#[test]
fn config_update_rejects_a_patch_that_is_not_json() {
    assert_eq!(update_config_text(Some("{}"), "{"), None);
}

#[test]
fn config_update_output_is_pretty() {
    let out = update_config_text(None, r#"{"a": 1}"#).unwrap();
    assert_eq!(out, "{\n  \"a\": 1\n}");
}

#[test]
fn selected_app_id_is_recorded_and_other_fields_kept() {
    let out = selected_app_id_text(Some(r#"{"tray": true, "controller_emulation": {"gyro_passthrough": false}}"#), 1234);
    assert_eq!(
        text(&out),
        text(r#"{"tray": true, "controller_emulation": {"gyro_passthrough": false, "steam_input_profile_app_id": 1234}}"#)
    );
}

#[test]
fn selected_app_id_replaces_non_objects() {
    assert_eq!(
        text(&selected_app_id_text(Some("[1, 2]"), 7)),
        text(r#"{"controller_emulation": {"steam_input_profile_app_id": 7}}"#)
    );
    assert_eq!(
        text(&selected_app_id_text(Some(r#"{"controller_emulation": 3}"#), 7)),
        text(r#"{"controller_emulation": {"steam_input_profile_app_id": 7}}"#)
    );
    assert_eq!(
        text(&selected_app_id_text(None, 4294967295)),
        text(r#"{"controller_emulation": {"steam_input_profile_app_id": 4294967295}}"#)
    );
}

#[test]
fn selected_app_id_overwrites_the_old_one() {
    let doc = obj(vec![("controller_emulation", obj(vec![("steam_input_profile_app_id", num("1"))]))]);
    let out = set_selected_app_id(doc, 99);
    let ce = is_obj_with(&out, "controller_emulation").unwrap();
    assert!(matches!(is_obj_with(ce, "steam_input_profile_app_id"), Some(Json::Number(t)) if t == "99"));
    match ce {
        Json::Object(es) => assert_eq!(es.len(), 1),
        _ => panic!("not an object"),
    }
}

#[test]
fn applying_a_patch_twice_equals_once() {
    let patch = r#"{"window": {"create": true, "fullscreen": null}, "log": {"level": "debug"}, "port": null}"#;
    let base = r#"{"window": {"fullscreen": false}, "port": 1, "tray": true}"#;
    let once = update_config_text(Some(base), patch).unwrap();
    let twice = update_config_text(Some(&once), patch).unwrap();
    assert_eq!(text(&once), text(&twice));
    let from_nothing = update_config_text(Some("[]"), patch).unwrap();
    assert_eq!(text(&update_config_text(Some(&from_nothing), patch).unwrap()), text(&from_nothing));
}

#[test]
fn new_sections_get_only_the_set_fields() {
    let patch = r#"{"tray": null, "window": {"create": true, "fullscreen": null, "continuous_draw": null}}"#;
    let out = update_config_text(Some(r#"{"port": 1}"#), patch).unwrap();
    assert_eq!(text(&out), text(r#"{"port": 1, "window": {"create": true}}"#));
    let nested = r#"{"a": {"b": {"c": null, "d": 2}}}"#;
    assert_eq!(text(&update_config_text(None, nested).unwrap()), text(r#"{"a": {"b": {"d": 2}}}"#));
}

fn to_value(j: &Json) -> Value {
    match j {
        Json::Null => Value::Null,
        Json::Bool(b) => Value::Bool(*b),
        Json::Number(t) => serde_json::from_str(t).unwrap(),
        Json::Str(s) => Value::String(s.clone()),
        Json::Array(v) => Value::Array(v.iter().map(to_value).collect()),
        Json::Object(es) => Value::Array(
            es.iter().map(|(k, v)| Value::Array(vec![Value::String(k.clone()), to_value(v)])).collect(),
        ),
    }
}

fn repeated_name_patch() -> Json {
    obj(vec![
        ("window", obj(vec![("create", Json::Bool(true))])),
        ("port", num("7")),
        ("window", obj(vec![("fullscreen", Json::Bool(false)), ("create", Json::Null)])),
        ("port", obj(vec![("x", num("1"))])),
    ])
}

#[test]
fn a_patch_with_a_repeated_name_applied_twice_equals_once() {
    let mut once = obj(vec![("port", num("1")), ("window", Json::Str("w".to_string()))]);
    merge_json(&mut once, repeated_name_patch());
    let mut twice = obj(vec![("port", num("1")), ("window", Json::Str("w".to_string()))]);
    merge_json(&mut twice, repeated_name_patch());
    merge_json(&mut twice, repeated_name_patch());
    assert_eq!(to_value(&once), to_value(&twice));
    assert_eq!(
        to_value(&once),
        text(r#"[["port", [["x", 1]]], ["window", [["create", true], ["fullscreen", false]]]]"#)
    );
}
