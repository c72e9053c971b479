use background_studio::json::{parse_json, text_json, write_json, Json, Members};
use background_studio::manifest::{
    find_manifest_file, load_from_install_dir, parse_manifest, validate_settings_schema,
    ManifestFile,
};

fn valid_json() -> String {
    r#"{
        "schemaVersion": 1,
        "pluginProtocol": 2,
        "id": "codex",
        "displayName": "Codex Background Studio",
        "exeName": "Codex Background Studio.exe",
        "pipeName": "\\\\.\\pipe\\background-studio-codex",
        "capabilities": {
            "mediaKinds": ["image", "video"],
            "hotUpdate": true,
            "managedLaunch": true
        },
        "settingsSchema": {
            "type": "object",
            "properties": {
                "opacity": { "type": "number", "title": "不透明度", "minimum": 0, "maximum": 1 }
            }
        }
    }"#
    .to_string()
}

fn with(key: &str, value: Option<Json>) -> String {
    let whole = parse_json(&valid_json()).unwrap();
    let members = whole.as_object().unwrap();
    let mut changed = Members::new();
    for i in 0..members.len() {
        if members.key(i) != key {
            changed.insert(members.key(i).clone(), members.value(i).copy());
        }
    }
    if let Some(value) = value {
        changed.insert(key.to_string(), value);
    }
    write_json(&Json::Object(changed))
}

fn refused<T>(r: Result<T, String>) -> String {
    match r {
        Ok(_) => panic!("not refused"),
        Err(message) => message,
    }
}

#[test]
fn accepts_complete_manifest() {
    let manifest = parse_manifest(&valid_json()).ok().unwrap();
    assert_eq!(manifest.id, "codex");
    assert_eq!(manifest.plugin_protocol, 2);
    assert!(manifest.settings_schema.as_object().is_some());
}

#[test]
fn rejects_missing_and_invalid_fields() {
    assert!(parse_manifest(r#"{"id":"codex"}"#).is_err());
    assert!(parse_manifest(&with(
        "settingsSchema",
        Some(Json::Array(vec![text_json("nope")]))
    ))
    .is_err());
    assert!(parse_manifest(&with("exeName", Some(text_json(r"..\evil.exe")))).is_err());
    assert!(parse_manifest(&with("capabilities", None)).is_err());
}

#[test]
fn repeats_no_field_under_another_type() {
    assert!(parse_manifest(&with("id", Some(text_json("Codex!")))).is_err());
    assert!(parse_manifest(&with("pipeName", Some(text_json("codex")))).is_err());
    assert!(parse_manifest(&with("schemaVersion", Some(text_json("1")))).is_err());
    assert!(parse_manifest(&with("id", Some(text_json("codex")))).is_ok());
}

#[test]
fn schema_fields_are_checked() {
    assert!(validate_settings_schema(&parse_json(r#"{"type":"object","properties":{}}"#).unwrap()).is_ok());
    assert!(validate_settings_schema(&parse_json(r#"[]"#).unwrap()).is_err());
    assert!(validate_settings_schema(
        &parse_json(r#"{"type":"object","properties":{"a":{"type":"array","title":"a"}}}"#).unwrap()
    )
    .is_err());
}

#[test]
fn manifest_file_is_found_at_the_root_or_once_below() {
    assert_eq!(
        find_manifest_file(Some("r/plugin.json".to_string()), vec!["x".to_string()]).unwrap(),
        Some("r/plugin.json".to_string())
    );
    assert_eq!(find_manifest_file(None, vec![]).unwrap(), None);
    assert_eq!(
        find_manifest_file(None, vec!["r/a/plugin.json".to_string()]).unwrap(),
        Some("r/a/plugin.json".to_string())
    );
    assert_eq!(
        refused(find_manifest_file(None, vec!["a".to_string(), "b".to_string()])),
        "插件包包含多个 plugin.json。"
    );
}

#[test]
fn installed_manifest_is_loaded() {
    assert!(load_from_install_dir(Ok(None)).unwrap().is_none());
    assert_eq!(refused(load_from_install_dir(Err("denied".to_string()))), "denied");
    let gone = ManifestFile { size: Err("gone".to_string()), text: Ok(valid_json()) };
    assert_eq!(
        refused(load_from_install_dir(Ok(Some(gone)))),
        "读取 plugin.json 失败：gone"
    );
}

#[test]
fn executable_lies_beside_the_manifest() {
    let manifest = parse_manifest(&valid_json()).ok().unwrap();
    assert_eq!(
        manifest.exe_path("r", Some("r/inner")),
        vec!["r/inner", "Codex Background Studio.exe"]
    );
    assert_eq!(
        manifest.exe_path("r", None),
        vec!["r", "Codex Background Studio.exe"]
    );
}

#[test]
fn manifest_of_an_install_is_parsed() {
    let found = ManifestFile {
        size: Ok(valid_json().len() as u64),
        text: Ok(valid_json()),
    };
    let manifest = load_from_install_dir(Ok(Some(found))).unwrap().unwrap();
    assert_eq!(manifest.pipe_name, r"\\.\pipe\background-studio-codex");
}
