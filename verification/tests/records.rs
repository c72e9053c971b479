use background_studio::catalog::{parse_catalog, PluginDef};
use background_studio::config::load_host_config;
use background_studio::json::Json;
use background_studio::media::{CatalogRead, MediaLibrary};
use background_studio::plugins::PluginManager;
use background_studio::protocol::decode_response;
use background_studio::proxy::ProxyMode;
use background_studio::records::{parse_record, Row};
use background_studio::transport::read_answer;

fn refused<T>(r: Result<T, String>) -> String {
    match r {
        Ok(_) => panic!("taken"),
        Err(message) => message,
    }
}

fn shape() -> Vec<Row> {
    vec![
        Row::Any,
        Row::Choice,
        Row::Record(vec![("a", 0), ("b", 1)]),
        Row::List(2),
        Row::Record(vec![("items", 3), ("rest", 0)]),
    ]
}

#[test]
fn field_is_named_once() {
    let rows = shape();
    let read = |text: &str| parse_record(text, &rows, 4);
    assert_eq!(refused(read(r#"{"rest":1,"rest":2}"#)), "字段重复：rest");
    assert_eq!(refused(read(r#"{"items":[{"a":1,"a":1}]}"#)), "字段重复：a");
    assert_eq!(refused(read(r#"{"items":[],"rest":0,"items":[]}"#)), "字段重复：items");
    // A name may be written with escapes.
    assert_eq!(refused(read(r#"{"rest":1,"\u0072est":2}"#)), "字段重复：rest");
    assert!(read(r#"{"rest":1,"items":[{"a":1},{"a":2}]}"#).is_ok());
}

#[test]
fn unknown_member_is_passed_over() {
    let rows = shape();
    let read = |text: &str| parse_record(text, &rows, 4);
    let value = read(r#"{"x":1,"rest":5,"x":[{"y":1,"y":2}],"z":1e999}"#).ok().unwrap();
    assert!(value.get("x").is_none());
    assert_eq!(value.get("rest").unwrap().as_u64(), Some(5));
    assert!(read(r#"{"rest":1e999}"#).is_err());
    // A text that is no JSON is refused wherever it breaks off.
    assert!(read(r#"{"rest":1,"x":[1}"#).is_err());
    assert!(read(r#"{"rest":1} 2"#).is_err());
}

#[test]
fn field_of_any_value_keeps_the_last() {
    let rows = shape();
    let value = parse_record(r#"{"rest":{"k":1,"k":2}}"#, &rows, 4).ok().unwrap();
    let rest = value.get("rest").unwrap();
    assert_eq!(rest.get("k").unwrap().as_u64(), Some(2));
}

#[test]
fn marks_inside_strings_cut_nothing() {
    let rows = shape();
    let text = "{ \"rest\" : \"a,b:{\\\"[\\\\\" , \"items\" : [ ] }";
    let value = parse_record(text, &rows, 4).ok().unwrap();
    assert_eq!(value.get("rest").unwrap().as_str(), Some(&"a,b:{\"[\\".to_string()));
    assert!(matches!(value.get("items"), Some(Json::Array(items)) if items.is_empty()));
}

#[test]
fn choice_has_one_name() {
    let rows = shape();
    let read = |text: &str| parse_record(text, &rows, 2);
    assert!(read(r#"{"b":"one"}"#).is_ok());
    assert!(read(r#"{"b":{"one":null}}"#).is_ok());
    assert!(read(r#"{"b":{"one":null,"one":null}}"#).is_err());
}

#[test]
fn response_that_repeats_a_field_is_refused() {
    let message = refused(decode_response(r#"{"id":"1","ok":false,"ok":true,"result":1}"#));
    assert_eq!(message, "无效插件响应：字段重复：ok");
    assert!(decode_response(r#"{"id":"1","id":"1","ok":true}"#).is_err());
    assert!(decode_response(r#"{"id":"1","ok":true,"result":1,"result":2}"#).is_err());
    assert!(decode_response(r#"{"id":"1","ok":true,"error":"a","error":"b"}"#).is_err());
    assert!(decode_response(r#"{"id":"1","ok":true,"note":1,"note":2}"#).is_ok());
    let line = r#"{"id":"1","ok":true,"result":{"n":1,"n":2}}"#;
    let value = decode_response(line).ok().unwrap();
    assert_eq!(value.get("n").unwrap().as_u64(), Some(2));
    let answer = br#"{"id":"1","ok":true,"ok":true}"#.to_vec();
    assert!(read_answer(answer, "1").is_err());
}

#[test]
fn configuration_that_repeats_a_field_is_refused() {
    let load = |text: &str| load_host_config(Some(Ok(text.to_string())));
    assert_eq!(refused(load(r#"{"dataRoot":"a","dataRoot":"b"}"#)), "字段重复：dataRoot");
    let config = load(r#"{"theme":1,"dataRoot":"a","theme":2}"#).ok().unwrap();
    assert_eq!(config.data_root.as_deref(), Some("a"));
}

fn catalog_of(def: &str) -> Result<Vec<PluginDef>, String> {
    parse_catalog(&format!(r#"{{"pluginProtocol":1,"plugins":[{def}]}}"#))
}

#[test]
fn catalogue_that_repeats_a_field_is_refused() {
    let def = r#""displayName":"C","owner":"o","repo":"r","assetPrefix":"p-","exeName":"e.exe","pipeName":"p""#;
    assert_eq!(catalog_of(&format!(r#"{{"id":"c",{def}}}"#)).ok().unwrap().len(), 1);
    assert_eq!(refused(catalog_of(&format!(r#"{{"id":"c",{def},"id":"d"}}"#))), "字段重复：id");
    assert_eq!(
        refused(parse_catalog(r#"{"plugins":[],"plugins":[]}"#)),
        "字段重复：plugins"
    );
    assert!(catalog_of(&format!(r#"{{"id":"c",{def},"more":1,"more":2}}"#)).is_ok());
}

#[test]
fn state_that_repeats_a_field_is_refused() {
    let load = |text: &str| PluginManager::load(vec![], Some(Ok(text.to_string())));
    let tail = r#""autoStartWithWindows":false,"startMinimized":true"#;
    let read = load(&format!(
        r#"{{"plugins":[{{"id":"c","enabled":true,"installedVersion":null}}],{tail},"proxy":{{"mode":"off","url":""}},"x":1,"x":2}}"#
    ));
    assert!(matches!(read.ok().unwrap().proxy_settings().mode, ProxyMode::Off));
    for text in [
        format!(r#"{{"plugins":[],"plugins":[],{tail}}}"#),
        format!(r#"{{"plugins":[],{tail},"startMinimized":true}}"#),
        format!(r#"{{"plugins":[{{"id":"c","enabled":true,"enabled":false,"installedVersion":null}}],{tail}}}"#),
        format!(r#"{{"plugins":[],{tail},"proxy":{{"mode":"off","mode":"off"}}}}"#),
        format!(r#"{{"plugins":[],{tail},"proxy":{{"mode":{{"off":null,"off":null}}}}}}"#),
    ] {
        assert!(load(&text).is_err());
    }
}

#[test]
fn library_that_repeats_a_field_is_set_aside() {
    let item = r#""id":"1","name":"n","kind":"image","origin":"local","fileName":"f.png","mimeType":"image/png","byteSize":3,"sha256":"00","createdAt":"t""#;
    let load = |text: String| MediaLibrary::load(CatalogRead::Text(text));
    let (library, set_aside) = load(format!("[{{{item},\"x\":1,\"x\":2}}]"));
    assert!(!set_aside);
    assert_eq!(library.items().len(), 1);
    let (library, set_aside) = load(format!("[{{{item},\"name\":\"n\"}}]"));
    assert!(set_aside);
    assert!(library.items().is_empty());
}
