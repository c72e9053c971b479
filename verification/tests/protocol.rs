use background_studio::json::{int_json, object_of, parse_json, text_json, Json};
use background_studio::protocol::{
    build_configure_params, capability_labels, check_loopback, decode_response, decode_response_for,
    encode_request, limit_string, parse_hello, revision_digest, validate_capabilities,
    validate_configure_media, validate_display_object, validate_media_url, ConfigureMedia,
    MAX_STRING_BYTES,
};

fn json(text: &str) -> Json {
    parse_json(text).unwrap()
}

fn refused<T>(r: Result<T, String>) -> String {
    match r {
        Ok(_) => panic!("not refused"),
        Err(message) => message,
    }
}

#[test]
fn encodes_v2_request_with_params_and_v1_without() {
    let params = object_of(vec![("schemaVersion", int_json(1))]);
    let with_params = encode_request("req-1", "configure", Some(&params)).unwrap();
    assert!(with_params.ends_with('\n'));
    let parsed: serde_json::Value = serde_json::from_str(with_params.trim()).unwrap();
    assert_eq!(parsed["cmd"], "configure");
    assert_eq!(parsed["params"]["schemaVersion"], 1);

    let v1 = encode_request("req-2", "status", None).unwrap();
    let parsed: serde_json::Value = serde_json::from_str(v1.trim()).unwrap();
    assert_eq!(parsed["cmd"], "status");
    assert!(parsed.get("params").is_none());
}

#[test]
fn decodes_ok_and_error_responses() {
    let ok = decode_response(r#"{"id":"1","ok":true,"result":{"phase":"idle"}}"#).unwrap();
    assert_eq!(ok.get_str("phase").unwrap(), "idle");
    assert!(
        decode_response_for(r#"{"id":"other","ok":true,"result":{}}"#, Some("expected")).is_err()
    );
    let error = refused(decode_response(r#"{"id":"1","ok":false,"error":"boom"}"#));
    assert_eq!(error, "boom");
}

#[test]
fn hello_requires_protocol_fields() {
    let hello = parse_hello(&json(
        r#"{"pluginProtocol":2,"pluginId":"codex","version":"1.0.0","capabilities":{"mediaKinds":["image","video"],"hotUpdate":true}}"#,
    ))
    .ok()
    .unwrap();
    assert_eq!(hello.plugin_id, "codex");
    assert_eq!(
        capability_labels(&hello.capabilities),
        vec!["hotUpdate", "mediaKinds"]
    );
    assert!(parse_hello(&json(
        r#"{"pluginProtocol":1,"pluginId":"codex","version":"1.0.0","capabilities":{"hotUpdate":true}}"#
    ))
    .is_err());
    assert!(parse_hello(&json(
        r#"{"pluginProtocol":2,"pluginId":"codex","version":"1.0.0"}"#
    ))
    .is_err());
}

#[test]
fn rejects_non_loopback_and_oversized_configure() {
    let media = ConfigureMedia {
        url: "http://example.com/media/1".to_string(),
        kind: "image".to_string(),
        mime_type: "image/png".to_string(),
        sha256: "a".repeat(64),
        byte_size: 12,
    };
    assert!(validate_configure_media(&media).is_err());
    assert!(validate_media_url("https://127.0.0.1/x").is_err());
    assert!(validate_media_url("http://127.0.0.1/ok").is_ok());
    assert!(validate_media_url("http://localhost/ok").is_ok());
    assert!(limit_string("x", &"a".repeat(MAX_STRING_BYTES + 1), MAX_STRING_BYTES).is_err());
}

#[test]
fn request_is_written_in_order_on_one_line() {
    let params = object_of(vec![("b", text_json("x\ny")), ("a", Json::Null)]);
    assert_eq!(
        encode_request("1", "configure", Some(&params)).unwrap(),
        "{\"id\":\"1\",\"cmd\":\"configure\",\"params\":{\"a\":null,\"b\":\"x\\ny\"}}\n"
    );
    assert_eq!(
        refused(encode_request(&"i".repeat(129), "status", None)),
        "id 超过 128 字节上限。"
    );
    assert_eq!(
        refused(encode_request("1", &"c".repeat(65), None)),
        "cmd 超过 64 字节上限。"
    );
    let large = text_json(&"x".repeat(65536));
    assert_eq!(
        refused(encode_request("1", "configure", Some(&large))),
        "IPC 请求超过 65536 字节上限。"
    );
}

#[test]
fn empty_ids_are_refused() {
    assert_eq!(refused(encode_request("", "status", None)), "id 不能为空。");
    assert_eq!(
        refused(decode_response(r#"{"id":"","ok":true}"#)),
        "插件响应 id 不能为空。"
    );
    assert_eq!(
        refused(decode_response_for(r#"{"id":"","ok":true}"#, Some(""))),
        "插件响应 id 不能为空。"
    );
}

#[test]
fn response_errors_are_named() {
    assert_eq!(
        refused(decode_response_for(
            r#"{"id":"a","ok":true}"#,
            Some("b")
        )),
        "插件响应 id 与请求不一致。"
    );
    assert_eq!(
        refused(decode_response(r#"{"id":"1","ok":false,"error":""}"#)),
        "插件命令失败。"
    );
    let long = "e".repeat(2049);
    assert_eq!(
        refused(decode_response(&format!(
            "{{\"id\":\"1\",\"ok\":false,\"error\":\"{long}\"}}"
        ))),
        "插件命令失败。"
    );
    assert_eq!(
        refused(decode_response(&" ".repeat(65537))),
        "IPC 响应超过 65536 字节上限。"
    );
    assert!(refused(decode_response("nonsense")).starts_with("无效插件响应："));
    assert!(refused(decode_response(r#"{"id":"1","ok":"yes"}"#)).starts_with("无效插件响应："));
    assert!(matches!(
        decode_response(r#"{"id":"1","ok":true}"#).unwrap(),
        Json::Null
    ));
}

#[test]
fn capability_errors_are_named() {
    assert_eq!(
        refused(validate_capabilities(&json("[]"), "c")),
        "c 必须是对象。"
    );
    assert_eq!(
        refused(validate_capabilities(&json("{}"), "c")),
        "c 不能为空。"
    );
    assert_eq!(
        refused(validate_capabilities(&json(r#"{"a b":true}"#), "c")),
        "c.a b 的名称无效。"
    );
    assert_eq!(
        refused(validate_capabilities(&json(r#"{"n":-1}"#), "c")),
        "c.n 必须是非负整数。"
    );
    assert_eq!(
        refused(validate_capabilities(&json(r#"{"n":1073741825}"#), "c")),
        "c.n 超出允许范围。"
    );
    assert_eq!(
        refused(validate_capabilities(&json(r#"{"n":null}"#), "c")),
        "c.n 的值类型无效。"
    );
    assert_eq!(
        refused(validate_capabilities(&json(r#"{"n":["a",1]}"#), "c")),
        "c.n 必须是字符串数组。"
    );
    let items: Vec<String> = (0..65).map(|_| "\"a\"".to_string()).collect();
    assert_eq!(
        refused(validate_capabilities(
            &json(&format!("{{\"n\":[{}]}}", items.join(","))),
            "c"
        )),
        "c.n 超过 64 项。"
    );
    let members: Vec<String> = (0..33).map(|i| format!("\"k{i}\":true")).collect();
    assert_eq!(
        refused(validate_capabilities(
            &json(&format!("{{{}}}", members.join(","))),
            "c"
        )),
        "c 超过 32 项。"
    );
    assert!(validate_capabilities(&json(r#"{"n":1073741824,"t":"x"}"#), "c").is_ok());
    assert_eq!(
        capability_labels(&json(r#"{"a":false,"b":0,"c":"","d":[],"e":"x","f":3}"#)),
        vec!["e", "f"]
    );
}

#[test]
fn hello_errors_are_named() {
    assert_eq!(
        refused(parse_hello(&json("{}")).map(|_| ())),
        "hello 缺少有效的 pluginProtocol。"
    );
    assert_eq!(
        refused(parse_hello(&json(r#"{"pluginProtocol":3}"#)).map(|_| ())),
        "hello 声明的 pluginProtocol=3，宿主当前需要 2。"
    );
    assert_eq!(
        refused(parse_hello(&json(r#"{"pluginProtocol":2}"#)).map(|_| ())),
        "hello 缺少 pluginId。"
    );
    assert_eq!(
        refused(parse_hello(&json(r#"{"pluginProtocol":2,"pluginId":""}"#)).map(|_| ())),
        "hello.pluginId 不能为空。"
    );
}

#[test]
fn long_names_in_a_hello_are_refused() {
    let hello = |id: &str| {
        parse_hello(&json(&format!(
            r#"{{"pluginProtocol":2,"pluginId":"{id}","version":"1","capabilities":{{"hotUpdate":true}}}}"#
        )))
    };
    assert_eq!(hello(&"a".repeat(128)).ok().unwrap().plugin_id.len(), 128);
    assert!(hello(&"a".repeat(129)).is_err());
}

fn sample() -> ConfigureMedia {
    ConfigureMedia {
        url: "http://127.0.0.1:5000/t/media/a".to_string(),
        kind: "video".to_string(),
        mime_type: "video/mp4".to_string(),
        sha256: "0123456789abcdefABCDEF".repeat(3)[..64].to_string(),
        byte_size: 1,
    }
}

#[test]
fn media_errors_are_named() {
    assert!(validate_configure_media(&sample()).is_ok());
    let mut media = sample();
    media.kind = "audio".to_string();
    assert_eq!(
        refused(validate_configure_media(&media)),
        "media.kind 只能是 image 或 video。"
    );
    media = sample();
    media.mime_type = String::new();
    assert_eq!(
        refused(validate_configure_media(&media)),
        "media.mimeType 不能为空。"
    );
    media = sample();
    media.sha256 = "g".repeat(64);
    assert_eq!(
        refused(validate_configure_media(&media)),
        "media.sha256 必须是 64 位十六进制。"
    );
    media = sample();
    media.byte_size = 0;
    assert_eq!(
        refused(validate_configure_media(&media)),
        "media.byteSize 超出允许范围。"
    );
    media.byte_size = 1073741825;
    assert_eq!(
        refused(validate_configure_media(&media)),
        "media.byteSize 超出允许范围。"
    );
    assert_eq!(refused(validate_media_url("nonsense").map(|_| ())), "媒体 URL 无效。");
    assert_eq!(
        refused(validate_media_url("https://127.0.0.1/x").map(|_| ())),
        "媒体 URL 必须是 http 回环地址。"
    );
    assert_eq!(
        refused(validate_media_url("http://10.0.0.1/x").map(|_| ())),
        "媒体 URL 必须指向 127.0.0.1 或 localhost。"
    );
    assert_eq!(
        refused(validate_media_url("http://me@127.0.0.1/x").map(|_| ())),
        "媒体 URL 不能包含账号信息。"
    );
    let parts = validate_media_url("http://LOCALHOST:8080/x").ok().unwrap();
    assert_eq!(parts.host.as_deref(), Some("localhost"));
    assert_eq!(parts.scheme, "http");
    assert!(check_loopback(&parts).is_ok());
}

#[test]
fn display_errors_are_named() {
    assert_eq!(
        refused(validate_display_object(&json("1"))),
        "display 必须是对象。"
    );
    assert_eq!(
        refused(validate_display_object(&json(r#"{"a":[1]}"#))),
        "display.a 不能是嵌套结构。"
    );
    assert_eq!(
        refused(validate_display_object(&json(&format!(
            "{{\"a\":\"{}\"}}",
            "x".repeat(129)
        )))),
        "display.a 超过 128 字节上限。"
    );
    let members: Vec<String> = (0..65).map(|i| format!("\"k{i}\":1")).collect();
    assert_eq!(
        refused(validate_display_object(&json(&format!(
            "{{{}}}",
            members.join(",")
        )))),
        "display 字段数超过 64。"
    );
    assert!(validate_display_object(&json(r#"{"a":null,"b":true,"c":1.5,"d":"x"}"#)).is_ok());
}

#[test]
fn configure_params_hold_everything_that_is_sent() {
    let display = json(r#"{"fit":"cover","opacity":0.72}"#);
    let value = build_configure_params("r1".to_string(), sample(), display.copy()).unwrap();
    assert_eq!(value.get("schemaVersion").unwrap().as_u64(), Some(1));
    assert_eq!(value.get_str("revision").unwrap(), "r1");
    let media = value.get("media").unwrap();
    assert_eq!(media.get_str("url").unwrap(), "http://127.0.0.1:5000/t/media/a");
    assert_eq!(media.get_str("mimeType").unwrap(), "video/mp4");
    assert_eq!(media.get("byteSize").unwrap().as_u64(), Some(1));
    assert_eq!(
        refused(build_configure_params(String::new(), sample(), display.copy())),
        "configure.revision 无效。"
    );
    let wide: Vec<String> = (0..64)
        .map(|i| format!("\"{}{i:02}\":\"{}\"", "\\u0001".repeat(62), "\\u0001".repeat(128)))
        .collect();
    assert_eq!(
        refused(build_configure_params(
            "r".to_string(),
            sample(),
            json(&format!("{{{}}}", wide.join(",")))
        ).map(|_| ())),
        "configure 参数超过长度上限。"
    );
}

#[test]
fn revision_is_the_digest_of_media_and_settings() {
    // sha256 of the three bytes "ab\0" followed by "{}".
    let revision = revision_digest("ab", &json("{}"));
    assert_eq!(revision.len(), 64);
    assert_ne!(revision, revision_digest("ab", &json(r#"{"a":1}"#)));
    assert_ne!(revision, revision_digest("ac", &json("{}")));
    assert_eq!(revision, revision_digest("ab", &json(" { } ")));
}
