use background_studio::json::{parse_json, Json};
use background_studio::transport::{
    new_request, read_answer, read_plain_answer, settle_plain, timeout_for, timeout_message,
};

#[test]
fn commands_have_their_time() {
    for (cmd, milliseconds) in [
        ("status", 800),
        ("hello", 5000),
        ("open-ui", 5000),
        ("quit-keep-target", 5000),
        ("shutdown", 5000),
        ("configure", 15000),
        ("pause", 15000),
        ("apply", 75000),
        ("restore", 75000),
        ("anything", 15000),
    ] {
        assert_eq!(timeout_for(cmd), milliseconds);
    }
    assert_eq!(timeout_message("apply"), "插件命令 apply 超时。");
}

#[test]
fn answers_are_read_from_bytes() {
    let ok = read_answer(b"{\"id\":\"7\",\"ok\":true,\"result\":5}\n".to_vec(), "7").unwrap();
    assert_eq!(ok.as_u64(), Some(5));
    for (bytes, message) in [
        (Vec::new(), "插件没有返回响应。"),
        (vec![b' '; 65537], "IPC 响应超过 65536 字节上限。"),
        (vec![0xff, 0xfe], "插件响应不是有效 UTF-8。"),
        (
            b"{\"id\":\"8\",\"ok\":true}".to_vec(),
            "插件响应 id 与请求不一致。",
        ),
    ] {
        assert_eq!(read_answer(bytes, "7").err().unwrap(), message);
    }
    let words = "{\"id\":\"7\",\"ok\":false,\"error\":\"目标未启动\"}".as_bytes().to_vec();
    assert_eq!(read_answer(words, "7").err().unwrap(), "目标未启动");
}

#[test]
fn requests_have_fresh_ids() {
    let first = new_request("status", None).ok().unwrap();
    let second = new_request("status", None).ok().unwrap();
    assert_ne!(first.id, second.id);
    assert_eq!(first.id.len(), 36);
    assert_eq!(
        first.line,
        format!("{{\"id\":\"{}\",\"cmd\":\"status\"}}\n", first.id)
    );
    assert!(new_request(&"x".repeat(65), None).is_err());
}

#[test]
fn plain_answers_are_read() {
    assert_eq!(read_plain_answer(None, "1").err().unwrap(), "插件没有返回响应。");
    assert_eq!(
        read_plain_answer(Some(r#"{"id":"1","ok":true,"result":"r"}"#), "1")
            .unwrap()
            .as_str()
            .unwrap(),
        "r"
    );
    assert!(matches!(
        settle_plain(&parse_json(r#"{"id":"1","ok":true}"#).unwrap(), "1"),
        Ok(Json::Null)
    ));
    assert_eq!(
        read_plain_answer(Some(r#"{"id":"1","ok":false,"error":"no"}"#), "1").err().unwrap(),
        "no"
    );
    assert_eq!(
        read_plain_answer(Some(r#"{"id":"1","error":1}"#), "1").err().unwrap(),
        "插件命令失败。"
    );
    assert_eq!(
        read_plain_answer(Some(r#"{"id":"2","ok":true}"#), "1").err().unwrap(),
        "插件响应 id 与请求不一致。"
    );
    assert_eq!(
        read_plain_answer(Some(r#"{"id":"","ok":true}"#), "").err().unwrap(),
        "插件响应 id 不能为空。"
    );
    assert!(read_plain_answer(Some("{"), "1").is_err());
}
