//! Talking to a plugin over its pipe: how long an answer may take, and how it
//! is read.
use vstd::prelude::*;

use crate::records::value_outcome;
use crate::json::{json_parsed, parse_json, Json, JsonV};
use crate::protocol::{
    decode_response_for, encode_request, line_verdict, request_line, response_parsed,
    MAX_IPC_LINE_BYTES,
};
use crate::stamp::{is_uuid, new_id};
use crate::text::{decimal, decimal_text, same};

verus! {

/// How long a command may take, in milliseconds.
pub open spec fn timeout_of(cmd: Seq<char>) -> u64 {
    if cmd == "status"@ {
        800
    } else if cmd == "hello"@ || cmd == "open-ui"@ || cmd == "quit-keep-target"@ || cmd
        == "shutdown"@ {
        5000
    } else if cmd == "apply"@ || cmd == "restore"@ {
        75000
    } else {
        15000
    }
}

/// How long a command may take, in milliseconds.
pub fn timeout_for(cmd: &str) -> (r: u64)
    ensures
        r == timeout_of(cmd@),
{
    if same(cmd, "status") {
        800
    } else if same(cmd, "hello") || same(cmd, "open-ui") || same(cmd, "quit-keep-target") || same(
        cmd,
        "shutdown",
    ) {
        5000
    } else if same(cmd, "apply") || same(cmd, "restore") {
        75000
    } else {
        15000
    }
}

/// What is said of a command that took too long.
pub fn timeout_message(cmd: &str) -> (r: String)
    ensures
        r@ == "插件命令 "@ + cmd@ + " 超时。"@,
{
    "插件命令 ".to_string().concat(cmd).concat(" 超时。")
}

/// Outside function: `String::from_utf8`, of which the standard library says
/// that it gives the string where the bytes are valid UTF-8, and an error where
/// they are not.
#[verifier::external_body]
fn utf8_text(bytes: Vec<u8>) -> (r: Option<String>)
    ensures
        match r {
            Some(text) => vstd::utf8::valid_utf8(bytes@) && text@ == vstd::utf8::decode_utf8(
                bytes@,
            ),
            None => !vstd::utf8::valid_utf8(bytes@),
        },
{
    String::from_utf8(bytes).ok()
}

/// What the bytes of an answer to the request `id` give.
pub open spec fn answer_verdict(bytes: Seq<u8>, id: Seq<char>) -> Result<JsonV, Seq<char>> {
    if bytes.len() == 0 {
        Err("插件没有返回响应。"@)
    } else if bytes.len() > MAX_IPC_LINE_BYTES {
        Err("IPC 响应超过 "@ + decimal(MAX_IPC_LINE_BYTES as nat) + " 字节上限。"@)
    } else if !vstd::utf8::valid_utf8(bytes) {
        Err("插件响应不是有效 UTF-8。"@)
    } else {
        line_verdict(
            vstd::utf8::decode_utf8(bytes),
            response_parsed(vstd::utf8::decode_utf8(bytes)),
            Some(id),
        )
    }
}

/// Reads the bytes of an answer to the request `id`.
pub fn read_answer(bytes: Vec<u8>, id: &str) -> (r: Result<Json, String>)
    ensures
        value_outcome(r) == answer_verdict(bytes@, id@),
{
    if bytes.len() == 0 {
        return Err("插件没有返回响应。".to_string());
    }
    if bytes.len() > MAX_IPC_LINE_BYTES {
        return Err(
            "IPC 响应超过 ".to_string().concat(
                decimal_text(MAX_IPC_LINE_BYTES as u64).as_str(),
            ).concat(" 字节上限。"),
        );
    }
    match utf8_text(bytes) {
        None => Err("插件响应不是有效 UTF-8。".to_string()),
        Some(line) => decode_response_for(line.as_str(), Some(id)),
    }
}

/// A request that is to be sent: its identifier, and the line.
pub struct Request {
    pub id: String,
    pub line: String,
}

/// Makes a request with a fresh identifier.
pub fn new_request(cmd: &str, params: Option<&Json>) -> (r: Result<Request, String>)
    ensures
        match r {
            Ok(request) => is_uuid(request.id@) && request_line(
                request.id@,
                cmd@,
                crate::json::opt_json(params),
            ) == Ok::<Seq<char>, Seq<char>>(request.line@),
            Err(message) => exists|id: Seq<char>|
                is_uuid(id) && #[trigger] request_line(
                    id,
                    cmd@,
                    crate::json::opt_json(params),
                ) == Err::<Seq<char>, Seq<char>>(message@),
        },
{
    let id = new_id();
    match encode_request(id.as_str(), cmd, params) {
        Ok(line) => Ok(Request { id, line }),
        Err(message) => {
            assert(request_line(id@, cmd@, crate::json::opt_json(params)) == Err::<
                Seq<char>,
                Seq<char>,
            >(message@));
            Err(message)
        },
    }
}

// ---------------------------------------------------------------------------
// Answers whose shape is not checked
// ---------------------------------------------------------------------------

/// What an answer to the request `id` gives where only its id and its outcome
/// are looked at.
pub open spec fn plain_verdict(value: JsonV, id: Seq<char>) -> Result<JsonV, Seq<char>> {
    if value.get_str("id"@) != Some(id) {
        Err("插件响应 id 与请求不一致。"@)
    } else if id.len() == 0 {
        Err("插件响应 id 不能为空。"@)
    } else if value.get("ok"@) == Some(JsonV::Bool(true)) {
        match value.get("result"@) {
            Some(result) => Ok(result),
            None => Ok(JsonV::Null),
        }
    } else {
        match value.get("error"@) {
            Some(JsonV::Text(message)) => Err(message),
            _ => Err("插件命令失败。"@),
        }
    }
}

/// Looks at the id and the outcome of an answer only.
pub fn settle_plain(value: &Json, id: &str) -> (r: Result<Json, String>)
    ensures
        value_outcome(r) == plain_verdict(value@, id@),
{
    let answers = match value.get_str("id") {
        Some(found) => same(found.as_str(), id),
        None => false,
    };
    if !answers {
        return Err("插件响应 id 与请求不一致。".to_string());
    }
    if id.is_empty() {
        return Err("插件响应 id 不能为空。".to_string());
    }
    let accepted = match value.get("ok") {
        Some(Json::Bool(b)) => *b,
        _ => false,
    };
    if accepted {
        return match value.get("result") {
            Some(result) => Ok(result.copy()),
            None => Ok(Json::Null),
        };
    }
    match value.get("error") {
        Some(Json::Text(message)) => Err(message.as_str().to_string()),
        _ => Err("插件命令失败。".to_string()),
    }
}

/// What a line gives as an answer to the request `id`, where only its id and its
/// outcome are looked at.
pub open spec fn plain_line_verdict(
    parsed: Result<JsonV, Seq<char>>,
    id: Seq<char>,
) -> Result<JsonV, Seq<char>> {
    match parsed {
        Err(message) => Err(message),
        Ok(value) => plain_verdict(value, id),
    }
}

/// Reads an answer to the request `id`, of which only the id and the outcome are
/// looked at. `None` is the end of the stream.
pub fn read_plain_answer(line: Option<&str>, id: &str) -> (r: Result<Json, String>)
    ensures
        value_outcome(r) == (match line {
            None => Err("插件没有返回响应。"@),
            Some(text) => plain_line_verdict(json_parsed(text@), id@),
        }),
{
    match line {
        None => Err("插件没有返回响应。".to_string()),
        Some(text) => match parse_json(text) {
            Err(message) => Err(message),
            Ok(value) => settle_plain(&value, id),
        },
    }
}

} // verus!
