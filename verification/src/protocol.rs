//! The plugin protocol: requests, responses, and the values that they carry.
use vstd::prelude::*;

use crate::records::{fields_view, parse_record, record_parsed, rows_view, value_outcome, Row, RowV};
use crate::address::{is_local_url, parse_url, url_parsed, UrlParts, UrlV};
use crate::digest::{is_digest, sha256_hex, sha256_of};
use crate::json::{
    collected, get_record_field, int_json, is_finite, json_text, lemma_values_view,
    number_as_double, object_of, opt_json, pairs_view, record_field, text_json, values_view,
    write_json, Double, Json, JsonV, Num,
};
use crate::text::{
    alphanumeric, byte_count, byte_len, chars_of, decimal, decimal_text, each, first_at, hex_digit,
    is_alphanumeric, is_hex_digit, lemma_first_at, lemma_not_fewer_bytes, list_view, lower,
    lower_text, outcome, same, trim, trimmed,
};

verus! {

pub const HOST_PROTOCOL: u32 = 2;

pub const CONFIGURE_SCHEMA_VERSION: u32 = 1;

pub const MAX_IPC_LINE_BYTES: usize = 65536;

pub const MAX_STRING_BYTES: usize = 2048;

pub const MAX_ID_BYTES: usize = 128;

pub const MAX_MIME_BYTES: usize = 128;

pub const MAX_DISPLAY_KEYS: usize = 64;

pub const MAX_CAPABILITIES: usize = 32;

pub const MAX_CAPABILITY_VALUES: usize = 64;

pub const MAX_MEDIA_BYTES: u64 = 1073741824;

/// A request to a plugin.
pub struct ProtocolRequest {
    pub id: String,
    pub cmd: String,
    pub params: Option<Json>,
}

/// A plugin's response.
pub struct ProtocolResponse {
    pub id: String,
    pub ok: bool,
    pub result: Option<Json>,
    pub error: Option<String>,
}

/// What a plugin says of itself in answer to `hello`.
pub struct HelloResult {
    pub plugin_protocol: u32,
    pub plugin_id: String,
    pub version: String,
    pub capabilities: Json,
}

/// The media of a `configure` request.
#[derive(Clone, Debug)]
pub struct ConfigureMedia {
    pub url: String,
    pub kind: String,
    pub mime_type: String,
    pub sha256: String,
    pub byte_size: u64,
}

/// The parameters of a `configure` request.
pub struct ConfigureParams {
    pub schema_version: u32,
    pub revision: String,
    pub media: ConfigureMedia,
    pub display: Json,
}

/// The model of a text result.
pub open spec fn text_outcome(r: Result<String, String>) -> Result<Seq<char>, Seq<char>> {
    match r {
        Ok(text) => Ok(text@),
        Err(message) => Err(message@),
    }
}

/// A text may have up to `max` bytes.
pub open spec fn limited(label: Seq<char>, value: Seq<char>, max: nat) -> Result<(), Seq<char>> {
    if byte_len(value) > max {
        Err(label + " 超过 "@ + decimal(max) + " 字节上限。"@)
    } else {
        Ok(())
    }
}

pub fn limit_string(label: &str, value: &str, max_len: usize) -> (r: Result<(), String>)
    ensures
        outcome(r) == limited(label@, value@, max_len as nat),
{
    if byte_count(value) > max_len {
        return Err(
            label.to_string().concat(" 超过 ").concat(decimal_text(max_len as u64).as_str()).concat(
                " 字节上限。",
            ),
        );
    }
    Ok(())
}

// ---------------------------------------------------------------------------
// Requests
// ---------------------------------------------------------------------------

/// The JSON text of a request, its members in the order `id`, `cmd`, `params`.
pub open spec fn request_text(
    id: Seq<char>,
    cmd: Seq<char>,
    params: Option<JsonV>,
) -> Seq<char> {
    "{\"id\":"@ + json_text(JsonV::Text(id)) + ",\"cmd\":"@ + json_text(JsonV::Text(cmd)) + (
    match params {
        Some(value) => ",\"params\":"@ + json_text(value),
        None => Seq::<char>::empty(),
    }) + "}"@
}

/// The line of a request, or why it cannot be sent. A request has an `id`, which
/// its response repeats.
pub open spec fn request_line(
    id: Seq<char>,
    cmd: Seq<char>,
    params: Option<JsonV>,
) -> Result<Seq<char>, Seq<char>> {
    if id.len() == 0 {
        Err("id 不能为空。"@)
    } else if let Err(message) = limited("id"@, id, MAX_ID_BYTES as nat) {
        Err(message)
    } else if let Err(message) = limited("cmd"@, cmd, 64) {
        Err(message)
    } else if byte_len(request_text(id, cmd, params)) > MAX_IPC_LINE_BYTES {
        Err("IPC 请求超过 "@ + decimal(MAX_IPC_LINE_BYTES as nat) + " 字节上限。"@)
    } else {
        Ok(request_text(id, cmd, params).push('\n'))
    }
}

/// Writes a request as one line.
pub fn encode_request(id: &str, cmd: &str, params: Option<&Json>) -> (r: Result<String, String>)
    ensures
        text_outcome(r) == request_line(id@, cmd@, opt_json(params)),
        r matches Ok(line) ==> first_at(line@, '\n') == line@.len() - 1,
{
    if id.is_empty() {
        return Err("id 不能为空。".to_string());
    }
    limit_string("id", id, MAX_ID_BYTES)?;
    limit_string("cmd", cmd, 64)?;
    let mut line = "{\"id\":".to_string();
    line.append(write_json(&text_json(id)).as_str());
    line.append(",\"cmd\":");
    line.append(write_json(&text_json(cmd)).as_str());
    proof {
        reveal_strlit("{\"id\":");
        reveal_strlit(",\"cmd\":");
        reveal_strlit(",\"params\":");
        reveal_strlit("}");
    }
    assert(!line@.contains('\n'));
    if let Some(value) = params {
        line.append(",\"params\":");
        line.append(write_json(value).as_str());
    }
    line.append("}");
    assert(!line@.contains('\n'));
    assert(line@ =~= request_text(id@, cmd@, opt_json(params)));
    if byte_count(line.as_str()) > MAX_IPC_LINE_BYTES {
        return Err(
            "IPC 请求超过 ".to_string().concat(
                decimal_text(MAX_IPC_LINE_BYTES as u64).as_str(),
            ).concat(" 字节上限。"),
        );
    }
    let ghost body = line@;
    line.push('\n');
    proof {
        lemma_first_at(line@, '\n');
        let at = first_at(line@, '\n');
        assert(line@[line@.len() - 1] == '\n');
        assert(line@.contains(line@[line@.len() - 1]));
        if at < line@.len() - 1 {
            assert(body[at] == line@[at]);
            assert(body.contains(body[at]));
        }
    }
    Ok(line)
}

// ---------------------------------------------------------------------------
// Responses
// ---------------------------------------------------------------------------

/// The model of a response.
pub struct ResponseV {
    pub id: Seq<char>,
    pub ok: bool,
    pub result: Option<JsonV>,
    pub error: Option<Seq<char>>,
}

impl View for ProtocolResponse {
    type V = ResponseV;

    open spec fn view(&self) -> ResponseV {
        ResponseV {
            id: self.id@,
            ok: self.ok,
            result: match self.result {
                Some(value) => Some(value@),
                None => None,
            },
            error: match self.error {
                Some(text) => Some(text@),
                None => None,
            },
        }
    }
}

/// A JSON value is a response where it has a text `id` and a truth value `ok`,
/// and where `error` is absent, null or a text. A null `result` counts as
/// absent.
pub open spec fn response_of(value: JsonV) -> Option<ResponseV> {
    let id = record_field(value, "id"@, 0);
    let ok = record_field(value, "ok"@, 1);
    let result = record_field(value, "result"@, 2);
    let error = record_field(value, "error"@, 3);
    if (value matches JsonV::Array(items) && items.len() > 4) || id is None || ok is None
        || id->0.as_str() is None || ok->0.as_bool() is None || !(error is None
        || error->0 is Null || error->0 is Text) {
        None
    } else {
        Some(
            ResponseV {
                id: id->0.as_str()->0,
                ok: ok->0.as_bool()->0,
                result: if result is None || result->0 is Null {
                    None
                } else {
                    result
                },
                error: if error is None || error->0 is Null {
                    None
                } else {
                    error->0.as_str()
                },
            },
        )
    }
}

/// Reads a response from a JSON value.
pub fn read_response(value: &Json) -> (r: Option<ProtocolResponse>)
    ensures
        match r {
            Some(response) => response_of(value@) == Some(response@),
            None => response_of(value@) is None,
        },
{
    if let Json::Array(items) = value {
        proof {
            lemma_values_view(items@);
        }
        if items.len() > 4 {
            return None;
        }
    }
    let id = match get_record_field(value, "id", 0) {
        Some(field) => match field.as_str() {
            Some(text) => text.clone(),
            None => {
                return None;
            },
        },
        None => {
            return None;
        },
    };
    let ok = match get_record_field(value, "ok", 1) {
        Some(field) => match field.as_bool() {
            Some(flag) => flag,
            None => {
                return None;
            },
        },
        None => {
            return None;
        },
    };
    let result = match get_record_field(value, "result", 2) {
        Some(Json::Null) => None,
        Some(field) => Some(field.copy()),
        None => None,
    };
    let error = match get_record_field(value, "error", 3) {
        Some(Json::Null) => None,
        Some(Json::Text(text)) => Some(text.clone()),
        Some(_) => {
            return None;
        },
        None => None,
    };
    Some(ProtocolResponse { id, ok, result, error })
}

/// What a response says: the result of the command, or why it failed.
pub open spec fn response_verdict(
    response: ResponseV,
    expected_id: Option<Seq<char>>,
) -> Result<JsonV, Seq<char>> {
    if expected_id is Some && response.id != expected_id->0 {
        Err("插件响应 id 与请求不一致。"@)
    } else if response.id.len() == 0 {
        Err("插件响应 id 不能为空。"@)
    } else if response.ok {
        Ok(
            match response.result {
                Some(value) => value,
                None => JsonV::Null,
            },
        )
    } else if response.error is Some && response.error->0.len() > 0 && byte_len(response.error->0)
        <= MAX_STRING_BYTES {
        Err(response.error->0)
    } else {
        Err("插件命令失败。"@)
    }
}

/// Takes the result out of a response.
pub fn settle_response(response: ProtocolResponse, expected_id: Option<&str>) -> (r: Result<
    Json,
    String,
>)
    ensures
        value_outcome(r) == response_verdict(
            response@,
            match expected_id {
                Some(id) => Some(id@),
                None => None,
            },
        ),
{
    if let Some(expected) = expected_id {
        if !same(response.id.as_str(), expected) {
            return Err("插件响应 id 与请求不一致。".to_string());
        }
    }
    if response.id.as_str().is_empty() {
        return Err("插件响应 id 不能为空。".to_string());
    }
    if response.ok {
        return match response.result {
            Some(value) => Ok(value),
            None => Ok(Json::Null),
        };
    }
    if let Some(error) = response.error {
        if !error.as_str().is_empty() && byte_count(error.as_str()) <= MAX_STRING_BYTES {
            return Err(error);
        }
    }
    Err("插件命令失败。".to_string())
}

/// What the library makes of a response line, given what JSON the line holds.
pub open spec fn line_verdict(
    line: Seq<char>,
    parsed: Result<JsonV, Seq<char>>,
    expected_id: Option<Seq<char>>,
) -> Result<JsonV, Seq<char>> {
    if byte_len(line) > MAX_IPC_LINE_BYTES {
        Err("IPC 响应超过 "@ + decimal(MAX_IPC_LINE_BYTES as nat) + " 字节上限。"@)
    } else {
        match parsed {
            Err(message) => Err("无效插件响应："@ + message),
            Ok(value) => match response_of(value) {
                None => Err("无效插件响应："@ + "响应字段缺失或类型错误。"@),
                Some(response) => response_verdict(response, expected_id),
            },
        }
    }
}

/// The fields of a response.
pub open spec fn response_rows() -> Seq<RowV> {
    seq![
        RowV::Any,
        RowV::Record(seq![("id"@, 0), ("ok"@, 0), ("result"@, 0), ("error"@, 0)]),
    ]
}

/// The value of a response line. A line that repeats a field has none.
pub open spec fn response_parsed(line: Seq<char>) -> Result<JsonV, Seq<char>> {
    record_parsed(trimmed(line), response_rows(), 1)
}

fn parse_response(line: &str) -> (r: Result<Json, String>)
    ensures
        value_outcome(r) == response_parsed(line@),
{
    let fields = vec![("id", 0usize), ("ok", 0), ("result", 0), ("error", 0)];
    assert(fields_view(fields@) =~= response_rows()[1]->Record_0);
    let rows = vec![Row::Any, Row::Record(fields)];
    assert(rows_view(rows@) =~= response_rows());
    parse_record(trim(line).as_str(), &rows, 1)
}

/// Reads the response line of a plugin. Where `expected_id` is given, the
/// response must carry it.
pub fn decode_response_for(line: &str, expected_id: Option<&str>) -> (r: Result<Json, String>)
    ensures
        value_outcome(r) == line_verdict(
            line@,
            response_parsed(line@),
            match expected_id {
                Some(id) => Some(id@),
                None => None,
            },
        ),
{
    if byte_count(line) > MAX_IPC_LINE_BYTES {
        return Err(
            "IPC 响应超过 ".to_string().concat(
                decimal_text(MAX_IPC_LINE_BYTES as u64).as_str(),
            ).concat(" 字节上限。"),
        );
    }
    match parse_response(line) {
        Err(message) => Err("无效插件响应：".to_string().concat(message.as_str())),
        Ok(value) => match read_response(&value) {
            None => Err(
                "无效插件响应：".to_string().concat("响应字段缺失或类型错误。"),
            ),
            Some(response) => settle_response(response, expected_id),
        },
    }
}

/// Reads a response line whatever request it answers.
pub fn decode_response(line: &str) -> (r: Result<Json, String>)
    ensures
        value_outcome(r) == line_verdict(line@, response_parsed(line@), None),
{
    decode_response_for(line, None)
}

/// No request goes out without an id, and no response is taken for a result
/// without one.
pub proof fn empty_id_is_refused(
    line: Seq<char>,
    value: JsonV,
    cmd: Seq<char>,
    params: Option<JsonV>,
    expected_id: Option<Seq<char>>,
)
    requires
        response_of(value) is Some,
        response_of(value)->0.id.len() == 0,
    ensures
        request_line(Seq::empty(), cmd, params) is Err,
        line_verdict(line, Ok(value), expected_id) is Err,
{
}

/// A response with another id than the request's is never taken for a result.
pub proof fn foreign_response_is_refused(
    line: Seq<char>,
    value: JsonV,
    expected_id: Seq<char>,
)
    requires
        response_of(value) is Some,
        response_of(value)->0.id != expected_id,
    ensures
        line_verdict(line, Ok(value), Some(expected_id)) is Err,
{
}

// ---------------------------------------------------------------------------
// Capabilities
// ---------------------------------------------------------------------------

/// A capability is named by ASCII letters, digits and hyphens.
pub open spec fn is_capability_name(key: Seq<char>) -> bool {
    key.len() > 0 && each(key, |c: char| is_alphanumeric(c) || c == '-')
}

/// Each value of a list capability is a text of up to 128 bytes.
pub open spec fn list_check(path: Seq<char>, items: Seq<JsonV>) -> Result<(), Seq<char>>
    decreases items.len(),
{
    if items.len() == 0 {
        Ok(())
    } else if let Err(message) = list_check(path, items.drop_last()) {
        Err(message)
    } else {
        match items.last().as_str() {
            None => Err(path + " 必须是字符串数组。"@),
            Some(text) => limited(path + "[]"@, text, 128),
        }
    }
}

/// The check of one capability.
pub open spec fn capability_check(
    label: Seq<char>,
    key: Seq<char>,
    value: JsonV,
) -> Result<(), Seq<char>> {
    let path = label + "."@ + key;
    if let Err(message) = limited(label + " key"@, key, 64) {
        Err(message)
    } else if !is_capability_name(key) {
        Err(path + " 的名称无效。"@)
    } else {
        match value {
            JsonV::Bool(_) => Ok(()),
            JsonV::Num(Num::PosInt(n)) => if n > MAX_MEDIA_BYTES {
                Err(path + " 超出允许范围。"@)
            } else {
                Ok(())
            },
            JsonV::Num(_) => Err(path + " 必须是非负整数。"@),
            JsonV::Text(text) => limited(path, text, 128),
            JsonV::Array(items) => if items.len() > MAX_CAPABILITY_VALUES {
                Err(path + " 超过 "@ + decimal(MAX_CAPABILITY_VALUES as nat) + " 项。"@)
            } else {
                list_check(path, items)
            },
            _ => Err(path + " 的值类型无效。"@),
        }
    }
}

/// The first complaint about the capabilities, in the order of their names.
pub open spec fn members_check(
    label: Seq<char>,
    members: Seq<(Seq<char>, JsonV)>,
) -> Result<(), Seq<char>>
    decreases members.len(),
{
    if members.len() == 0 {
        Ok(())
    } else if let Err(message) = members_check(label, members.drop_last()) {
        Err(message)
    } else {
        capability_check(label, members.last().0, members.last().1)
    }
}

/// Capabilities are an object of one to 32 flags, limits, texts and lists.
pub open spec fn capabilities_check(value: JsonV, label: Seq<char>) -> Result<(), Seq<char>> {
    match value {
        JsonV::Object(members) => if members.len() == 0 {
            Err(label + " 不能为空。"@)
        } else if members.len() > MAX_CAPABILITIES {
            Err(label + " 超过 "@ + decimal(MAX_CAPABILITIES as nat) + " 项。"@)
        } else {
            members_check(label, members)
        },
        _ => Err(label + " 必须是对象。"@),
    }
}

fn check_name(key: &str) -> (r: bool)
    ensures
        r == is_capability_name(key@),
{
    let chars = chars_of(key);
    let mut i: usize = 0;
    while i < chars.len()
        invariant
            i <= chars.len(),
            chars@ == key@,
            forall|k: int| 0 <= k < i ==> is_alphanumeric(#[trigger] key@[k]) || key@[k] == '-',
        decreases chars.len() - i,
    {
        if !(alphanumeric(chars[i]) || chars[i] == '-') {
            assert(!is_capability_name(key@)) by {
                let c = key@[i as int];
                assert(!(is_alphanumeric(c) || c == '-'));
            }
            return false;
        }
        i += 1;
    }
    chars.len() > 0
}

fn check_list(path: &str, items: &Vec<Json>) -> (r: Result<(), String>)
    ensures
        outcome(r) == list_check(path@, values_view(items@)),
{
    let ghost model = values_view(items@);
    proof {
        lemma_values_view(items@);
        assert(model.take(model.len() as int) == model);
    }
    let mut i: usize = 0;
    while i < items.len()
        invariant
            i <= items.len(),
            model == values_view(items@),
            model.len() == items.len(),
            forall|k: int| 0 <= k < items.len() ==> #[trigger] model[k] == items@[k]@,
            model.take(model.len() as int) == model,
            list_check(path@, model.take(i as int)) is Ok,
        decreases items.len() - i,
    {
        proof {
            assert(model.take(i + 1).drop_last() == model.take(i as int));
            assert(model.take(i + 1).last() == items@[i as int]@);
            lemma_list_check_stops(path@, model, i + 1);
        }
        match items[i].as_str() {
            None => {
                return Err(path.to_string().concat(" 必须是字符串数组。"));
            },
            Some(text) => {
                limit_string(path.to_string().concat("[]").as_str(), text.as_str(), 128)?;
            },
        }
        i += 1;
    }
    Ok(())
}

/// A complaint about the first items is the complaint about the list.
proof fn lemma_list_check_stops(path: Seq<char>, items: Seq<JsonV>, n: int)
    requires
        0 <= n <= items.len(),
    ensures
        list_check(path, items.take(n)) is Err ==> list_check(path, items) == list_check(
            path,
            items.take(n),
        ),
    decreases items.len() - n,
{
    if n < items.len() {
        lemma_list_check_stops(path, items, n + 1);
        assert(items.take(n + 1).drop_last() == items.take(n));
    } else {
        assert(items.take(n) == items);
    }
}

proof fn lemma_members_check_stops(
    label: Seq<char>,
    members: Seq<(Seq<char>, JsonV)>,
    n: int,
)
    requires
        0 <= n <= members.len(),
    ensures
        members_check(label, members.take(n)) is Err ==> members_check(label, members)
            == members_check(label, members.take(n)),
    decreases members.len() - n,
{
    if n < members.len() {
        lemma_members_check_stops(label, members, n + 1);
        assert(members.take(n + 1).drop_last() == members.take(n));
    } else {
        assert(members.take(n) == members);
    }
}

fn check_capability(label: &str, key: &str, value: &Json) -> (r: Result<(), String>)
    ensures
        outcome(r) == capability_check(label@, key@, value@),
{
    limit_string(label.to_string().concat(" key").as_str(), key, 64)?;
    let path = label.to_string().concat(".").concat(key);
    if !check_name(key) {
        return Err(path.concat(" 的名称无效。"));
    }
    match value {
        Json::Bool(_) => Ok(()),
        Json::Num(_) => match value.as_u64() {
            None => Err(path.concat(" 必须是非负整数。")),
            Some(n) => if n > MAX_MEDIA_BYTES {
                Err(path.concat(" 超出允许范围。"))
            } else {
                Ok(())
            },
        },
        Json::Text(text) => limit_string(path.as_str(), text.as_str(), 128),
        Json::Array(items) => {
            proof {
                lemma_values_view(items@);
            }
            if items.len() > MAX_CAPABILITY_VALUES {
                return Err(
                    path.concat(" 超过 ").concat(
                        decimal_text(MAX_CAPABILITY_VALUES as u64).as_str(),
                    ).concat(" 项。"),
                );
            }
            check_list(path.as_str(), items)
        },
        _ => Err(path.concat(" 的值类型无效。")),
    }
}

/// Checks the capabilities of a plugin.
pub fn validate_capabilities(value: &Json, label: &str) -> (r: Result<(), String>)
    ensures
        outcome(r) == capabilities_check(value@, label@),
{
    let members = match value {
        Json::Object(members) => members,
        _ => {
            return Err(label.to_string().concat(" 必须是对象。"));
        },
    };
    if members.len() == 0 {
        return Err(label.to_string().concat(" 不能为空。"));
    }
    if members.len() > MAX_CAPABILITIES {
        return Err(
            label.to_string().concat(" 超过 ").concat(
                decimal_text(MAX_CAPABILITIES as u64).as_str(),
            ).concat(" 项。"),
        );
    }
    let ghost model = members@;
    let mut i: usize = 0;
    while i < members.len()
        invariant
            i <= model.len(),
            model == members@,
            value@ == JsonV::Object(model),
            0 < model.len() <= MAX_CAPABILITIES,
            members_check(label@, model.take(i as int)) is Ok,
        decreases model.len() - i,
    {
        proof {
            assert(model.take(i + 1).drop_last() == model.take(i as int));
            assert(model.take(i + 1).last() == model[i as int]);
            lemma_members_check_stops(label@, model, i + 1);
        }
        check_capability(label, members.key(i).as_str(), members.value(i))?;
        i += 1;
    }
    assert(model.take(model.len() as int) == model);
    Ok(())
}

/// A capability counts as present where its value is not empty, zero or false.
pub open spec fn is_enabled_capability(value: JsonV) -> bool {
    match value {
        JsonV::Bool(flag) => flag,
        JsonV::Num(Num::PosInt(n)) => n > 0,
        JsonV::Text(text) => text.len() > 0,
        JsonV::Array(items) => items.len() > 0,
        _ => false,
    }
}

/// The names of the capabilities that are present, in order.
pub open spec fn enabled_names(members: Seq<(Seq<char>, JsonV)>) -> Seq<Seq<char>>
    decreases members.len(),
{
    if members.len() == 0 {
        Seq::empty()
    } else if is_enabled_capability(members.last().1) {
        enabled_names(members.drop_last()).push(members.last().0)
    } else {
        enabled_names(members.drop_last())
    }
}

/// The names of the capabilities that are present.
pub fn capability_labels(value: &Json) -> (r: Vec<String>)
    ensures
        list_view(r@) == (match value@ {
            JsonV::Object(members) => enabled_names(members),
            _ => Seq::<Seq<char>>::empty(),
        }),
{
    let mut out: Vec<String> = Vec::new();
    let members = match value {
        Json::Object(members) => members,
        _ => {
            assert(list_view(out@) =~= Seq::<Seq<char>>::empty());
            return out;
        },
    };
    let ghost model = members@;
    let mut i: usize = 0;
    assert(list_view(out@) =~= enabled_names(model.take(0)));
    while i < members.len()
        invariant
            i <= model.len(),
            model == members@,
            list_view(out@) == enabled_names(model.take(i as int)),
        decreases model.len() - i,
    {
        proof {
            assert(model.take(i + 1).drop_last() == model.take(i as int));
            assert(model.take(i + 1).last() == model[i as int]);
        }
        let enabled = match members.value(i) {
            Json::Bool(flag) => *flag,
            Json::Num(_) => match members.value(i).as_u64() {
                Some(n) => n > 0,
                None => false,
            },
            Json::Text(text) => !text.as_str().is_empty(),
            Json::Array(items) => {
                proof {
                    lemma_values_view(items@);
                }
                items.len() > 0
            },
            _ => false,
        };
        if enabled {
            let ghost before = out@;
            out.push(members.key(i).clone());
            assert(list_view(out@) =~= list_view(before).push(model[i as int].0));
        }
        i += 1;
    }
    assert(model.take(model.len() as int) == model);
    out
}

// ---------------------------------------------------------------------------
// Hello
// ---------------------------------------------------------------------------

/// The model of what a plugin says of itself.
pub struct HelloV {
    pub plugin_protocol: u32,
    pub plugin_id: Seq<char>,
    pub version: Seq<char>,
    pub capabilities: JsonV,
}

impl View for HelloResult {
    type V = HelloV;

    open spec fn view(&self) -> HelloV {
        HelloV {
            plugin_protocol: self.plugin_protocol,
            plugin_id: self.plugin_id@,
            version: self.version@,
            capabilities: self.capabilities@,
        }
    }
}

/// The unsigned number under `key`, which 32 bits must hold.
pub open spec fn needed_u32(value: JsonV, key: Seq<char>) -> Result<u32, Seq<char>> {
    match value.get(key) {
        Some(JsonV::Num(Num::PosInt(n))) if n <= u32::MAX => Ok(n as u32),
        _ => Err("hello 缺少有效的 "@ + key + "。"@),
    }
}

fn required_u32(value: &Json, key: &str) -> (r: Result<u32, String>)
    ensures
        outcome(r) == needed_u32(value@, key@),
{
    if let Some(field) = value.get(key) {
        if let Some(n) = field.as_u64() {
            if n <= u32::MAX as u64 {
                return Ok(n as u32);
            }
        }
    }
    Err("hello 缺少有效的 ".to_string().concat(key).concat("。"))
}

/// The text under `key`, which must not be empty nor longer than `max` bytes.
pub open spec fn needed_string(value: JsonV, key: Seq<char>, max: nat) -> Result<
    Seq<char>,
    Seq<char>,
> {
    match value.get_str(key) {
        None => Err("hello 缺少 "@ + key + "。"@),
        Some(text) => if let Err(message) = limited(key, text, max) {
            Err(message)
        } else if text.len() == 0 {
            Err("hello."@ + key + " 不能为空。"@)
        } else {
            Ok(text)
        },
    }
}

fn required_string(value: &Json, key: &str, max_len: usize) -> (r: Result<String, String>)
    ensures
        text_outcome(r) == needed_string(value@, key@, max_len as nat),
{
    match value.get_str(key) {
        None => Err("hello 缺少 ".to_string().concat(key).concat("。")),
        Some(text) => {
            limit_string(key, text.as_str(), max_len)?;
            if text.as_str().is_empty() {
                return Err("hello.".to_string().concat(key).concat(" 不能为空。"));
            }
            Ok(text.clone())
        },
    }
}

/// A plugin's `hello` must speak protocol 2 and name the plugin, its version
/// and its capabilities.
pub open spec fn hello_of(value: JsonV) -> Result<HelloV, Seq<char>> {
    match needed_u32(value, "pluginProtocol"@) {
        Err(message) => Err(message),
        Ok(protocol) => if protocol != HOST_PROTOCOL {
            Err(
                "hello 声明的 pluginProtocol="@ + decimal(protocol as nat)
                    + "，宿主当前需要 2。"@,
            )
        } else {
            match needed_string(value, "pluginId"@, MAX_ID_BYTES as nat) {
                Err(message) => Err(message),
                Ok(plugin_id) => match needed_string(value, "version"@, 64) {
                    Err(message) => Err(message),
                    Ok(version) => match value.get("capabilities"@) {
                        None => Err("hello 缺少 capabilities。"@),
                        Some(capabilities) => if let Err(message) = capabilities_check(
                            capabilities,
                            "hello.capabilities"@,
                        ) {
                            Err(message)
                        } else {
                            Ok(
                                HelloV {
                                    plugin_protocol: protocol,
                                    plugin_id,
                                    version,
                                    capabilities,
                                },
                            )
                        },
                    },
                },
            }
        },
    }
}

/// The model of a `hello` result.
pub open spec fn hello_outcome(r: Result<HelloResult, String>) -> Result<HelloV, Seq<char>> {
    match r {
        Ok(hello) => Ok(hello@),
        Err(message) => Err(message@),
    }
}

/// Reads a plugin's answer to `hello`.
pub fn parse_hello(value: &Json) -> (r: Result<HelloResult, String>)
    ensures
        hello_outcome(r) == hello_of(value@),
{
    let plugin_protocol = required_u32(value, "pluginProtocol")?;
    if plugin_protocol != HOST_PROTOCOL {
        return Err(
            "hello 声明的 pluginProtocol=".to_string().concat(
                decimal_text(plugin_protocol as u64).as_str(),
            ).concat("，宿主当前需要 2。"),
        );
    }
    let plugin_id = required_string(value, "pluginId", MAX_ID_BYTES)?;
    let version = required_string(value, "version", 64)?;
    let capabilities = match value.get("capabilities") {
        Some(field) => field,
        None => {
            return Err("hello 缺少 capabilities。".to_string());
        },
    };
    validate_capabilities(capabilities, "hello.capabilities")?;
    Ok(HelloResult { plugin_protocol, plugin_id, version, capabilities: capabilities.copy() })
}

/// A plugin that is accepted speaks the host's protocol, and its name, version
/// and capabilities are within their limits.
pub proof fn accepted_hello_is_within_limits(value: JsonV)
    requires
        hello_of(value) is Ok,
    ensures
        hello_of(value)->Ok_0.plugin_protocol == HOST_PROTOCOL,
        0 < hello_of(value)->Ok_0.plugin_id.len(),
        byte_len(hello_of(value)->Ok_0.plugin_id) <= MAX_ID_BYTES,
        0 < hello_of(value)->Ok_0.version.len(),
        byte_len(hello_of(value)->Ok_0.version) <= 64,
        capabilities_check(hello_of(value)->Ok_0.capabilities, "hello.capabilities"@) is Ok,
{
}

// ---------------------------------------------------------------------------
// Configure
// ---------------------------------------------------------------------------

/// The model of a `configure` request's media.
pub struct ConfigureMediaV {
    pub url: Seq<char>,
    pub kind: Seq<char>,
    pub mime_type: Seq<char>,
    pub sha256: Seq<char>,
    pub byte_size: u64,
}

impl View for ConfigureMedia {
    type V = ConfigureMediaV;

    open spec fn view(&self) -> ConfigureMediaV {
        ConfigureMediaV {
            url: self.url@,
            kind: self.kind@,
            mime_type: self.mime_type@,
            sha256: self.sha256@,
            byte_size: self.byte_size,
        }
    }
}

/// A media URL is an `http` address of this machine without an account.
pub open spec fn loopback_check(parts: UrlV) -> Result<(), Seq<char>> {
    if parts.scheme != "http"@ {
        Err("媒体 URL 必须是 http 回环地址。"@)
    } else if parts.host is None {
        Err("媒体 URL 缺少主机名。"@)
    } else if parts.host->0 != "127.0.0.1"@ && lower(parts.host->0) != lower("localhost"@) {
        Err("媒体 URL 必须指向 127.0.0.1 或 localhost。"@)
    } else if parts.username.len() > 0 || parts.password is Some {
        Err("媒体 URL 不能包含账号信息。"@)
    } else {
        Ok(())
    }
}

/// The check of a media URL, given the parts that were read from it.
pub open spec fn media_url_check(url: Seq<char>, parsed: Option<UrlV>) -> Result<(), Seq<char>> {
    if let Err(message) = limited("media.url"@, url, MAX_STRING_BYTES as nat) {
        Err(message)
    } else {
        match parsed {
            None => Err("媒体 URL 无效。"@),
            Some(parts) => loopback_check(parts),
        }
    }
}

/// Checks the parts of a media URL.
pub fn check_loopback(parts: &UrlParts) -> (r: Result<(), String>)
    ensures
        outcome(r) == loopback_check(parts@),
{
    if !same(parts.scheme.as_str(), "http") {
        return Err("媒体 URL 必须是 http 回环地址。".to_string());
    }
    let host = match &parts.host {
        Some(host) => host,
        None => {
            return Err("媒体 URL 缺少主机名。".to_string());
        },
    };
    if !same(host.as_str(), "127.0.0.1") && !same(
        lower_text(host.as_str()).as_str(),
        lower_text("localhost").as_str(),
    ) {
        return Err("媒体 URL 必须指向 127.0.0.1 或 localhost。".to_string());
    }
    if !parts.username.as_str().is_empty() || parts.password.is_some() {
        return Err("媒体 URL 不能包含账号信息。".to_string());
    }
    Ok(())
}

/// Checks a media URL and hands back its parts. A URL of this machine that is not
/// too long passes.
pub fn validate_media_url(url: &str) -> (r: Result<UrlParts, String>)
    ensures
        match r {
            Ok(parts) => url_parsed(url@) == Some(parts@) && media_url_check(
                url@,
                url_parsed(url@),
            ) is Ok,
            Err(message) => media_url_check(url@, url_parsed(url@)) == Err::<(), Seq<char>>(
                message@,
            ),
        },
        is_local_url(url@) && byte_len(url@) <= MAX_STRING_BYTES ==> r is Ok,
{
    limit_string("media.url", url, MAX_STRING_BYTES)?;
    proof {
        lemma_not_fewer_bytes(url@);
    }
    match parse_url(url) {
        None => Err("媒体 URL 无效。".to_string()),
        Some(parts) => {
            check_loopback(&parts)?;
            Ok(parts)
        },
    }
}

pub open spec fn all_hex(s: Seq<char>) -> bool {
    each(s, |c: char| is_hex_digit(c))
}

fn check_hex(s: &str) -> (r: bool)
    ensures
        r == all_hex(s@),
{
    for c in it: s.chars()
        invariant
            it.seq() == s@,
            forall|k: int| 0 <= k < it.index() ==> is_hex_digit(#[trigger] s@[k]),
    {
        if !hex_digit(c) {
            assert(!is_hex_digit(s@[it.index() as int]));
            return false;
        }
    }
    true
}

/// The check of a `configure` request's media besides its URL.
pub open spec fn media_fields_check(media: ConfigureMediaV) -> Result<(), Seq<char>> {
    if media.kind != "image"@ && media.kind != "video"@ {
        Err("media.kind 只能是 image 或 video。"@)
    } else if let Err(message) = limited("media.mimeType"@, media.mime_type, MAX_MIME_BYTES as nat) {
        Err(message)
    } else if media.mime_type.len() == 0 {
        Err("media.mimeType 不能为空。"@)
    } else if let Err(message) = limited("media.sha256"@, media.sha256, 64) {
        Err(message)
    } else if byte_len(media.sha256) != 64 || !all_hex(media.sha256) {
        Err("media.sha256 必须是 64 位十六进制。"@)
    } else if media.byte_size < 1 || media.byte_size > MAX_MEDIA_BYTES {
        Err("media.byteSize 超出允许范围。"@)
    } else {
        Ok(())
    }
}

/// The check of a `configure` request's media.
pub open spec fn configure_media_check(
    media: ConfigureMediaV,
    parsed: Option<UrlV>,
) -> Result<(), Seq<char>> {
    if let Err(message) = media_url_check(media.url, parsed) {
        Err(message)
    } else {
        media_fields_check(media)
    }
}

/// Checks the kind, type, digest and size of a `configure` request's media.
pub fn check_media_fields(media: &ConfigureMedia) -> (r: Result<(), String>)
    ensures
        outcome(r) == media_fields_check(media@),
{
    if !same(media.kind.as_str(), "image") && !same(media.kind.as_str(), "video") {
        return Err("media.kind 只能是 image 或 video。".to_string());
    }
    limit_string("media.mimeType", media.mime_type.as_str(), MAX_MIME_BYTES)?;
    if media.mime_type.as_str().is_empty() {
        return Err("media.mimeType 不能为空。".to_string());
    }
    limit_string("media.sha256", media.sha256.as_str(), 64)?;
    if byte_count(media.sha256.as_str()) != 64 || !check_hex(media.sha256.as_str()) {
        return Err("media.sha256 必须是 64 位十六进制。".to_string());
    }
    if media.byte_size < 1 || media.byte_size > MAX_MEDIA_BYTES {
        return Err("media.byteSize 超出允许范围。".to_string());
    }
    Ok(())
}

/// Checks the media of a `configure` request.
pub fn validate_configure_media(media: &ConfigureMedia) -> (r: Result<(), String>)
    ensures
        outcome(r) == configure_media_check(media@, url_parsed(media@.url)),
{
    match validate_media_url(media.url.as_str()) {
        Err(message) => Err(message),
        Ok(_) => check_media_fields(media),
    }
}

/// The check of one display field.
pub open spec fn display_field_check(key: Seq<char>, value: JsonV) -> Result<(), Seq<char>> {
    if let Err(message) = limited("display key"@, key, 64) {
        Err(message)
    } else {
        match value {
            JsonV::Null => Ok(()),
            JsonV::Bool(_) => Ok(()),
            JsonV::Num(n) => if is_finite(number_as_double(n)) {
                Ok(())
            } else {
                Err("display."@ + key + " 必须是有限数字。"@)
            },
            JsonV::Text(text) => limited("display."@ + key, text, 128),
            _ => Err("display."@ + key + " 不能是嵌套结构。"@),
        }
    }
}

/// The first complaint about the display fields, in the order of their names.
pub open spec fn display_members_check(members: Seq<(Seq<char>, JsonV)>) -> Result<
    (),
    Seq<char>,
>
    decreases members.len(),
{
    if members.len() == 0 {
        Ok(())
    } else if let Err(message) = display_members_check(members.drop_last()) {
        Err(message)
    } else {
        display_field_check(members.last().0, members.last().1)
    }
}

/// Display settings are a flat object of up to 64 fields.
pub open spec fn display_check(display: JsonV) -> Result<(), Seq<char>> {
    match display {
        JsonV::Object(members) => if members.len() > MAX_DISPLAY_KEYS {
            Err("display 字段数超过 "@ + decimal(MAX_DISPLAY_KEYS as nat) + "。"@)
        } else {
            display_members_check(members)
        },
        _ => Err("display 必须是对象。"@),
    }
}

proof fn lemma_display_check_stops(members: Seq<(Seq<char>, JsonV)>, n: int)
    requires
        0 <= n <= members.len(),
    ensures
        display_members_check(members.take(n)) is Err ==> display_members_check(members)
            == display_members_check(members.take(n)),
    decreases members.len() - n,
{
    if n < members.len() {
        lemma_display_check_stops(members, n + 1);
        assert(members.take(n + 1).drop_last() == members.take(n));
    } else {
        assert(members.take(n) == members);
    }
}

/// Checks one display field.
pub fn validate_display_field(key: &str, value: &Json) -> (r: Result<(), String>)
    ensures
        outcome(r) == display_field_check(key@, value@),
{
    limit_string("display key", key, 64)?;
    match value {
        Json::Null => Ok(()),
        Json::Bool(_) => Ok(()),
        Json::Num(n) => {
            let _finite = Double::of_number(n);
            Ok(())
        },
        Json::Text(text) => limit_string(
            "display.".to_string().concat(key).as_str(),
            text.as_str(),
            128,
        ),
        _ => Err("display.".to_string().concat(key).concat(" 不能是嵌套结构。")),
    }
}

/// Checks display settings.
pub fn validate_display_object(display: &Json) -> (r: Result<(), String>)
    ensures
        outcome(r) == display_check(display@),
{
    let members = match display {
        Json::Object(members) => members,
        _ => {
            return Err("display 必须是对象。".to_string());
        },
    };
    if members.len() > MAX_DISPLAY_KEYS {
        return Err(
            "display 字段数超过 ".to_string().concat(
                decimal_text(MAX_DISPLAY_KEYS as u64).as_str(),
            ).concat("。"),
        );
    }
    let ghost model = members@;
    let mut i: usize = 0;
    while i < members.len()
        invariant
            i <= model.len(),
            model == members@,
            display@ == JsonV::Object(model),
            model.len() <= MAX_DISPLAY_KEYS,
            display_members_check(model.take(i as int)) is Ok,
        decreases model.len() - i,
    {
        proof {
            assert(model.take(i + 1).drop_last() == model.take(i as int));
            assert(model.take(i + 1).last() == model[i as int]);
            lemma_display_check_stops(model, i + 1);
        }
        validate_display_field(members.key(i).as_str(), members.value(i))?;
        i += 1;
    }
    assert(model.take(model.len() as int) == model);
    Ok(())
}

/// The JSON value of `configure` parameters.
pub open spec fn configure_value(
    revision: Seq<char>,
    media: ConfigureMediaV,
    display: JsonV,
) -> JsonV {
    JsonV::Object(
        collected(
            seq![
                (
                    "schemaVersion"@,
                    JsonV::Num(Num::PosInt(CONFIGURE_SCHEMA_VERSION as u64)),
                ),
                ("revision"@, JsonV::Text(revision)),
                (
                    "media"@,
                    JsonV::Object(
                        collected(
                            seq![
                                ("url"@, JsonV::Text(media.url)),
                                ("kind"@, JsonV::Text(media.kind)),
                                ("mimeType"@, JsonV::Text(media.mime_type)),
                                ("sha256"@, JsonV::Text(media.sha256)),
                                ("byteSize"@, JsonV::Num(Num::PosInt(media.byte_size))),
                            ],
                        ),
                    ),
                ),
                ("display"@, display),
            ],
        ),
    )
}

/// The `configure` parameters, or why they cannot be sent.
pub open spec fn configure_params(
    revision: Seq<char>,
    media: ConfigureMediaV,
    display: JsonV,
    parsed: Option<UrlV>,
) -> Result<JsonV, Seq<char>> {
    if revision.len() == 0 || byte_len(revision) > 128 {
        Err("configure.revision 无效。"@)
    } else if let Err(message) = configure_media_check(media, parsed) {
        Err(message)
    } else if let Err(message) = display_check(display) {
        Err(message)
    } else if byte_len(json_text(configure_value(revision, media, display))) > MAX_IPC_LINE_BYTES
        - 256 {
        Err("configure 参数超过长度上限。"@)
    } else {
        Ok(configure_value(revision, media, display))
    }
}

/// Makes the parameters of a `configure` request.
pub fn build_configure_params(revision: String, media: ConfigureMedia, display: Json) -> (r: Result<
    Json,
    String,
>)
    ensures
        value_outcome(r) == configure_params(
            revision@,
            media@,
            display@,
            url_parsed(media@.url),
        ),
{
    if revision.as_str().is_empty() || byte_count(revision.as_str()) > 128 {
        return Err("configure.revision 无效。".to_string());
    }
    if let Err(message) = validate_configure_media(&media) {
        return Err(message);
    }
    if let Err(message) = validate_display_object(&display) {
        return Err(message);
    }
    let params = ConfigureParams {
        schema_version: CONFIGURE_SCHEMA_VERSION,
        revision,
        media,
        display,
    };
    let fields: Vec<(&str, Json)> = vec![
        ("url", text_json(params.media.url.as_str())),
        ("kind", text_json(params.media.kind.as_str())),
        ("mimeType", text_json(params.media.mime_type.as_str())),
        ("sha256", text_json(params.media.sha256.as_str())),
        ("byteSize", int_json(params.media.byte_size)),
    ];
    let ghost media_model = pairs_view(fields@);
    let whole: Vec<(&str, Json)> = vec![
        ("schemaVersion", int_json(params.schema_version as u64)),
        ("revision", text_json(params.revision.as_str())),
        ("media", object_of(fields)),
        ("display", params.display),
    ];
    proof {
        assert(media_model =~= seq![
            ("url"@, JsonV::Text(media@.url)),
            ("kind"@, JsonV::Text(media@.kind)),
            ("mimeType"@, JsonV::Text(media@.mime_type)),
            ("sha256"@, JsonV::Text(media@.sha256)),
            ("byteSize"@, JsonV::Num(Num::PosInt(media@.byte_size))),
        ]);
        assert(pairs_view(whole@) =~= seq![
            ("schemaVersion"@, JsonV::Num(Num::PosInt(CONFIGURE_SCHEMA_VERSION as u64))),
            ("revision"@, JsonV::Text(revision@)),
            ("media"@, JsonV::Object(collected(media_model))),
            ("display"@, display@),
        ]);
    }
    let value = object_of(whole);
    if byte_count(write_json(&value).as_str()) > MAX_IPC_LINE_BYTES - 256 {
        return Err("configure 参数超过长度上限。".to_string());
    }
    Ok(value)
}

/// The bytes whose digest is the revision: the media's digest, a zero byte,
/// and the display settings as JSON text.
pub open spec fn revision_bytes(media_sha256: Seq<char>, display: JsonV) -> Seq<u8> {
    vstd::utf8::encode_utf8(media_sha256) + seq![0u8] + vstd::utf8::encode_utf8(
        json_text(display),
    )
}

pub fn push_bytes(out: &mut Vec<u8>, more: &[u8])
    ensures
        final(out)@ == old(out)@ + more@,
{
    let ghost start = out@;
    let mut i: usize = 0;
    while i < more.len()
        invariant
            i <= more.len(),
            out@ == start + more@.take(i as int),
        decreases more.len() - i,
    {
        out.push(more[i]);
        assert(more@.take(i + 1) == more@.take(i as int).push(more@[i as int]));
        i += 1;
    }
    assert(more@.take(i as int) == more@);
}

/// The revision of a configuration.
pub fn revision_digest(media_sha256: &str, display: &Json) -> (r: String)
    ensures
        r@ == sha256_of(revision_bytes(media_sha256@, display@)),
        is_digest(r@),
{
    let mut data: Vec<u8> = Vec::new();
    push_bytes(&mut data, media_sha256.as_bytes());
    data.push(0u8);
    let text = write_json(display);
    push_bytes(&mut data, text.as_str().as_bytes());
    assert(data@ =~= revision_bytes(media_sha256@, display@));
    sha256_hex(data.as_slice())
}

/// Media that is sent to a plugin is served on this machine, over plain HTTP and
/// without an account, is named by a whole digest, and is not too large; and
/// the parameters leave room for the rest of the line.
pub proof fn sent_configure_is_sound(
    revision: Seq<char>,
    media: ConfigureMediaV,
    display: JsonV,
    parsed: Option<UrlV>,
)
    requires
        configure_params(revision, media, display, parsed) is Ok,
    ensures
        parsed matches Some(parts) && parts.scheme == "http"@ && (parts.host == Some(
            "127.0.0.1"@,
        ) || (parts.host matches Some(host) && lower(host) == lower("localhost"@)))
            && parts.username.len() == 0 && parts.password is None,
        byte_len(media.sha256) == 64 && all_hex(media.sha256),
        1 <= media.byte_size <= MAX_MEDIA_BYTES,
        display_check(display) is Ok,
        byte_len(json_text(configure_params(revision, media, display, parsed)->Ok_0))
            <= MAX_IPC_LINE_BYTES - 256,
{
}

} // verus!
