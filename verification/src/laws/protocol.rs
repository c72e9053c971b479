//! Laws of the protocol between host and plugin, and of what a plugin says of
//! itself.
use vstd::prelude::*;

use crate::address::UrlV;
use crate::json::{is_finite, json_text, number_as_double, rank, JsonV, Num};
use crate::manifest::{
    chosen_manifest, exe_name_check, id_check, installed_manifest, len_check, manifest_check,
    manifest_parsed, manifest_read, missing_name, options_check, pipe_name_check, properties_check,
    property_check, required_names, schema_check, ManifestV, MAX_MANIFEST_BYTES,
};
use crate::protocol::{
    capabilities_check, capability_check, configure_params, configure_value, display_check,
    display_field_check, display_members_check, hello_of, is_capability_name, limited, line_verdict,
    list_check, media_fields_check, media_url_check, members_check, request_line, request_text,
    response_of, response_verdict, ConfigureMediaV, ResponseV,
};
use crate::text::{byte_len, has_part, is_alphanumeric, is_hex_digit, lower, replaced, trimmed};

verus! {

// ---------------------------------------------------------------------------
// Requests and responses
// ---------------------------------------------------------------------------

/// A request goes out as one line of JSON with its identifier, its command and its
/// parameters, exactly where it has an identifier of up to 128 bytes, a command of
/// up to 64, and no more than 65536 in all.
pub proof fn request_is_one_line(id: Seq<char>, cmd: Seq<char>, params: Option<JsonV>)
    ensures
        request_line(id, cmd, params) is Ok <==> id.len() > 0 && byte_len(id) <= 128 && byte_len(
            cmd,
        ) <= 64 && byte_len(request_text(id, cmd, params)) <= 65536,
        request_line(id, cmd, params) matches Ok(line) ==> line == request_text(
            id,
            cmd,
            params,
        ).push('\n'),
        request_text(id, cmd, None) == "{\"id\":"@ + json_text(JsonV::Text(id)) + ",\"cmd\":"@
            + json_text(JsonV::Text(cmd)) + "}"@,
        params matches Some(value) ==> request_text(id, cmd, params) == "{\"id\":"@ + json_text(
            JsonV::Text(id),
        ) + ",\"cmd\":"@ + json_text(JsonV::Text(cmd)) + ",\"params\":"@ + json_text(value) + "}"@,
{
    assert("{\"id\":"@ + json_text(JsonV::Text(id)) + ",\"cmd\":"@ + json_text(JsonV::Text(cmd))
        + Seq::<char>::empty() + "}"@ =~= "{\"id\":"@ + json_text(JsonV::Text(id)) + ",\"cmd\":"@
        + json_text(JsonV::Text(cmd)) + "}"@);
    if let Some(value) = params {
        let front = "{\"id\":"@ + json_text(JsonV::Text(id)) + ",\"cmd\":"@ + json_text(
            JsonV::Text(cmd),
        );
        assert(front + (",\"params\":"@ + json_text(value)) + "}"@ =~= front + ",\"params\":"@
            + json_text(value) + "}"@);
    }
}

/// A response is read by the names of its parts.
pub proof fn response_is_read_by_name(value: JsonV)
    requires
        value is Object,
    ensures
        response_of(value) matches Some(response) ==> {
            &&& value.get_str("id"@) == Some(response.id)
            &&& value.get("ok"@) == Some(JsonV::Bool(response.ok))
            &&& response.result matches Some(result) ==> value.get("result"@) == Some(result)
            &&& response.result is None ==> value.get("result"@) is None || value.get("result"@)
                == Some(JsonV::Null)
            &&& value.get_str("error"@) == response.error
        },
        value.get_str("id"@) is Some && (value.get("ok"@) matches Some(JsonV::Bool(_))) && (
        value.get("error"@) is None || value.get_str("error"@) is Some) ==> response_of(value)
            is Some,
{
}

/// A response counts where it carries the identifier of the request; it then gives
/// its result where the command succeeded, and the plugin's error where not.
pub proof fn response_answers_its_request(response: ResponseV, id: Seq<char>)
    ensures
        response.id != id ==> response_verdict(response, Some(id)) is Err,
        response.id.len() == 0 ==> response_verdict(response, Some(id)) is Err && response_verdict(
            response,
            None,
        ) is Err,
        response.id == id && id.len() > 0 && response.ok ==> response_verdict(response, Some(id))
            == Ok::<JsonV, Seq<char>>(
            match response.result {
                Some(value) => value,
                None => JsonV::Null,
            },
        ),
        !response.ok ==> response_verdict(response, Some(id)) is Err,
        response.id == id && id.len() > 0 && !response.ok ==> (response.error matches Some(error)
            ==> 0 < error.len() ==> byte_len(error) <= 2048 ==> response_verdict(response, Some(id))
            == Err::<JsonV, Seq<char>>(error)),
        response.id.len() > 0 ==> response_verdict(response, None) == response_verdict(
            response,
            Some(response.id),
        ),
{
}

/// A line of more than 65536 bytes, or one that is no response, is refused; any
/// other is what its response says.
pub proof fn line_is_a_response(
    line: Seq<char>,
    parsed: Result<JsonV, Seq<char>>,
    id: Option<Seq<char>>,
)
    ensures
        byte_len(line) > 65536 ==> line_verdict(line, parsed, id) is Err,
        parsed is Err ==> line_verdict(line, parsed, id) is Err,
        byte_len(line) <= 65536 && (parsed matches Ok(value) && response_of(value) is None)
            ==> line_verdict(line, parsed, id) is Err,
        byte_len(line) <= 65536 ==> (parsed matches Ok(value) ==> (response_of(value) matches Some(
            response,
        ) ==> line_verdict(line, parsed, id) == response_verdict(response, id))),
{
}

// ---------------------------------------------------------------------------
// Greetings
// ---------------------------------------------------------------------------

/// A text is within its limit.
pub proof fn limit_is_kept(label: Seq<char>, value: Seq<char>, max: nat)
    ensures
        limited(label, value, max) is Ok <==> byte_len(value) <= max,
{
}

/// A name of a capability is made of letters, digits and `-`.
pub open spec fn is_plain_key(key: Seq<char>) -> bool {
    key.len() > 0 && byte_len(key) <= 64 && forall|i: int|
        0 <= i < key.len() ==> {
            let c = #[trigger] key[i];
            ('0' <= c && c <= '9') || ('a' <= c && c <= 'z') || ('A' <= c && c <= 'Z') || c == '-'
        }
}

/// The value is one that a capability may have: a flag, a number of up to
/// 1073741824, a text of up to 128 bytes, or a list of up to 64 of them.
pub open spec fn is_plain_value(value: JsonV) -> bool {
    match value {
        JsonV::Bool(_) => true,
        JsonV::Num(Num::PosInt(n)) => n <= 1073741824,
        JsonV::Text(text) => byte_len(text) <= 128,
        JsonV::Array(items) => items.len() <= 64 && forall|i: int|
            0 <= i < items.len() ==> (#[trigger] items[i] matches JsonV::Text(text) && byte_len(
                text,
            ) <= 128),
        _ => false,
    }
}

proof fn lemma_list_check(path: Seq<char>, items: Seq<JsonV>)
    ensures
        list_check(path, items) is Ok <==> forall|i: int|
            0 <= i < items.len() ==> (#[trigger] items[i] matches JsonV::Text(text) && byte_len(
                text,
            ) <= 128),
    decreases items.len(),
{
    if items.len() > 0 {
        let front = items.drop_last();
        lemma_list_check(path, front);
        assert(items[items.len() - 1] == items.last());
        if list_check(path, front) is Err {
            let i = choose|i: int|
                0 <= i < front.len() && !(#[trigger] front[i] matches JsonV::Text(text) && byte_len(
                    text,
                ) <= 128);
            assert(items[i] == front[i]);
        } else {
            assert forall|i: int| 0 <= i < front.len() implies (#[trigger] items[i] matches JsonV::Text(
                text,
            ) && byte_len(text) <= 128) by {
                assert(items[i] == front[i]);
            }
        }
    }
}

/// A capability is accepted exactly where its name and its value are plain.
pub proof fn plain_capability_is_accepted(label: Seq<char>, key: Seq<char>, value: JsonV)
    ensures
        capability_check(label, key, value) is Ok <==> is_plain_key(key) && is_plain_value(value),
{
    if let JsonV::Array(items) = value {
        lemma_list_check(label + "."@ + key, items);
    }
    if is_capability_name(key) {
        assert forall|i: int| 0 <= i < key.len() implies {
            let c = #[trigger] key[i];
            ('0' <= c && c <= '9') || ('a' <= c && c <= 'z') || ('A' <= c && c <= 'Z') || c == '-'
        } by {
            let p = |c: char| is_alphanumeric(c) || c == '-';
            assert(p(key[i]));
        }
    }
}

/// Capabilities are accepted exactly where there are from 1 to 32 of them and each
/// is.
pub proof fn plain_capabilities_are_accepted(value: JsonV, label: Seq<char>)
    ensures
        capabilities_check(value, label) is Ok <==> (value matches JsonV::Object(members) && 1
            <= members.len() <= 32 && forall|i: int|
            0 <= i < members.len() ==> is_plain_key((#[trigger] members[i]).0) && is_plain_value(
                members[i].1,
            )),
{
    if let JsonV::Object(members) = value {
        lemma_members_check(label, members);
    }
}

proof fn lemma_members_check(label: Seq<char>, members: Seq<(Seq<char>, JsonV)>)
    ensures
        members_check(label, members) is Ok <==> forall|i: int|
            0 <= i < members.len() ==> is_plain_key((#[trigger] members[i]).0) && is_plain_value(
                members[i].1,
            ),
    decreases members.len(),
{
    if members.len() > 0 {
        let front = members.drop_last();
        lemma_members_check(label, front);
        plain_capability_is_accepted(label, members.last().0, members.last().1);
        assert(members[members.len() - 1] == members.last());
        if members_check(label, front) is Err {
            let i = choose|i: int|
                0 <= i < front.len() && !(is_plain_key((#[trigger] front[i]).0) && is_plain_value(
                    front[i].1,
                ));
            assert(members[i] == front[i]);
        } else {
            assert forall|i: int| 0 <= i < front.len() implies is_plain_key(
                (#[trigger] members[i]).0,
            ) && is_plain_value(members[i].1) by {
                assert(members[i] == front[i]);
            }
        }
    }
}

/// A greeting is accepted exactly where it names the second protocol, a plugin of
/// up to 128 bytes, a version of up to 64, and capabilities; and what is read of
/// it is what it says.
pub proof fn greeting_is_read_by_name(value: JsonV)
    ensures
        hello_of(value) is Ok <==> {
            &&& value.get("pluginProtocol"@) == Some(JsonV::Num(Num::PosInt(2)))
            &&& value.get_str("pluginId"@) matches Some(id) && 0 < id.len() && byte_len(id) <= 128
            &&& value.get_str("version"@) matches Some(version) && 0 < version.len() && byte_len(
                version,
            ) <= 64
            &&& value.get("capabilities"@) matches Some(capabilities) && capabilities_check(
                capabilities,
                "hello.capabilities"@,
            ) is Ok
        },
        hello_of(value) matches Ok(hello) ==> {
            &&& hello.plugin_protocol == 2
            &&& value.get_str("pluginId"@) == Some(hello.plugin_id)
            &&& value.get_str("version"@) == Some(hello.version)
            &&& value.get("capabilities"@) == Some(hello.capabilities)
        },
{
}

// ---------------------------------------------------------------------------
// Configurations
// ---------------------------------------------------------------------------

/// An address of media is accepted exactly where it has up to 2048 bytes and leads
/// over plain HTTP, without an account, to this machine.
pub proof fn media_address_is_local(url: Seq<char>, parsed: Option<UrlV>)
    ensures
        media_url_check(url, parsed) is Ok <==> byte_len(url) <= 2048 && (parsed matches Some(parts)
            && parts.scheme == "http"@ && (parts.host matches Some(host) && (host == "127.0.0.1"@
            || lower(host) == "localhost"@)) && parts.username.len() == 0 && parts.password
            is None),
{
    reveal_strlit("localhost");
    assert(lower("localhost"@) =~= "localhost"@);
}

/// What is said of media is accepted exactly where it is an image or a video, of a
/// type of up to 128 bytes, with a digest of 64 hexadecimal digits, of 1 to
/// 1073741824 bytes.
pub proof fn media_fields_are_plain(media: ConfigureMediaV)
    ensures
        media_fields_check(media) is Ok <==> {
            &&& media.kind == "image"@ || media.kind == "video"@
            &&& 0 < media.mime_type.len() && byte_len(media.mime_type) <= 128
            &&& byte_len(media.sha256) == 64 && forall|i: int|
                0 <= i < media.sha256.len() ==> is_hex_digit(#[trigger] media.sha256[i])
            &&& 1 <= media.byte_size <= 1073741824
        },
{
    let p = |c: char| is_hex_digit(c);
    if media_fields_check(media) is Ok {
        assert forall|i: int| 0 <= i < media.sha256.len() implies is_hex_digit(
            #[trigger] media.sha256[i],
        ) by {
            assert(p(media.sha256[i]));
        }
    }
}

/// The value is one that a display setting may have: nothing, a flag, a finite
/// number, or a text of up to 128 bytes.
pub open spec fn is_flat(key: Seq<char>, value: JsonV) -> bool {
    byte_len(key) <= 64 && match value {
        JsonV::Null => true,
        JsonV::Bool(_) => true,
        JsonV::Num(n) => is_finite(number_as_double(n)),
        JsonV::Text(text) => byte_len(text) <= 128,
        _ => false,
    }
}

/// Display settings are accepted exactly where there are up to 64 of them and each
/// has a name of up to 64 bytes and a flat value.
pub proof fn flat_settings_are_accepted(display: JsonV)
    ensures
        display_check(display) is Ok <==> (display matches JsonV::Object(members) && members.len()
            <= 64 && forall|i: int|
            0 <= i < members.len() ==> is_flat((#[trigger] members[i]).0, members[i].1)),
{
    if let JsonV::Object(members) = display {
        lemma_display_members(members);
    }
}

proof fn lemma_display_members(members: Seq<(Seq<char>, JsonV)>)
    ensures
        display_members_check(members) is Ok <==> forall|i: int|
            0 <= i < members.len() ==> is_flat((#[trigger] members[i]).0, members[i].1),
    decreases members.len(),
{
    if members.len() > 0 {
        let front = members.drop_last();
        lemma_display_members(front);
        assert(members[members.len() - 1] == members.last());
        assert(display_field_check(members.last().0, members.last().1) is Ok <==> is_flat(
            members.last().0,
            members.last().1,
        ));
        if display_members_check(front) is Err {
            let i = choose|i: int|
                0 <= i < front.len() && !is_flat((#[trigger] front[i]).0, front[i].1);
            assert(members[i] == front[i]);
        } else {
            assert forall|i: int| 0 <= i < front.len() implies is_flat(
                (#[trigger] members[i]).0,
                members[i].1,
            ) by {
                assert(members[i] == front[i]);
            }
        }
    }
}

/// Parameters are sent exactly where their revision has from 1 to 128 bytes, their
/// media and their settings are accepted, and they have no more than 65280 bytes.
pub proof fn accepted_parts_are_sent(
    revision: Seq<char>,
    media: ConfigureMediaV,
    display: JsonV,
    parsed: Option<UrlV>,
)
    ensures
        configure_params(revision, media, display, parsed) is Ok <==> {
            &&& 0 < revision.len() && byte_len(revision) <= 128
            &&& media_url_check(media.url, parsed) is Ok
            &&& media_fields_check(media) is Ok
            &&& display_check(display) is Ok
            &&& byte_len(json_text(configure_value(revision, media, display))) <= 65280
        },
        configure_params(revision, media, display, parsed) matches Ok(value) ==> value
            == configure_value(revision, media, display),
{
}

// ---------------------------------------------------------------------------
// Manifests
// ---------------------------------------------------------------------------

/// A text of a manifest is accepted exactly where it is not blank, if it is needed,
/// and has no more bytes than allowed.
pub proof fn manifest_text_is_limited(
    label: Seq<char>,
    value: Seq<char>,
    max: nat,
    required: bool,
)
    ensures
        len_check(label, value, max, required) is Ok <==> (required ==> trimmed(value).len() > 0)
            && byte_len(value) <= max,
{
}

/// The identifier of a plugin has up to 64 bytes, all of them small letters, digits
/// or `-`.
pub proof fn plugin_identifier_is_plain(id: Seq<char>)
    ensures
        id_check(id) is Ok <==> trimmed(id).len() > 0 && byte_len(id) <= 64 && forall|i: int|
            0 <= i < id.len() ==> {
                let c = #[trigger] id[i];
                ('a' <= c && c <= 'z') || ('0' <= c && c <= '9') || c == '-'
            },
{
    let p = |c: char| crate::manifest::is_id_char(c);
    if id_check(id) is Ok {
        assert forall|i: int| 0 <= i < id.len() implies {
            let c = #[trigger] id[i];
            ('a' <= c && c <= 'z') || ('0' <= c && c <= '9') || c == '-'
        } by {
            assert(p(id[i]));
        }
    }
}

/// The executable of a plugin is a name of up to 180 bytes, with no directory in
/// it.
pub proof fn executable_is_a_plain_name(name: Seq<char>)
    ensures
        exe_name_check(name) is Ok <==> trimmed(name).len() > 0 && byte_len(name) <= 180
            && !name.contains('/') && !name.contains('\\') && !has_part(name, ".."@),
{
}

/// The pipe of a plugin is a name of up to 180 bytes below `\\.\pipe\`, with
/// nothing further below.
pub proof fn pipe_is_a_plain_name(name: Seq<char>, rest: Seq<char>)
    requires
        name == "\\\\.\\pipe\\"@ + rest,
        forall|i: int| 0 <= i < name.len() ==> name[i] != '/',
    ensures
        pipe_name_check(name) is Ok <==> trimmed(name).len() > 0 && byte_len(name) <= 180 && 0
            < rest.len() && !rest.contains('\\') && !has_part(rest, ".."@),
{
    assert(replaced(name, '/', '\\') =~= name);
    assert(name.subrange(0, "\\\\.\\pipe\\"@.len() as int) =~= "\\\\.\\pipe\\"@);
    assert(name.skip("\\\\.\\pipe\\"@.len() as int) =~= rest);
}

/// A pipe elsewhere is refused.
pub proof fn pipe_elsewhere_is_refused(name: Seq<char>)
    requires
        replaced(name, '/', '\\').len() < 9 || replaced(name, '/', '\\').take(9)
            != "\\\\.\\pipe\\"@,
    ensures
        pipe_name_check(name) is Err,
{
    reveal_strlit("\\\\.\\pipe\\");
    assert("\\\\.\\pipe\\"@.len() == 9);
    let plain = replaced(name, '/', '\\');
    if plain.len() >= 9 {
        assert(plain.subrange(0, 9) =~= plain.take(9));
    }
}

/// A manifest is accepted exactly where it is of the first version, speaks the first
/// or the second protocol, and each of its parts is accepted.
pub proof fn manifest_parts_are_accepted(manifest: ManifestV)
    ensures
        manifest_check(manifest) is Ok <==> {
            &&& manifest.schema_version == 1
            &&& manifest.plugin_protocol == 1 || manifest.plugin_protocol == 2
            &&& id_check(manifest.id) is Ok
            &&& trimmed(manifest.display_name).len() > 0 && byte_len(manifest.display_name) <= 120
            &&& exe_name_check(manifest.exe_name) is Ok
            &&& pipe_name_check(manifest.pipe_name) is Ok
            &&& capabilities_check(manifest.capabilities, "plugin.json capabilities"@) is Ok
            &&& schema_check(manifest.settings_schema) is Ok
        },
{
}

/// A manifest of up to 131072 bytes is read by the names of its parts, all of which
/// it must have.
pub proof fn manifest_is_read_by_name(value: JsonV)
    ensures
        MAX_MANIFEST_BYTES == 131072,
        manifest_read(value) is Ok ==> value is Object && {
            let manifest = manifest_read(value)->Ok_0;
            &&& manifest_check(manifest) is Ok
            &&& value.get_str("id"@) == Some(manifest.id)
            &&& value.get_str("displayName"@) == Some(manifest.display_name)
            &&& value.get_str("exeName"@) == Some(manifest.exe_name)
            &&& value.get_str("pipeName"@) == Some(manifest.pipe_name)
            &&& value.get("pluginProtocol"@) == Some(
                JsonV::Num(Num::PosInt(manifest.plugin_protocol as u64)),
            )
            &&& value.get("schemaVersion"@) == Some(
                JsonV::Num(Num::PosInt(manifest.schema_version as u64)),
            )
            &&& value.get("capabilities"@) == Some(manifest.capabilities)
            &&& value.get("settingsSchema"@) == Some(manifest.settings_schema)
        },
        value.get("settingsSchema"@) is None ==> manifest_read(value) is Err,
        value.get("capabilities"@) is None ==> manifest_read(value) is Err,
{
    assert(required_names()[0] == "schemaVersion"@);
    assert(required_names()[1] == "pluginProtocol"@);
    assert(required_names()[2] == "id"@);
    assert(required_names()[3] == "displayName"@);
    assert(required_names()[4] == "exeName"@);
    assert(required_names()[5] == "pipeName"@);
    assert(required_names()[6] == "capabilities"@);
    assert(required_names()[7] == "settingsSchema"@);
    lemma_missing_name(value, required_names(), 0);
    lemma_missing_name(value, required_names(), 1);
    lemma_missing_name(value, required_names(), 2);
    lemma_missing_name(value, required_names(), 3);
    lemma_missing_name(value, required_names(), 4);
    lemma_missing_name(value, required_names(), 5);
    lemma_missing_name(value, required_names(), 6);
    lemma_missing_name(value, required_names(), 7);
}

proof fn lemma_missing_name(value: JsonV, names: Seq<Seq<char>>, i: int)
    requires
        0 <= i < names.len(),
    ensures
        value.get(names[i]) is None ==> missing_name(value, names) is Some,
    decreases names.len(),
{
    if i > 0 {
        assert(names.drop_first()[i - 1] == names[i]);
        lemma_missing_name(value, names.drop_first(), i - 1);
    }
}

/// An installed plugin has the manifest that its file holds, where that has up to
/// 131072 bytes and is valid.
pub proof fn installed_manifest_is_the_file(size: u64, raw: Seq<char>)
    ensures
        size > 131072 ==> installed_manifest(Ok(size), Ok(raw)) is Err,
        size <= 131072 ==> installed_manifest(Ok(size), Ok(raw)) == manifest_parsed(raw),
        byte_len(raw) > 131072 ==> manifest_parsed(raw) is Err,
{
}

/// The manifest of a package lies at its root, or else is the only one below.
pub proof fn one_manifest_is_chosen(root: Option<Seq<char>>, below: Seq<Seq<char>>)
    ensures
        root matches Some(path) ==> chosen_manifest(root, below) == Ok::<
            Option<Seq<char>>,
            Seq<char>,
        >(Some(path)),
        root is None && below.len() == 0 ==> chosen_manifest(root, below) == Ok::<
            Option<Seq<char>>,
            Seq<char>,
        >(None),
        root is None && below.len() == 1 ==> chosen_manifest(root, below) == Ok::<
            Option<Seq<char>>,
            Seq<char>,
        >(Some(below[0])),
        root is None && below.len() > 1 ==> chosen_manifest(root, below) is Err,
{
}

/// A setting of a schema is accepted exactly where its name has up to 64 bytes, it
/// is a flag, a number or a text, its title has up to 120 bytes, its bounds are
/// numbers, its step is above zero, and it offers from 1 to 32 texts, if any.
pub proof fn setting_is_plain(key: Seq<char>, field: JsonV)
    ensures
        property_check(key, field) is Ok <==> {
            &&& trimmed(key).len() > 0 && byte_len(key) <= 64
            &&& field is Object
            &&& field.get_str("type"@) matches Some(name) && (name == "boolean"@ || name
                == "number"@ || name == "string"@)
            &&& field.get("title"@) matches Some(title) ==> (title matches JsonV::Text(text)
                && byte_len(text) <= 120)
            &&& field.get("minimum"@) matches Some(bound) ==> (bound.as_double() matches Some(bits)
                && is_finite(bits))
            &&& field.get("maximum"@) matches Some(bound) ==> (bound.as_double() matches Some(bits)
                && is_finite(bits))
            &&& field.get("step"@) matches Some(bound) ==> (bound.as_double() matches Some(bits)
                && is_finite(bits) && rank(bits) > 0)
            &&& field.get("enum"@) matches Some(options) ==> (options matches JsonV::Array(items)
                && 1 <= items.len() <= 32 && forall|i: int|
                0 <= i < items.len() ==> (#[trigger] items[i] matches JsonV::Text(text) && trimmed(
                    text,
                ).len() > 0 && byte_len(text) <= 128))
        },
{
    reveal_strlit("step");
    reveal_strlit("minimum");
    reveal_strlit("maximum");
    assert("step"@.len() == 4 && "minimum"@.len() == 7 && "maximum"@.len() == 7);
    if let Some(JsonV::Array(items)) = field.get("enum"@) {
        lemma_options(key, items);
    }
}

proof fn lemma_options(key: Seq<char>, items: Seq<JsonV>)
    ensures
        options_check(key, items) is Ok <==> forall|i: int|
            0 <= i < items.len() ==> (#[trigger] items[i] matches JsonV::Text(text) && trimmed(
                text,
            ).len() > 0 && byte_len(text) <= 128),
    decreases items.len(),
{
    if items.len() > 0 {
        let front = items.drop_last();
        lemma_options(key, front);
        assert(items[items.len() - 1] == items.last());
        if options_check(key, front) is Err {
            let i = choose|i: int|
                0 <= i < front.len() && !(#[trigger] front[i] matches JsonV::Text(text) && trimmed(
                    text,
                ).len() > 0 && byte_len(text) <= 128);
            assert(items[i] == front[i]);
        } else {
            assert forall|i: int| 0 <= i < front.len() implies (#[trigger] items[i] matches JsonV::Text(
                text,
            ) && trimmed(text).len() > 0 && byte_len(text) <= 128) by {
                assert(items[i] == front[i]);
            }
        }
    }
}

/// A schema is accepted exactly where it describes an object of up to 64 settings,
/// each of which is.
pub proof fn schema_has_plain_settings(value: JsonV)
    ensures
        schema_check(value) is Ok <==> value is Object && value.get_str("type"@) == Some("object"@)
            && (value.get("properties"@) matches Some(JsonV::Object(members)) && members.len() <= 64
            && forall|i: int|
            0 <= i < members.len() ==> property_check((#[trigger] members[i]).0, members[i].1)
                is Ok),
{
    if let Some(JsonV::Object(members)) = value.get("properties"@) {
        lemma_properties(members);
    }
}

proof fn lemma_properties(members: Seq<(Seq<char>, JsonV)>)
    ensures
        properties_check(members) is Ok <==> forall|i: int|
            0 <= i < members.len() ==> property_check((#[trigger] members[i]).0, members[i].1)
                is Ok,
    decreases members.len(),
{
    if members.len() > 0 {
        let front = members.drop_last();
        lemma_properties(front);
        assert(members[members.len() - 1] == members.last());
        if properties_check(front) is Err {
            let i = choose|i: int|
                0 <= i < front.len() && !(property_check((#[trigger] front[i]).0, front[i].1)
                    is Ok);
            assert(members[i] == front[i]);
        } else {
            assert forall|i: int| 0 <= i < front.len() implies property_check(
                (#[trigger] members[i]).0,
                members[i].1,
            ) is Ok by {
                assert(members[i] == front[i]);
            }
        }
    }
}

} // verus!
