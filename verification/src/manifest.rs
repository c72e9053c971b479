//! The manifest `plugin.json` that every plugin carries.
use vstd::prelude::*;

use crate::json::{
    is_finite, json_parsed, lemma_values_view, parse_json, rank, read_string, read_u32, string_of,
    u32_of, values_view, Double, Json, JsonV, Members,
};
use crate::protocol::{capabilities_check, validate_capabilities, HOST_PROTOCOL};
use crate::text::{
    byte_count, byte_len, chars_of, contains_char, contains_text, decimal, decimal_text, digit,
    each, has_part, has_prefix, is_ascii_lower, is_digit, list_view, opt_view, outcome,
    replace_char, replaced, same, starts_with, text_of, trim, trimmed,
};

verus! {

pub const MAX_ID: usize = 64;

pub const MAX_NAME: usize = 120;

pub const MAX_EXE: usize = 180;

pub const MAX_PIPE: usize = 180;

pub const MAX_MANIFEST_BYTES: usize = 131072;

pub const MAX_SETTINGS_FIELDS: usize = 64;

/// What a plugin's `plugin.json` says.
pub struct PluginManifest {
    pub schema_version: u32,
    pub plugin_protocol: u32,
    pub id: String,
    pub display_name: String,
    pub exe_name: String,
    pub pipe_name: String,
    pub capabilities: Json,
    pub settings_schema: Json,
}

/// The model of a manifest.
pub struct ManifestV {
    pub schema_version: u32,
    pub plugin_protocol: u32,
    pub id: Seq<char>,
    pub display_name: Seq<char>,
    pub exe_name: Seq<char>,
    pub pipe_name: Seq<char>,
    pub capabilities: JsonV,
    pub settings_schema: JsonV,
}

impl View for PluginManifest {
    type V = ManifestV;

    open spec fn view(&self) -> ManifestV {
        ManifestV {
            schema_version: self.schema_version,
            plugin_protocol: self.plugin_protocol,
            id: self.id@,
            display_name: self.display_name@,
            exe_name: self.exe_name@,
            pipe_name: self.pipe_name@,
            capabilities: self.capabilities@,
            settings_schema: self.settings_schema@,
        }
    }
}

impl PluginManifest {
    pub fn copy(&self) -> (r: PluginManifest)
        ensures
            r@ == self@,
    {
        PluginManifest {
            schema_version: self.schema_version,
            plugin_protocol: self.plugin_protocol,
            id: self.id.clone(),
            display_name: self.display_name.clone(),
            exe_name: self.exe_name.clone(),
            pipe_name: self.pipe_name.clone(),
            capabilities: self.capabilities.copy(),
            settings_schema: self.settings_schema.copy(),
        }
    }
}

/// The model of a manifest that was read.
pub open spec fn manifest_outcome(r: Result<PluginManifest, String>) -> Result<
    ManifestV,
    Seq<char>,
> {
    match r {
        Ok(manifest) => Ok(manifest@),
        Err(message) => Err(message@),
    }
}

// ---------------------------------------------------------------------------
// Single fields
// ---------------------------------------------------------------------------

/// A text of the manifest: not blank where it is required, and not too long.
pub open spec fn len_check(label: Seq<char>, value: Seq<char>, max: nat, required: bool) -> Result<
    (),
    Seq<char>,
> {
    if required && trimmed(value).len() == 0 {
        Err("plugin.json "@ + label + " 不能为空。"@)
    } else if byte_len(value) > max {
        Err("plugin.json "@ + label + " 超过 "@ + decimal(max) + " 字节。"@)
    } else {
        Ok(())
    }
}

fn validate_len(label: &str, value: &str, max: usize, required: bool) -> (r: Result<(), String>)
    ensures
        outcome(r) == len_check(label@, value@, max as nat, required),
{
    if required && trim(value).as_str().is_empty() {
        return Err("plugin.json ".to_string().concat(label).concat(" 不能为空。"));
    }
    if byte_count(value) > max {
        return Err(
            "plugin.json ".to_string().concat(label).concat(" 超过 ").concat(
                decimal_text(max as u64).as_str(),
            ).concat(" 字节。"),
        );
    }
    Ok(())
}

/// The letters of an identifier.
pub open spec fn is_id_char(c: char) -> bool {
    is_ascii_lower(c) || is_digit(c) || c == '-'
}

pub open spec fn id_check(id: Seq<char>) -> Result<(), Seq<char>> {
    if let Err(message) = len_check("id"@, id, MAX_ID as nat, true) {
        Err(message)
    } else if !each(id, |c: char| is_id_char(c)) {
        Err("plugin.json id 只能包含小写字母、数字和连字符。"@)
    } else {
        Ok(())
    }
}

fn validate_id(id: &str) -> (r: Result<(), String>)
    ensures
        outcome(r) == id_check(id@),
{
    validate_len("id", id, MAX_ID, true)?;
    for c in it: id.chars()
        invariant
            it.seq() == id@,
            len_check("id"@, id@, MAX_ID as nat, true) is Ok,
            forall|k: int| 0 <= k < it.index() ==> is_id_char(#[trigger] id@[k]),
    {
        if !(('a' <= c && c <= 'z') || digit(c) || c == '-') {
            assert(!is_id_char(id@[it.index() as int]));
            return Err(
                "plugin.json id 只能包含小写字母、数字和连字符。".to_string(),
            );
        }
    }
    Ok(())
}

pub open spec fn exe_name_check(name: Seq<char>) -> Result<(), Seq<char>> {
    if let Err(message) = len_check("exeName"@, name, MAX_EXE as nat, true) {
        Err(message)
    } else if name.contains('/') || name.contains('\\') || has_part(name, ".."@) {
        Err("plugin.json exeName 不能包含路径。"@)
    } else {
        Ok(())
    }
}

fn validate_exe_name(name: &str) -> (r: Result<(), String>)
    ensures
        outcome(r) == exe_name_check(name@),
{
    validate_len("exeName", name, MAX_EXE, true)?;
    if contains_char(name, '/') || contains_char(name, '\\') || contains_text(name, "..") {
        return Err("plugin.json exeName 不能包含路径。".to_string());
    }
    Ok(())
}

/// The name of a pipe with its slashes turned, without the front that every
/// pipe has.
pub open spec fn pipe_suffix(name: Seq<char>) -> Seq<char> {
    replaced(name, '/', '\\').skip("\\\\.\\pipe\\"@.len() as int)
}

pub open spec fn pipe_name_check(name: Seq<char>) -> Result<(), Seq<char>> {
    if let Err(message) = len_check("pipeName"@, name, MAX_PIPE as nat, true) {
        Err(message)
    } else if !has_prefix(replaced(name, '/', '\\'), "\\\\.\\pipe\\"@) {
        Err("plugin.json pipeName 必须以 \\\\.\\pipe\\ 开头。"@)
    } else if pipe_suffix(name).len() == 0 || pipe_suffix(name).contains('\\') || has_part(
        pipe_suffix(name),
        ".."@,
    ) {
        Err("plugin.json pipeName 非法。"@)
    } else {
        Ok(())
    }
}

fn validate_pipe_name(name: &str) -> (r: Result<(), String>)
    ensures
        outcome(r) == pipe_name_check(name@),
{
    validate_len("pipeName", name, MAX_PIPE, true)?;
    let normalized = replace_char(name, '/', '\\');
    let front = "\\\\.\\pipe\\";
    if !starts_with(normalized.as_str(), front) {
        return Err("plugin.json pipeName 必须以 \\\\.\\pipe\\ 开头。".to_string());
    }
    let chars = chars_of(normalized.as_str());
    let suffix = text_of(&chars, chars_of(front).len(), chars.len());
    assert(suffix@ == pipe_suffix(name@));
    if suffix.as_str().is_empty() || contains_char(suffix.as_str(), '\\') || contains_text(
        suffix.as_str(),
        "..",
    ) {
        return Err("plugin.json pipeName 非法。".to_string());
    }
    Ok(())
}

// ---------------------------------------------------------------------------
// Settings schema
// ---------------------------------------------------------------------------

/// `settingsSchema.properties.` and the name of a property, with what follows.
pub open spec fn property_path(key: Seq<char>, rest: Seq<char>) -> Seq<char> {
    "settingsSchema.properties."@ + key + rest
}

fn property_text(key: &str, rest: &str) -> (r: String)
    ensures
        r@ == property_path(key@, rest@),
{
    "settingsSchema.properties.".to_string().concat(key).concat(rest)
}

/// A bound or the step of a property, where it is given, is a number; the step
/// is above zero.
pub open spec fn bound_check(key: Seq<char>, field: JsonV, name: Seq<char>) -> Result<
    (),
    Seq<char>,
> {
    match field.get(name) {
        None => Ok(()),
        Some(value) => match value.as_double() {
            None => Err(property_path(key, "."@ + name + " 必须是数字。"@)),
            Some(bits) => if !is_finite(bits) || (name == "step"@ && rank(bits) <= 0) {
                Err(property_path(key, "."@ + name + " 无效。"@))
            } else {
                Ok(())
            },
        },
    }
}

fn check_bound(key: &str, field: &Json, name: &str) -> (r: Result<(), String>)
    ensures
        outcome(r) == bound_check(key@, field@, name@),
{
    match field.get(name) {
        None => Ok(()),
        Some(value) => match value.as_double() {
            None => Err(
                property_text(
                    key,
                    ".".to_string().concat(name).concat(" 必须是数字。").as_str(),
                ),
            ),
            Some(number) => {
                if same(name, "step") && !above_zero(&number) {
                    return Err(
                        property_text(
                            key,
                            ".".to_string().concat(name).concat(" 无效。").as_str(),
                        ),
                    );
                }
                Ok(())
            },
        },
    }
}

fn above_zero(number: &Double) -> (r: bool)
    ensures
        r == (rank(number@) > 0),
{
    let bits = number.bits();
    0 < bits && bits < 0x8000_0000_0000_0000
}

/// The first complaint about the options of a property.
pub open spec fn options_check(key: Seq<char>, options: Seq<JsonV>) -> Result<(), Seq<char>>
    decreases options.len(),
{
    if options.len() == 0 {
        Ok(())
    } else if let Err(message) = options_check(key, options.drop_last()) {
        Err(message)
    } else {
        match options.last().as_str() {
            None => Err(property_path(key, ".enum 必须是字符串数组。"@)),
            Some(text) => len_check("settingsSchema enum"@, text, 128, true),
        }
    }
}

proof fn lemma_options_check_stops(key: Seq<char>, options: Seq<JsonV>, n: int)
    requires
        0 <= n <= options.len(),
    ensures
        options_check(key, options.take(n)) is Err ==> options_check(key, options)
            == options_check(key, options.take(n)),
    decreases options.len() - n,
{
    if n < options.len() {
        lemma_options_check_stops(key, options, n + 1);
        assert(options.take(n + 1).drop_last() == options.take(n));
    } else {
        assert(options.take(n) == options);
    }
}

fn check_options(key: &str, options: &Vec<Json>) -> (r: Result<(), String>)
    ensures
        outcome(r) == options_check(key@, values_view(options@)),
{
    let ghost model = values_view(options@);
    proof {
        lemma_values_view(options@);
        assert(model.take(model.len() as int) == model);
    }
    let mut i: usize = 0;
    while i < options.len()
        invariant
            i <= options.len(),
            model == values_view(options@),
            model.len() == options.len(),
            forall|k: int| 0 <= k < options.len() ==> #[trigger] model[k] == options@[k]@,
            model.take(model.len() as int) == model,
            options_check(key@, model.take(i as int)) is Ok,
        decreases options.len() - i,
    {
        proof {
            assert(model.take(i + 1).drop_last() == model.take(i as int));
            assert(model.take(i + 1).last() == options@[i as int]@);
            lemma_options_check_stops(key@, model, i + 1);
        }
        match options[i].as_str() {
            None => {
                return Err(property_text(key, ".enum 必须是字符串数组。"));
            },
            Some(text) => {
                validate_len("settingsSchema enum", text.as_str(), 128, true)?;
            },
        }
        i += 1;
    }
    Ok(())
}

/// The check of a property's title.
pub open spec fn title_check(key: Seq<char>, field: JsonV) -> Result<(), Seq<char>> {
    match field.get("title"@) {
        None => Ok(()),
        Some(title) => match title.as_str() {
            None => Err(property_path(key, ".title 必须是字符串。"@)),
            Some(text) => len_check("settingsSchema title"@, text, 120, false),
        },
    }
}

fn check_title(key: &str, field: &Json) -> (r: Result<(), String>)
    ensures
        outcome(r) == title_check(key@, field@),
{
    match field.get("title") {
        None => Ok(()),
        Some(title) => match title.as_str() {
            None => Err(property_text(key, ".title 必须是字符串。")),
            Some(text) => validate_len("settingsSchema title", text.as_str(), 120, false),
        },
    }
}

/// The check of a property's `enum`.
pub open spec fn enum_check(key: Seq<char>, field: JsonV) -> Result<(), Seq<char>> {
    match field.get("enum"@) {
        None => Ok(()),
        Some(options) => match options.as_array() {
            None => Err(property_path(key, ".enum 必须是数组。"@)),
            Some(items) => if items.len() == 0 || items.len() > 32 {
                Err(property_path(key, ".enum 项数无效。"@))
            } else {
                options_check(key, items)
            },
        },
    }
}

fn check_enum(key: &str, field: &Json) -> (r: Result<(), String>)
    ensures
        outcome(r) == enum_check(key@, field@),
{
    match field.get("enum") {
        None => Ok(()),
        Some(options) => match options.as_array() {
            None => Err(property_text(key, ".enum 必须是数组。")),
            Some(items) => {
                proof {
                    lemma_values_view(items@);
                }
                if items.len() == 0 || items.len() > 32 {
                    return Err(property_text(key, ".enum 项数无效。"));
                }
                check_options(key, items)
            },
        },
    }
}

/// The check of one property of the settings.
pub open spec fn property_check(key: Seq<char>, field: JsonV) -> Result<(), Seq<char>> {
    if let Err(message) = len_check("settingsSchema.properties key"@, key, 64, true) {
        Err(message)
    } else if !(field is Object) {
        Err(property_path(key, " 必须是对象。"@))
    } else {
        match field.get_str("type"@) {
            None => Err(property_path(key, ".type 缺失。"@)),
            Some(name) => if name != "boolean"@ && name != "number"@ && name != "string"@ {
                Err(property_path(key, ".type 不受支持。"@))
            } else if let Err(message) = title_check(key, field) {
                Err(message)
            } else if let Err(message) = bound_check(key, field, "minimum"@) {
                Err(message)
            } else if let Err(message) = bound_check(key, field, "maximum"@) {
                Err(message)
            } else if let Err(message) = bound_check(key, field, "step"@) {
                Err(message)
            } else {
                enum_check(key, field)
            },
        }
    }
}

fn check_property(key: &str, field: &Json) -> (r: Result<(), String>)
    ensures
        outcome(r) == property_check(key@, field@),
{
    validate_len("settingsSchema.properties key", key, 64, true)?;
    if field.as_object().is_none() {
        return Err(property_text(key, " 必须是对象。"));
    }
    match field.get_str("type") {
        None => {
            return Err(property_text(key, ".type 缺失。"));
        },
        Some(name) => {
            if !same(name.as_str(), "boolean") && !same(name.as_str(), "number") && !same(
                name.as_str(),
                "string",
            ) {
                return Err(property_text(key, ".type 不受支持。"));
            }
        },
    }
    check_title(key, field)?;
    check_bound(key, field, "minimum")?;
    check_bound(key, field, "maximum")?;
    check_bound(key, field, "step")?;
    check_enum(key, field)
}

/// The first complaint about the properties, in the order of their names.
pub open spec fn properties_check(members: Seq<(Seq<char>, JsonV)>) -> Result<(), Seq<char>>
    decreases members.len(),
{
    if members.len() == 0 {
        Ok(())
    } else if let Err(message) = properties_check(members.drop_last()) {
        Err(message)
    } else {
        property_check(members.last().0, members.last().1)
    }
}

proof fn lemma_properties_check_stops(members: Seq<(Seq<char>, JsonV)>, n: int)
    requires
        0 <= n <= members.len(),
    ensures
        properties_check(members.take(n)) is Err ==> properties_check(members)
            == properties_check(members.take(n)),
    decreases members.len() - n,
{
    if n < members.len() {
        lemma_properties_check_stops(members, n + 1);
        assert(members.take(n + 1).drop_last() == members.take(n));
    } else {
        assert(members.take(n) == members);
    }
}

/// A settings schema is an object schema of up to 64 properties.
pub open spec fn schema_check(value: JsonV) -> Result<(), Seq<char>> {
    if !(value is Object) {
        Err("plugin.json settingsSchema 必须是对象。"@)
    } else if value.get_str("type"@) != Some("object"@) {
        Err("plugin.json settingsSchema.type 必须是 object。"@)
    } else {
        match value.get("properties"@) {
            Some(JsonV::Object(members)) => if members.len() > MAX_SETTINGS_FIELDS {
                Err(
                    "plugin.json settingsSchema.properties 超过 "@ + decimal(
                        MAX_SETTINGS_FIELDS as nat,
                    ) + " 项。"@,
                )
            } else {
                properties_check(members)
            },
            _ => Err("plugin.json settingsSchema.properties 必须是对象。"@),
        }
    }
}

fn check_properties(members: &Members) -> (r: Result<(), String>)
    ensures
        outcome(r) == properties_check(members@),
{
    let ghost model = members@;
    let mut i: usize = 0;
    while i < members.len()
        invariant
            i <= model.len(),
            model == members@,
            properties_check(model.take(i as int)) is Ok,
        decreases model.len() - i,
    {
        proof {
            assert(model.take(i + 1).drop_last() == model.take(i as int));
            assert(model.take(i + 1).last() == model[i as int]);
            lemma_properties_check_stops(model, i + 1);
        }
        check_property(members.key(i).as_str(), members.value(i))?;
        i += 1;
    }
    assert(model.take(model.len() as int) == model);
    Ok(())
}

/// Checks a settings schema.
pub fn validate_settings_schema(value: &Json) -> (r: Result<(), String>)
    ensures
        outcome(r) == schema_check(value@),
{
    if value.as_object().is_none() {
        return Err("plugin.json settingsSchema 必须是对象。".to_string());
    }
    let is_object = match value.get_str("type") {
        Some(name) => same(name.as_str(), "object"),
        None => false,
    };
    if !is_object {
        return Err("plugin.json settingsSchema.type 必须是 object。".to_string());
    }
    match value.get("properties") {
        Some(Json::Object(members)) => {
            if members.len() > MAX_SETTINGS_FIELDS {
                return Err(
                    "plugin.json settingsSchema.properties 超过 ".to_string().concat(
                        decimal_text(MAX_SETTINGS_FIELDS as u64).as_str(),
                    ).concat(" 项。"),
                );
            }
            check_properties(members)
        },
        _ => Err("plugin.json settingsSchema.properties 必须是对象。".to_string()),
    }
}

// ---------------------------------------------------------------------------
// The whole manifest
// ---------------------------------------------------------------------------

/// The first complaint about a manifest.
pub open spec fn manifest_check(manifest: ManifestV) -> Result<(), Seq<char>> {
    if manifest.schema_version != 1 {
        Err(
            "plugin.json schemaVersion="@ + decimal(manifest.schema_version as nat)
                + " 不受支持。"@,
        )
    } else if manifest.plugin_protocol != 1 && manifest.plugin_protocol != HOST_PROTOCOL {
        Err(
            "plugin.json pluginProtocol="@ + decimal(manifest.plugin_protocol as nat)
                + " 不受支持。"@,
        )
    } else if let Err(message) = id_check(manifest.id) {
        Err(message)
    } else if let Err(message) = len_check(
        "displayName"@,
        manifest.display_name,
        MAX_NAME as nat,
        true,
    ) {
        Err(message)
    } else if let Err(message) = exe_name_check(manifest.exe_name) {
        Err(message)
    } else if let Err(message) = pipe_name_check(manifest.pipe_name) {
        Err(message)
    } else if let Err(message) = capabilities_check(
        manifest.capabilities,
        "plugin.json capabilities"@,
    ) {
        Err(message)
    } else {
        schema_check(manifest.settings_schema)
    }
}

/// Checks a manifest.
pub fn validate_manifest(manifest: &PluginManifest) -> (r: Result<(), String>)
    ensures
        outcome(r) == manifest_check(manifest@),
{
    if manifest.schema_version != 1 {
        return Err(
            "plugin.json schemaVersion=".to_string().concat(
                decimal_text(manifest.schema_version as u64).as_str(),
            ).concat(" 不受支持。"),
        );
    }
    if manifest.plugin_protocol != 1 && manifest.plugin_protocol != HOST_PROTOCOL {
        return Err(
            "plugin.json pluginProtocol=".to_string().concat(
                decimal_text(manifest.plugin_protocol as u64).as_str(),
            ).concat(" 不受支持。"),
        );
    }
    validate_id(manifest.id.as_str())?;
    validate_len("displayName", manifest.display_name.as_str(), MAX_NAME, true)?;
    validate_exe_name(manifest.exe_name.as_str())?;
    validate_pipe_name(manifest.pipe_name.as_str())?;
    validate_capabilities(&manifest.capabilities, "plugin.json capabilities")?;
    validate_settings_schema(&manifest.settings_schema)
}

/// The members that a manifest must have, in the order in which they are
/// looked for.
pub open spec fn required_names() -> Seq<Seq<char>> {
    seq![
        "schemaVersion"@,
        "pluginProtocol"@,
        "id"@,
        "displayName"@,
        "exeName"@,
        "pipeName"@,
        "capabilities"@,
        "settingsSchema"@,
    ]
}

/// The first of `names` that `value` does not have.
pub open spec fn missing_name(value: JsonV, names: Seq<Seq<char>>) -> Option<Seq<char>>
    decreases names.len(),
{
    if names.len() == 0 {
        None
    } else if value.get(names[0]) is None {
        Some(names[0])
    } else {
        missing_name(value, names.drop_first())
    }
}

/// The string under `key` of an object that has it.
pub open spec fn text_at(value: JsonV, key: Seq<char>) -> Result<Seq<char>, Seq<char>> {
    string_of(value.get(key)->0)
}

/// The number under `key` of an object that has it.
pub open spec fn u32_at(value: JsonV, key: Seq<char>) -> Result<u32, Seq<char>> {
    u32_of(value.get(key)->0)
}

/// A manifest from an object that has all required members; the members are
/// read in the order of their names.
pub open spec fn manifest_of(value: JsonV) -> Result<ManifestV, Seq<char>> {
    match text_at(value, "displayName"@) {
        Err(message) => Err(message),
        Ok(display_name) => match text_at(value, "exeName"@) {
            Err(message) => Err(message),
            Ok(exe_name) => match text_at(value, "id"@) {
                Err(message) => Err(message),
                Ok(id) => match text_at(value, "pipeName"@) {
                    Err(message) => Err(message),
                    Ok(pipe_name) => match u32_at(value, "pluginProtocol"@) {
                        Err(message) => Err(message),
                        Ok(plugin_protocol) => match u32_at(value, "schemaVersion"@) {
                            Err(message) => Err(message),
                            Ok(schema_version) => Ok(
                                ManifestV {
                                    schema_version,
                                    plugin_protocol,
                                    id,
                                    display_name,
                                    exe_name,
                                    pipe_name,
                                    capabilities: value.get("capabilities"@)->0,
                                    settings_schema: value.get("settingsSchema"@)->0,
                                },
                            ),
                        },
                    },
                },
            },
        },
    }
}

fn take_text(value: &Json, key: &str) -> (r: Result<String, String>)
    requires
        value@.get(key@) is Some,
    ensures
        match r {
            Ok(text) => text_at(value@, key@) == Ok::<Seq<char>, Seq<char>>(text@),
            Err(message) => text_at(value@, key@) == Err::<Seq<char>, Seq<char>>(message@),
        },
{
    match value.get(key) {
        Some(field) => read_string(field),
        None => Err(String::new()),
    }
}

fn take_u32(value: &Json, key: &str) -> (r: Result<u32, String>)
    requires
        value@.get(key@) is Some,
    ensures
        match r {
            Ok(n) => u32_at(value@, key@) == Ok::<u32, Seq<char>>(n),
            Err(message) => u32_at(value@, key@) == Err::<u32, Seq<char>>(message@),
        },
{
    match value.get(key) {
        Some(field) => read_u32(field),
        None => Err(String::new()),
    }
}

fn take_value(value: &Json, key: &str) -> (r: Json)
    requires
        value@.get(key@) is Some,
    ensures
        r@ == value@.get(key@)->0,
{
    match value.get(key) {
        Some(field) => field.copy(),
        None => Json::Null,
    }
}

fn read_manifest(value: &Json) -> (r: Result<PluginManifest, String>)
    requires
        missing_name(value@, required_names()) is None,
    ensures
        manifest_outcome(r) == manifest_of(value@),
{
    proof {
        lemma_all_present(value@, required_names());
        let names = required_names();
        assert(value@.get(names[0]) is Some && value@.get(names[1]) is Some && value@.get(
            names[2],
        ) is Some && value@.get(names[3]) is Some && value@.get(names[4]) is Some && value@.get(
            names[5],
        ) is Some && value@.get(names[6]) is Some && value@.get(names[7]) is Some);
    }
    let display_name = take_text(value, "displayName")?;
    let exe_name = take_text(value, "exeName")?;
    let id = take_text(value, "id")?;
    let pipe_name = take_text(value, "pipeName")?;
    let plugin_protocol = take_u32(value, "pluginProtocol")?;
    let schema_version = take_u32(value, "schemaVersion")?;
    Ok(
        PluginManifest {
            schema_version,
            plugin_protocol,
            id,
            display_name,
            exe_name,
            pipe_name,
            capabilities: take_value(value, "capabilities"),
            settings_schema: take_value(value, "settingsSchema"),
        },
    )
}

proof fn lemma_all_present(value: JsonV, names: Seq<Seq<char>>)
    requires
        missing_name(value, names) is None,
    ensures
        forall|i: int| 0 <= i < names.len() ==> value.get(#[trigger] names[i]) is Some,
    decreases names.len(),
{
    if names.len() > 0 {
        lemma_all_present(value, names.drop_first());
        assert forall|i: int| 0 <= i < names.len() implies value.get(
            #[trigger] names[i],
        ) is Some by {
            if i > 0 {
                assert(names[i] == names.drop_first()[i - 1]);
            }
        }
    }
}

/// The manifest that a text of `plugin.json` holds, or the first complaint
/// about it.
pub open spec fn manifest_parsed(raw: Seq<char>) -> Result<ManifestV, Seq<char>> {
    if byte_len(raw) > MAX_MANIFEST_BYTES {
        Err("plugin.json 超过 "@ + decimal(MAX_MANIFEST_BYTES as nat) + " 字节上限。"@)
    } else {
        match json_parsed(raw) {
            Err(message) => Err("plugin.json 不是合法 JSON："@ + message),
            Ok(value) => manifest_read(value),
        }
    }
}

/// The manifest that a JSON value is, or the first complaint about it.
pub open spec fn manifest_read(value: JsonV) -> Result<ManifestV, Seq<char>> {
    if !(value is Object) {
        Err("plugin.json 必须是对象。"@)
    } else if let Some(name) = missing_name(value, required_names()) {
        Err("plugin.json 缺少 "@ + name + "。"@)
    } else {
        match manifest_of(value) {
            Err(message) => Err("plugin.json 字段类型无效："@ + message),
            Ok(manifest) => match manifest_check(manifest) {
                Err(message) => Err(message),
                Ok(_) => Ok(manifest),
            },
        }
    }
}

fn find_missing(value: &Json, names: &Vec<&str>) -> (r: Option<usize>)
    ensures
        match r {
            Some(i) => i < names.len() && missing_name(
                value@,
                names@.map_values(|s: &str| s@),
            ) == Some(names@[i as int]@),
            None => missing_name(value@, names@.map_values(|s: &str| s@)) is None,
        },
{
    let ghost model = names@.map_values(|s: &str| s@);
    assert(model.skip(0) == model);
    let mut i: usize = 0;
    while i < names.len()
        invariant
            i <= names.len(),
            model == names@.map_values(|s: &str| s@),
            missing_name(value@, model) == missing_name(value@, model.skip(i as int)),
        decreases names.len() - i,
    {
        assert(model.skip(i as int)[0] == names@[i as int]@);
        assert(model.skip(i as int).drop_first() == model.skip(i + 1));
        if value.get(names[i]).is_none() {
            return Some(i);
        }
        i += 1;
    }
    None
}

/// Reads a manifest from a JSON value.
pub fn manifest_from_value(value: &Json) -> (r: Result<PluginManifest, String>)
    ensures
        manifest_outcome(r) == manifest_read(value@),
{
    if value.as_object().is_none() {
        return Err("plugin.json 必须是对象。".to_string());
    }
    let names: Vec<&str> = vec![
        "schemaVersion",
        "pluginProtocol",
        "id",
        "displayName",
        "exeName",
        "pipeName",
        "capabilities",
        "settingsSchema",
    ];
    assert(names@.map_values(|s: &str| s@) =~= required_names());
    if let Some(i) = find_missing(value, &names) {
        return Err("plugin.json 缺少 ".to_string().concat(names[i]).concat("。"));
    }
    match read_manifest(value) {
        Err(message) => Err("plugin.json 字段类型无效：".to_string().concat(message.as_str())),
        Ok(manifest) => {
            validate_manifest(&manifest)?;
            Ok(manifest)
        },
    }
}

/// Reads the text of a `plugin.json`.
pub fn parse_manifest(raw: &str) -> (r: Result<PluginManifest, String>)
    ensures
        manifest_outcome(r) == manifest_parsed(raw@),
{
    if byte_count(raw) > MAX_MANIFEST_BYTES {
        return Err(
            "plugin.json 超过 ".to_string().concat(
                decimal_text(MAX_MANIFEST_BYTES as u64).as_str(),
            ).concat(" 字节上限。"),
        );
    }
    match parse_json(raw) {
        Err(message) => Err("plugin.json 不是合法 JSON：".to_string().concat(message.as_str())),
        Ok(value) => manifest_from_value(&value),
    }
}

/// A manifest that was accepted passes every check again.
pub proof fn accepted_manifest_is_valid(raw: Seq<char>)
    requires
        manifest_parsed(raw) is Ok,
    ensures
        manifest_check(manifest_parsed(raw)->Ok_0) is Ok,
{
}

/// The executable of an accepted manifest lies in the plugin's own directory:
/// its name holds neither a separator nor a step upwards.
pub proof fn accepted_executable_stays_inside(raw: Seq<char>)
    requires
        manifest_parsed(raw) is Ok,
    ensures
        !manifest_parsed(raw)->Ok_0.exe_name.contains('/'),
        !manifest_parsed(raw)->Ok_0.exe_name.contains('\\'),
        !has_part(manifest_parsed(raw)->Ok_0.exe_name, ".."@),
{
}

// ---------------------------------------------------------------------------
// Where a manifest lies
// ---------------------------------------------------------------------------

/// The manifest of an installed plugin: the one in its directory, or the only
/// one in a directory below.
pub open spec fn chosen_manifest(root: Option<Seq<char>>, below: Seq<Seq<char>>) -> Result<
    Option<Seq<char>>,
    Seq<char>,
> {
    match root {
        Some(path) => Ok(Some(path)),
        None => if below.len() == 0 {
            Ok(None)
        } else if below.len() == 1 {
            Ok(Some(below[0]))
        } else {
            Err("插件包包含多个 plugin.json。"@)
        },
    }
}

/// Chooses the manifest of an installed plugin. `root` is the one in its
/// directory, `below` are those in the directories below.
pub fn find_manifest_file(root: Option<String>, below: Vec<String>) -> (r: Result<
    Option<String>,
    String,
>)
    ensures
        (match r {
            Ok(path) => Ok(opt_view(path)),
            Err(message) => Err(message@),
        }) == chosen_manifest(opt_view(root), list_view(below@)),
{
    match root {
        Some(path) => Ok(Some(path)),
        None => if below.len() == 0 {
            Ok(None)
        } else if below.len() == 1 {
            Ok(Some(below[0].clone()))
        } else {
            Err("插件包包含多个 plugin.json。".to_string())
        },
    }
}

/// What could be read of a `plugin.json`: its size and its text, or why they
/// could not be read.
pub struct ManifestFile {
    pub size: Result<u64, String>,
    pub text: Result<String, String>,
}

/// The manifest that an installed plugin has.
pub open spec fn installed_manifest(
    size: Result<u64, Seq<char>>,
    text: Result<Seq<char>, Seq<char>>,
) -> Result<ManifestV, Seq<char>> {
    match size {
        Err(message) => Err("读取 plugin.json 失败："@ + message),
        Ok(n) => if n > MAX_MANIFEST_BYTES {
            Err("plugin.json 超过 "@ + decimal(MAX_MANIFEST_BYTES as nat) + " 字节上限。"@)
        } else {
            match text {
                Err(message) => Err("读取 plugin.json 失败："@ + message),
                Ok(raw) => manifest_parsed(raw),
            }
        },
    }
}

/// The size of a file, or why it could not be read.
pub open spec fn size_of_file(file: ManifestFile) -> Result<u64, Seq<char>> {
    match file.size {
        Ok(n) => Ok(n),
        Err(message) => Err(message@),
    }
}

/// The text of a file, or why it could not be read.
pub open spec fn text_of_file(file: ManifestFile) -> Result<Seq<char>, Seq<char>> {
    match file.text {
        Ok(text) => Ok(text@),
        Err(message) => Err(message@),
    }
}

/// Reads the manifest of an installed plugin, where it has one. `found` is what
/// could be read of the file that `find_manifest_file` chose.
pub fn load_from_install_dir(found: Result<Option<ManifestFile>, String>) -> (r: Result<
    Option<PluginManifest>,
    String,
>)
    ensures
        match found {
            Err(message) => r matches Err(text) && text@ == message@,
            Ok(None) => r matches Ok(None),
            Ok(Some(file)) => match installed_manifest(size_of_file(file), text_of_file(file)) {
                Ok(manifest) => r matches Ok(Some(read)) && read@ == manifest,
                Err(message) => r matches Err(text) && text@ == message,
            },
        },
{
    match found {
        Err(message) => Err(message),
        Ok(None) => Ok(None),
        Ok(Some(file)) => {
            match file.size {
                Err(message) => {
                    return Err(
                        "读取 plugin.json 失败：".to_string().concat(message.as_str()),
                    );
                },
                Ok(n) => {
                    if n > MAX_MANIFEST_BYTES as u64 {
                        return Err(
                            "plugin.json 超过 ".to_string().concat(
                                decimal_text(MAX_MANIFEST_BYTES as u64).as_str(),
                            ).concat(" 字节上限。"),
                        );
                    }
                },
            }
            match file.text {
                Err(message) => Err(
                    "读取 plugin.json 失败：".to_string().concat(message.as_str()),
                ),
                Ok(raw) => match parse_manifest(raw.as_str()) {
                    Ok(manifest) => Ok(Some(manifest)),
                    Err(message) => Err(message),
                },
            }
        },
    }
}

impl PluginManifest {
    /// The executable of the plugin: the directory it lies in, which is that
    /// of the manifest where there is one, and its name.
    pub fn exe_path(&self, install_dir: &str, manifest_dir: Option<&str>) -> (r: Vec<String>)
        ensures
            list_view(r@) == seq![
                match manifest_dir {
                    Some(dir) => dir@,
                    None => install_dir@,
                },
                self@.exe_name,
            ],
    {
        let dir = match manifest_dir {
            Some(dir) => dir,
            None => install_dir,
        };
        let r: Vec<String> = vec![dir.to_string(), self.exe_name.clone()];
        assert(list_view(r@) =~= seq![dir@, self@.exe_name]);
        r
    }
}

} // verus!
