//! Laws of the profiles: what becomes of display settings, playlists and
//! slideshows that are read or changed.
use vstd::prelude::*;

use crate::json::{
    ascending, collected, decimal_value, is_finite, is_whole, lemma_collected_member,
    lemma_member_at, lemma_pair_found, member, names_differ, rank, JsonV, Num,
};
use crate::models::{order_named, SlideshowOrder};
use crate::profile::{
    default_fields, default_members, default_properties, fit_field, flag_field, fresh_profile,
    interval_of, is_color, kept_ids, normalized, number_field, number_from,
    patch_keeps_other_fields, patched, profile_file, profile_json, properties_of, sanitized,
    sanitized_field, slideshow_from, slideshow_json, text_values, texts_of, usable_id,
    whole_interval_is_kept, PatchV, ProfileV, SlideshowSettings,
};
use crate::text::{byte_len, is_hex_digit, lower};

verus! {

// ---------------------------------------------------------------------------
// Single display settings
// ---------------------------------------------------------------------------

/// A number setting keeps a number that lies between its bounds, brings one below
/// to the lower and one above to the upper, and has its default where none comes.
pub proof fn number_setting_is_clamped(
    raw: Option<JsonV>,
    field: JsonV,
    fallback: JsonV,
    low: u64,
    high: u64,
)
    requires
        field.get_str("type"@) == Some("number"@),
        field.get("minimum"@) matches Some(v) && v.as_double() == Some(low),
        field.get("maximum"@) matches Some(v) && v.as_double() == Some(high),
        rank(low) <= rank(high),
    ensures
        number_from(raw) matches Some(bits) ==> {
            let shown = sanitized_field(raw, Some(field), fallback);
            &&& rank(low) <= rank(bits) <= rank(high) ==> shown == JsonV::Num(Num::Float(bits))
            &&& rank(bits) < rank(low) ==> shown == JsonV::Num(Num::Float(low))
            &&& rank(bits) > rank(high) ==> shown == JsonV::Num(Num::Float(high))
        },
        number_from(raw) is None ==> (fallback.as_double() matches Some(bits) ==> rank(low) <= rank(
            bits,
        ) <= rank(high) ==> sanitized_field(raw, Some(field), fallback) == JsonV::Num(
            Num::Float(bits),
        )),
{
    reveal_strlit("number");
    reveal_strlit("boolean");
    assert("number"@.len() == 6 && "boolean"@.len() == 7);
}

/// What counts as an incoming number: a JSON number, or a text that denotes one.
pub proof fn number_comes_as_number_or_text(v: JsonV)
    ensures
        v matches JsonV::Num(Num::Float(bits)) ==> number_from(Some(v)) == Some(bits),
        v is Null || v is Bool || v is Array || v is Object ==> number_from(Some(v)) is None,
        v matches JsonV::Text(text) ==> number_from(Some(v)) == crate::json::text_as_double(text),
        number_from(None) is None,
{
}

/// A flag keeps the flag that comes, and has its default where none does.
pub proof fn flag_setting_is_kept(raw: Option<JsonV>, field: JsonV, fallback: bool)
    requires
        field.get_str("type"@) == Some("boolean"@),
    ensures
        raw matches Some(JsonV::Bool(flag)) ==> sanitized_field(
            raw,
            Some(field),
            JsonV::Bool(fallback),
        ) == JsonV::Bool(flag),
        !(raw matches Some(JsonV::Bool(_))) ==> sanitized_field(
            raw,
            Some(field),
            JsonV::Bool(fallback),
        ) == JsonV::Bool(fallback),
{
}

/// A choice keeps a text that is offered, and has its default for any other.
pub proof fn choice_setting_is_offered(
    raw: Option<JsonV>,
    field: JsonV,
    options: Seq<JsonV>,
    fallback: JsonV,
)
    requires
        field.get_str("type"@) == Some("string"@),
        field.get("enum"@) == Some(JsonV::Array(options)),
    ensures
        raw matches Some(JsonV::Text(text)) && options.contains(JsonV::Text(text))
            ==> sanitized_field(raw, Some(field), fallback) == raw->0,
        raw matches Some(JsonV::Text(text)) && !options.contains(JsonV::Text(text))
            ==> sanitized_field(raw, Some(field), fallback) == fallback,
        !(raw matches Some(JsonV::Text(_))) ==> sanitized_field(raw, Some(field), fallback)
            == fallback,
{
    reveal_strlit("number");
    reveal_strlit("boolean");
    reveal_strlit("string");
    assert("number"@[0] == 'n' && "boolean"@[0] == 'b' && "string"@[0] == 's');
}

/// A colour keeps `#` with six hexadecimal digits, in small letters, and has its
/// default for any other text; a plain text keeps one of up to 128 bytes.
pub proof fn text_setting_is_kept(raw: Option<JsonV>, field: JsonV, fallback: Seq<char>)
    requires
        field.get_str("type"@) == Some("string"@),
        field.get("enum"@) is None,
    ensures
        field.get("format"@) == Some(JsonV::Text("color"@)) ==> {
            &&& raw matches Some(JsonV::Text(text)) ==> {
                &&& text.len() == 7 && text[0] == '#' && (forall|i: int|
                    1 <= i < 7 ==> is_hex_digit(#[trigger] text[i])) ==> sanitized_field(
                    raw,
                    Some(field),
                    JsonV::Text(fallback),
                ) == JsonV::Text(lower(text))
                &&& !is_color(text) ==> sanitized_field(raw, Some(field), JsonV::Text(fallback))
                    == JsonV::Text(lower(fallback))
            }
            &&& !(raw matches Some(JsonV::Text(_))) ==> sanitized_field(
                raw,
                Some(field),
                JsonV::Text(fallback),
            ) == JsonV::Text(lower(fallback))
        },
        field.get("format"@) is None ==> (raw matches Some(JsonV::Text(text)) ==> sanitized_field(
            raw,
            Some(field),
            JsonV::Text(fallback),
        ) == JsonV::Text(
            if byte_len(text) <= 128 {
                text
            } else {
                fallback
            },
        )),
{
    reveal_strlit("number");
    reveal_strlit("boolean");
    reveal_strlit("string");
    assert("number"@[0] == 'n' && "boolean"@[0] == 'b' && "string"@[0] == 's');
}

// ---------------------------------------------------------------------------
// All display settings
// ---------------------------------------------------------------------------

/// Under a schema with up to 64 properties each of them has its setting, made of
/// what comes under its name, and there are no others.
pub proof fn each_property_has_its_setting(
    value: JsonV,
    schema: JsonV,
    properties: Seq<(Seq<char>, JsonV)>,
    i: int,
)
    requires
        schema.get("properties"@) == Some(JsonV::Object(properties)),
        ascending(properties),
        properties.len() <= 64,
        0 <= i < properties.len(),
    ensures
        ({
            let (key, field) = properties[i];
            let fallback = match field.get("default"@) {
                Some(own) => own,
                None => match member(default_members(), key) {
                    Some(given) => given,
                    None => JsonV::Null,
                },
            };
            sanitized(value, Some(schema)).get(key) == Some(
                sanitized_field(value.get(key), Some(field), fallback),
            )
        }),
        sanitized(value, Some(schema)) matches JsonV::Object(members) && members.len()
            == properties.len(),
{
    let members = sanitized(value, Some(schema))->Object_0;
    let key = properties[i].0;
    assert(members[i].0 == key);
    assert(ascending(members)) by {
        assert forall|a: int, b: int| 0 <= a < b < members.len() implies crate::json::precedes(
            #[trigger] members[a].0,
            #[trigger] members[b].0,
        ) by {
            assert(members[a].0 == properties[a].0 && members[b].0 == properties[b].0);
        }
    }
    lemma_member_at(members, i);
    lemma_member_at(properties, i);
    assert(value.get(key) == (match value.as_object() {
        Some(list) => member(list, key),
        None => None,
    }));
}

proof fn lemma_number_field_members(title: Seq<char>, low: JsonV, high: JsonV, step: JsonV)
    ensures
        ({
            let field = number_field(title, low, high, step);
            &&& field.get_str("type"@) == Some("number"@)
            &&& field.get("minimum"@) == Some(low)
            &&& field.get("maximum"@) == Some(high)
            &&& field.get("step"@) == Some(step)
            &&& field.get_str("title"@) == Some(title)
        }),
{
    let pairs = seq![
        ("type"@, JsonV::Text("number"@)),
        ("title"@, JsonV::Text(title)),
        ("minimum"@, low),
        ("maximum"@, high),
        ("step"@, step),
    ];
    reveal_strlit("type");
    reveal_strlit("title");
    reveal_strlit("minimum");
    reveal_strlit("maximum");
    reveal_strlit("step");
    assert("type"@[0] == 't' && "title"@[1] == 'i' && "type"@[1] == 'y' && "step"@[0] == 's');
    assert("minimum"@[1] == 'i' && "minimum"@[0] == 'm' && "maximum"@[0] == 'm' && "maximum"@[1]
        == 'a');
    assert("title"@[0] == 't');
    assert(names_differ(pairs));
    lemma_pair_found(pairs, 0);
    lemma_pair_found(pairs, 1);
    lemma_pair_found(pairs, 2);
    lemma_pair_found(pairs, 3);
    lemma_pair_found(pairs, 4);
    lemma_collected_member(pairs, "type"@);
    lemma_collected_member(pairs, "title"@);
    lemma_collected_member(pairs, "minimum"@);
    lemma_collected_member(pairs, "maximum"@);
    lemma_collected_member(pairs, "step"@);
}

proof fn lemma_setting_names()
    ensures
        "fit"@.len() == 3,
        "positionX"@.len() == 9 && "positionX"@[8] == 'X',
        "positionY"@.len() == 9 && "positionY"@[8] == 'Y',
        "opacity"@.len() == 7,
        "blur"@.len() == 4,
        "scale"@.len() == 5,
        "overlayColor"@.len() == 12,
        "overlayOpacity"@.len() == 14 && "overlayOpacity"@[0] == 'o',
        "blockFillOpacity"@.len() == 16,
        "homeIntensity"@.len() == 13 && "homeIntensity"@[0] == 'h',
        "taskIntensity"@.len() == 13 && "taskIntensity"@[0] == 't',
        "sidebarOpacity"@.len() == 14 && "sidebarOpacity"@[0] == 's' && "sidebarOpacity"@[1] == 'i',
        "surfaceOpacity"@.len() == 14 && "surfaceOpacity"@[0] == 's' && "surfaceOpacity"@[1] == 'u',
        "cardOpacity"@.len() == 11 && "cardOpacity"@[0] == 'c',
        "composerOpacity"@.len() == 15 && "composerOpacity"@[0] == 'c',
        "menuOpacity"@.len() == 11 && "menuOpacity"@[0] == 'm',
        "terminalOpacity"@.len() == 15 && "terminalOpacity"@[0] == 't',
        "enabledOnHome"@.len() == 13 && "enabledOnHome"@[0] == 'e',
        "enabledOnTasks"@.len() == 14 && "enabledOnTasks"@[0] == 'e',
        "videoMuted"@.len() == 10,
        "videoPlaybackRate"@.len() == 17,
{
    reveal_strlit("fit");
    reveal_strlit("positionX");
    reveal_strlit("positionY");
    reveal_strlit("opacity");
    reveal_strlit("blur");
    reveal_strlit("scale");
    reveal_strlit("overlayColor");
    reveal_strlit("overlayOpacity");
    reveal_strlit("blockFillOpacity");
    reveal_strlit("homeIntensity");
    reveal_strlit("taskIntensity");
    reveal_strlit("sidebarOpacity");
    reveal_strlit("surfaceOpacity");
    reveal_strlit("cardOpacity");
    reveal_strlit("composerOpacity");
    reveal_strlit("menuOpacity");
    reveal_strlit("terminalOpacity");
    reveal_strlit("enabledOnHome");
    reveal_strlit("enabledOnTasks");
    reveal_strlit("videoMuted");
    reveal_strlit("videoPlaybackRate");
}

proof fn lemma_default_member(i: int)
    requires
        0 <= i < default_fields().len(),
    ensures
        member(default_members(), default_fields()[i].0) == Some(default_fields()[i].1),
{
    lemma_setting_names();
    assert(names_differ(default_fields()));
    lemma_pair_found(default_fields(), i);
    lemma_collected_member(default_fields(), default_fields()[i].0);
}

/// The default of each display setting.
pub proof fn default_settings_have_these_values()
    ensures
        default_fields().len() == 21,
        member(default_members(), "fit"@) == Some(JsonV::Text("cover"@)),
        member(default_members(), "positionX"@) == Some(decimal_value("50.0"@)),
        member(default_members(), "positionY"@) == Some(decimal_value("50.0"@)),
        member(default_members(), "opacity"@) == Some(decimal_value("0.72"@)),
        member(default_members(), "blur"@) == Some(decimal_value("0.0"@)),
        member(default_members(), "scale"@) == Some(decimal_value("1.0"@)),
        member(default_members(), "overlayColor"@) == Some(JsonV::Text("#101416"@)),
        member(default_members(), "overlayOpacity"@) == Some(decimal_value("0.12"@)),
        member(default_members(), "blockFillOpacity"@) == Some(decimal_value("0.55"@)),
        member(default_members(), "homeIntensity"@) == Some(decimal_value("1.0"@)),
        member(default_members(), "taskIntensity"@) == Some(decimal_value("0.32"@)),
        member(default_members(), "sidebarOpacity"@) == Some(decimal_value("0.18"@)),
        member(default_members(), "surfaceOpacity"@) == Some(decimal_value("0.12"@)),
        member(default_members(), "cardOpacity"@) == Some(decimal_value("0.82"@)),
        member(default_members(), "composerOpacity"@) == Some(decimal_value("0.88"@)),
        member(default_members(), "menuOpacity"@) == Some(decimal_value("0.9"@)),
        member(default_members(), "terminalOpacity"@) == Some(decimal_value("0.9"@)),
        member(default_members(), "enabledOnHome"@) == Some(JsonV::Bool(true)),
        member(default_members(), "enabledOnTasks"@) == Some(JsonV::Bool(true)),
        member(default_members(), "videoMuted"@) == Some(JsonV::Bool(true)),
        member(default_members(), "videoPlaybackRate"@) == Some(decimal_value("1.0"@)),
{
    lemma_default_member(0);
    lemma_default_member(1);
    lemma_default_member(2);
    lemma_default_member(3);
    lemma_default_member(4);
    lemma_default_member(5);
    lemma_default_member(6);
    lemma_default_member(7);
    lemma_default_member(8);
    lemma_default_member(9);
    lemma_default_member(10);
    lemma_default_member(11);
    lemma_default_member(12);
    lemma_default_member(13);
    lemma_default_member(14);
    lemma_default_member(15);
    lemma_default_member(16);
    lemma_default_member(17);
    lemma_default_member(18);
    lemma_default_member(19);
    lemma_default_member(20);
}

/// The field is a number with this title, from `low` to `high` in steps of `step`.
pub open spec fn ranges(
    field: Option<JsonV>,
    title: Seq<char>,
    low: JsonV,
    high: JsonV,
    step: JsonV,
) -> bool {
    field matches Some(shape) && shape.get_str("type"@) == Some("number"@) && shape.get("minimum"@)
        == Some(low) && shape.get("maximum"@) == Some(high) && shape.get("step"@) == Some(step)
        && shape.get_str("title"@) == Some(title)
}

/// The field is a flag with this title.
pub open spec fn is_flag(field: Option<JsonV>, title: Seq<char>) -> bool {
    field matches Some(shape) && shape.get_str("type"@) == Some("boolean"@) && shape.get_str(
        "title"@,
    ) == Some(title)
}

proof fn lemma_default_property(i: int)
    requires
        0 <= i < default_properties().len(),
    ensures
        properties_of(None) matches Some(properties) && member(
            properties,
            default_properties()[i].0,
        ) == Some(default_properties()[i].1),
{
    lemma_setting_names();
    let pairs = seq![
        ("type"@, JsonV::Text("object"@)),
        ("properties"@, JsonV::Object(collected(default_properties()))),
    ];
    lemma_collected_member(pairs, "properties"@);
    assert(member(pairs, "properties"@) == Some(pairs[1].1));
    assert(names_differ(default_properties()));
    lemma_pair_found(default_properties(), i);
    lemma_collected_member(default_properties(), default_properties()[i].0);
}

/// The titles, bounds and steps of the number settings of a plugin that declares none of its own.
pub proof fn default_bounds_are_these()
    ensures
        properties_of(None) matches Some(properties) && ({
            let at = |key: Seq<char>| member(properties, key);
            let zero = JsonV::Num(Num::PosInt(0));
            let one = JsonV::Num(Num::PosInt(1));
            &&& ranges(at("positionX"@), "水平位置"@, zero, JsonV::Num(Num::PosInt(100)), one)
            &&& ranges(at("positionY"@), "垂直位置"@, zero, JsonV::Num(Num::PosInt(100)), one)
            &&& ranges(at("blur"@), "模糊"@, zero, JsonV::Num(Num::PosInt(40)), one)
            &&& ranges(at("scale"@), "缩放"@, one, decimal_value("1.3"@), decimal_value("0.01"@))
            &&& ranges(at("overlayOpacity"@), "遮罩不透明度"@, zero, decimal_value("0.9"@), decimal_value("0.01"@))
            &&& ranges(at("videoPlaybackRate"@), "视频倍速"@, decimal_value("0.25"@), JsonV::Num(Num::PosInt(2)), decimal_value("0.05"@))
            &&& ranges(at("opacity"@), "不透明度"@, zero, one, decimal_value("0.01"@))
            &&& ranges(at("blockFillOpacity"@), "色块填充"@, zero, one, decimal_value("0.01"@))
            &&& ranges(at("homeIntensity"@), "主页强度"@, zero, one, decimal_value("0.01"@))
            &&& ranges(at("taskIntensity"@), "任务页强度"@, zero, one, decimal_value("0.01"@))
            &&& ranges(at("sidebarOpacity"@), "侧栏不透明度"@, zero, one, decimal_value("0.01"@))
            &&& ranges(at("surfaceOpacity"@), "表面不透明度"@, zero, one, decimal_value("0.01"@))
            &&& ranges(at("cardOpacity"@), "卡片不透明度"@, zero, one, decimal_value("0.01"@))
            &&& ranges(at("composerOpacity"@), "输入区不透明度"@, zero, one, decimal_value("0.01"@))
            &&& ranges(at("menuOpacity"@), "菜单不透明度"@, zero, one, decimal_value("0.01"@))
            &&& ranges(at("terminalOpacity"@), "终端不透明度"@, zero, one, decimal_value("0.01"@))
        }),
{
    let zero = JsonV::Num(Num::PosInt(0));
    let one = JsonV::Num(Num::PosInt(1));
    let hundred = JsonV::Num(Num::PosInt(100));
    let cent = decimal_value("0.01"@);
    lemma_default_property(1);
    lemma_default_property(2);
    lemma_default_property(3);
    lemma_default_property(4);
    lemma_default_property(5);
    lemma_default_property(7);
    lemma_default_property(8);
    lemma_default_property(9);
    lemma_default_property(10);
    lemma_default_property(11);
    lemma_default_property(12);
    lemma_default_property(13);
    lemma_default_property(14);
    lemma_default_property(15);
    lemma_default_property(16);
    lemma_default_property(20);
    lemma_number_field_members("水平位置"@, zero, hundred, one);
    lemma_number_field_members("垂直位置"@, zero, hundred, one);
    lemma_number_field_members("不透明度"@, zero, one, cent);
    lemma_number_field_members("模糊"@, zero, JsonV::Num(Num::PosInt(40)), one);
    lemma_number_field_members("缩放"@, one, decimal_value("1.3"@), cent);
    lemma_number_field_members("遮罩不透明度"@, zero, decimal_value("0.9"@), cent);
    lemma_number_field_members("色块填充"@, zero, one, cent);
    lemma_number_field_members("主页强度"@, zero, one, cent);
    lemma_number_field_members("任务页强度"@, zero, one, cent);
    lemma_number_field_members("侧栏不透明度"@, zero, one, cent);
    lemma_number_field_members("表面不透明度"@, zero, one, cent);
    lemma_number_field_members("卡片不透明度"@, zero, one, cent);
    lemma_number_field_members("输入区不透明度"@, zero, one, cent);
    lemma_number_field_members("菜单不透明度"@, zero, one, cent);
    lemma_number_field_members("终端不透明度"@, zero, one, cent);
    lemma_number_field_members(
        "视频倍速"@,
        decimal_value("0.25"@),
        JsonV::Num(Num::PosInt(2)),
        decimal_value("0.05"@),
    );
}

/// The fit of a plugin that declares none of its own is one of four, and its flags
/// and its colour are such.
pub proof fn default_choices_are_these()
    ensures
        properties_of(None) matches Some(properties) && {
            &&& member(properties, "fit"@) matches Some(field) && field.get_str("type"@) == Some(
                "string"@,
            ) && field.get("enum"@) == Some(
                JsonV::Array(
                    seq![
                        JsonV::Text("cover"@),
                        JsonV::Text("contain"@),
                        JsonV::Text("fill"@),
                        JsonV::Text("tile"@),
                    ],
                ),
            ) && field.get_str("title"@) == Some("填充方式"@) && field.get("enumLabels"@) == Some(
                JsonV::Array(
                    seq![
                        JsonV::Text("覆盖"@),
                        JsonV::Text("适应"@),
                        JsonV::Text("拉伸"@),
                        JsonV::Text("平铺"@),
                    ],
                ),
            )
            &&& member(properties, "overlayColor"@) matches Some(field) && field.get_str("type"@)
                == Some("string"@) && field.get("format"@) == Some(JsonV::Text("color"@))
                && field.get_str("title"@) == Some("遮罩颜色"@)
            &&& is_flag(member(properties, "enabledOnHome"@), "主页启用"@)
            &&& is_flag(member(properties, "enabledOnTasks"@), "任务页启用"@)
            &&& is_flag(member(properties, "videoMuted"@), "视频静音"@)
        },
{
    lemma_default_property(0);
    lemma_default_property(6);
    lemma_default_property(17);
    lemma_default_property(18);
    lemma_default_property(19);
    reveal_strlit("type");
    reveal_strlit("title");
    reveal_strlit("enum");
    reveal_strlit("enumLabels");
    reveal_strlit("format");
    assert("type"@[0] == 't' && "type"@[1] == 'y' && "title"@[0] == 't' && "title"@[1] == 'i');
    assert("enum"@.len() == 4 && "enum"@[0] == 'e' && "enumLabels"@.len() == 10);
    assert("format"@[0] == 'f' && "format"@.len() == 6 && "type"@.len() == 4 && "title"@.len()
        == 5);
    let fit = fit_field()->Object_0;
    let options = JsonV::Array(
        seq![
            JsonV::Text("cover"@),
            JsonV::Text("contain"@),
            JsonV::Text("fill"@),
            JsonV::Text("tile"@),
        ],
    );
    let labels = JsonV::Array(
        seq![
            JsonV::Text("覆盖"@),
            JsonV::Text("适应"@),
            JsonV::Text("拉伸"@),
            JsonV::Text("平铺"@),
        ],
    );
    let pairs = seq![
        ("type"@, JsonV::Text("string"@)),
        ("title"@, JsonV::Text("填充方式"@)),
        ("enum"@, options),
        ("enumLabels"@, labels),
    ];
    assert(names_differ(pairs));
    lemma_pair_found(pairs, 0);
    lemma_pair_found(pairs, 1);
    lemma_pair_found(pairs, 2);
    lemma_pair_found(pairs, 3);
    lemma_collected_member(pairs, "type"@);
    lemma_collected_member(pairs, "title"@);
    lemma_collected_member(pairs, "enum"@);
    lemma_collected_member(pairs, "enumLabels"@);
    let shade = seq![
        ("type"@, JsonV::Text("string"@)),
        ("title"@, JsonV::Text("遮罩颜色"@)),
        ("format"@, JsonV::Text("color"@)),
    ];
    assert(names_differ(shade));
    lemma_pair_found(shade, 0);
    lemma_pair_found(shade, 1);
    lemma_pair_found(shade, 2);
    lemma_collected_member(shade, "title"@);
    lemma_collected_member(shade, "type"@);
    lemma_collected_member(shade, "format"@);
    lemma_flag_type("主页启用"@);
    lemma_flag_type("任务页启用"@);
    lemma_flag_type("视频静音"@);
}

proof fn lemma_flag_type(title: Seq<char>)
    ensures
        flag_field(title).get_str("type"@) == Some("boolean"@),
        flag_field(title).get_str("title"@) == Some(title),
{
    reveal_strlit("type");
    reveal_strlit("title");
    assert("type"@.len() == 4 && "title"@.len() == 5);
    let pairs = seq![("type"@, JsonV::Text("boolean"@)), ("title"@, JsonV::Text(title))];
    assert(names_differ(pairs));
    lemma_pair_found(pairs, 0);
    lemma_pair_found(pairs, 1);
    lemma_collected_member(pairs, "type"@);
    lemma_collected_member(pairs, "title"@);
}

// ---------------------------------------------------------------------------
// Playlists and slideshows
// ---------------------------------------------------------------------------

/// A playlist keeps every identifier of up to 128 bytes, once, and no other; the
/// first place at which each stands decides their order.
pub proof fn playlist_keeps_each_once(ids: Seq<Seq<char>>, id: Seq<char>)
    ensures
        kept_ids(ids).contains(id) <==> ids.contains(id) && byte_len(id) <= 128,
        ids.len() > 0 && byte_len(ids[0]) <= 128 ==> kept_ids(ids).len() > 0 && kept_ids(ids)[0]
            == ids[0],
        kept_ids(ids).no_duplicates(),
    decreases ids.len(),
{
    crate::profile::kept_ids_are_distinct(ids);
    if ids.len() > 0 {
        let front = ids.drop_last();
        playlist_keeps_each_once(front, id);
        let kept = kept_ids(front);
        if ids.contains(id) && id != ids.last() {
            let k = choose|k: int| 0 <= k < ids.len() && ids[k] == id;
            assert(front[k] == id);
            assert(front.contains(id));
        }
        if front.contains(id) {
            let k = choose|k: int| 0 <= k < front.len() && front[k] == id;
            assert(ids[k] == id);
        }
        assert(ids[ids.len() - 1] == ids.last());
        if kept.contains(id) {
            let k = choose|k: int| 0 <= k < kept.len() && kept[k] == id;
            assert(kept.push(ids.last())[k] == id);
        }
        assert(kept.push(ids.last())[kept.len() as int] == ids.last());
        if front.len() > 0 {
            assert(front[0] == ids[0]);
        }
        if kept_ids(ids).contains(id) && !kept.contains(id) {
            let k = choose|k: int| 0 <= k < kept_ids(ids).len() && kept_ids(ids)[k] == id;
            if k < kept.len() {
                assert(kept[k] == id);
            }
        }
    }
}

/// An identifier counts exactly where it has from 1 to 128 bytes.
pub proof fn usable_identifier_is_kept(id: Seq<char>)
    ensures
        id.len() > 0 && byte_len(id) <= 128 ==> usable_id(Some(id)) == Some(id),
        id.len() == 0 || byte_len(id) > 128 ==> usable_id(Some(id)) is None,
        usable_id(None) is None,
{
}

/// A slideshow shows each item from 10 to 86400 seconds: a shorter or a longer time
/// is brought to the limit, and one between them to the whole second next to it,
/// from a half upwards.
pub proof fn interval_is_the_nearest_second(bits: u64)
    ensures
        rank(bits) <= 0x4024_0000_0000_0000 ==> interval_of(bits) == 10,
        rank(bits) >= 0x40f5_1800_0000_0000 ==> interval_of(bits) == 86400,
        0x4024_0000_0000_0000 < bits < 0x40f5_1800_0000_0000 ==> {
            let unit = vstd::arithmetic::power2::pow2(
                (1075 - bits / 0x10_0000_0000_0000) as nat,
            ) as int;
            let time = 0x10_0000_0000_0000 + bits % 0x10_0000_0000_0000;
            unit > 0 && 2 * unit * interval_of(bits) <= 2 * time + unit < 2 * unit * (interval_of(
                bits,
            ) + 1)
        },
{
    if 0x4024_0000_0000_0000 < bits < 0x40f5_1800_0000_0000 {
        let exponent = (1075 - bits / 0x10_0000_0000_0000) as nat;
        vstd::arithmetic::power2::lemma_pow2_pos(exponent);
        let unit = vstd::arithmetic::power2::pow2(exponent) as int;
        assert(exponent >= 1);
        vstd::arithmetic::power2::lemma_pow2_unfold(exponent);
        let time = 0x10_0000_0000_0000 + bits % 0x10_0000_0000_0000;
        let n = interval_of(bits);
        assert(unit % 2 == 0);
        assert(n == (time + unit / 2) / unit);
        assert(unit * n <= time + unit / 2 < unit * (n + 1)) by (nonlinear_arith)
            requires
                n == (time + unit / 2) / unit,
                unit > 0,
        ;
        assert(2 * (unit * n) == 2 * unit * n) by (nonlinear_arith);
        assert(2 * (unit * (n + 1)) == 2 * unit * (n + 1)) by (nonlinear_arith);
    }
}

/// What a stored slideshow says counts, each under its name: whether it is on, for
/// how long it shows each item, and in what order it goes. What is missing is off,
/// 300 seconds, and in order.
pub proof fn slideshow_is_read_by_name(value: JsonV)
    ensures
        ({
            let read = slideshow_from(value);
            &&& read.enabled <==> value.get("enabled"@) == Some(JsonV::Bool(true))
            &&& read.order == SlideshowOrder::Random <==> value.get_str("order"@) == Some(
                "random"@,
            )
            &&& number_from(value.get("intervalSeconds"@)) is None ==> read.interval_seconds == 300
            &&& number_from(value.get("intervalSeconds"@)) is Some ==> forall|n: u64|
                10 <= n <= 86400 && #[trigger] is_whole(
                    number_from(value.get("intervalSeconds"@))->0,
                    n,
                ) ==> read.interval_seconds == n
        }),
{
    reveal_strlit("sequential");
    reveal_strlit("random");
    assert("sequential"@.len() == 10 && "random"@.len() == 6);
    if let Some(bits) = number_from(value.get("intervalSeconds"@)) {
        assert forall|n: u64| 10 <= n <= 86400 && #[trigger] is_whole(bits, n) implies
            slideshow_from(value).interval_seconds == n by {
            whole_interval_is_kept(bits, n);
        }
    }
}

/// What a stored profile says counts, each under its name.
pub proof fn profile_is_read_by_name(value: JsonV, schema: Option<JsonV>, id: Seq<char>)
    ensures
        ({
            let read = normalized(value, schema);
            &&& read.schema_version == 1
            &&& value.get_str("activeMediaId"@) == Some(id) && 0 < id.len() && byte_len(id) <= 128
                ==> read.active_media_id == Some(id)
            &&& value.get_str("activeMediaId"@) is None ==> read.active_media_id is None
            &&& value.get("playlistIds"@) matches Some(JsonV::Array(values)) ==> (
            read.playlist_ids.contains(id) <==> values.contains(JsonV::Text(id)) && byte_len(id)
                <= 128)
            &&& value.get("playlistIds"@) is None ==> read.playlist_ids.len() == 0
            &&& value.get("display"@) matches Some(display) ==> read.display == sanitized(
                display,
                schema,
            )
            &&& value.get("slideshow"@) matches Some(shown) ==> read.slideshow == slideshow_from(
                shown,
            )
            &&& value.get("slideshow"@) is None ==> read.slideshow == (SlideshowSettings {
                enabled: false,
                interval_seconds: 300,
                order: SlideshowOrder::Sequential,
            })
        }),
{
    if let Some(JsonV::Array(values)) = value.get("playlistIds"@) {
        playlist_keeps_each_once(texts_of(values), id);
        lemma_texts_of(values, id);
    }
}

proof fn lemma_texts_of(values: Seq<JsonV>, id: Seq<char>)
    ensures
        texts_of(values).contains(id) <==> values.contains(JsonV::Text(id)),
    decreases values.len(),
{
    if values.len() > 0 {
        let front = values.drop_last();
        lemma_texts_of(front, id);
        let before = texts_of(front);
        if values.contains(JsonV::Text(id)) {
            let k = choose|k: int| 0 <= k < values.len() && values[k] == JsonV::Text(id);
            if k < front.len() {
                assert(front[k] == JsonV::Text(id));
            }
        }
        if front.contains(JsonV::Text(id)) {
            let k = choose|k: int| 0 <= k < front.len() && front[k] == JsonV::Text(id);
            assert(values[k] == JsonV::Text(id));
        }
        assert(values[values.len() - 1] == values.last());
        if let JsonV::Text(text) = values.last() {
            let after = before.push(text);
            assert(after[before.len() as int] == text);
            if before.contains(id) {
                let k = choose|k: int| 0 <= k < before.len() && before[k] == id;
                assert(after[k] == id);
            }
            if after.contains(id) {
                let k = choose|k: int| 0 <= k < after.len() && after[k] == id;
                if k < before.len() {
                    assert(before[k] == id);
                }
            }
        }
    }
}

/// A new profile shows nothing, has no playlist, its slideshow is off, and its
/// display settings are those that the schema gives to none.
pub proof fn new_profile_is_empty(schema: Option<JsonV>)
    ensures
        ({
            let fresh = fresh_profile(schema);
            &&& fresh.schema_version == 1
            &&& fresh.active_media_id is None
            &&& fresh.playlist_ids.len() == 0
            &&& !fresh.slideshow.enabled
            &&& fresh.slideshow.interval_seconds == 300
            &&& fresh.slideshow.order == SlideshowOrder::Sequential
            &&& fresh.display == sanitized(JsonV::Object(Seq::empty()), schema)
        }),
{
}

// ---------------------------------------------------------------------------
// Changes
// ---------------------------------------------------------------------------

/// A change sets what it names and keeps the rest.
pub proof fn change_sets_what_it_names(profile: ProfileV, patch: PatchV, key: Seq<char>)
    ensures
        ({
            let after = patched(profile, patch);
            &&& after.schema_version == profile.schema_version
            &&& patch.active_media_id is None ==> after.active_media_id == profile.active_media_id
            &&& patch.active_media_id == Some(None::<Seq<char>>) ==> after.active_media_id is None
            &&& (patch.active_media_id matches Some(Some(id)) && 0 < id.len() && byte_len(id)
                <= 128) ==> after.active_media_id == patch.active_media_id->0
            &&& patch.playlist_ids is None ==> after.playlist_ids == profile.playlist_ids
            &&& (patch.playlist_ids matches Some(ids) && ids.no_duplicates() && (forall|i: int|
                0 <= i < ids.len() ==> byte_len(#[trigger] ids[i]) <= 128)) ==> after.playlist_ids
                == patch.playlist_ids->0
            &&& patch.display is None ==> after.display == profile.display
            &&& patch.display matches Some(JsonV::Object(incoming)) ==> profile.display is Object
                ==> after.display.get(key) == (match member(incoming, key) {
                Some(value) => Some(value),
                None => profile.display.get(key),
            })
            &&& patch.slideshow is None ==> after.slideshow == profile.slideshow
            &&& patch.slideshow matches Some(change) ==> {
                &&& change.enabled matches Some(enabled) ==> after.slideshow.enabled == enabled
                &&& change.enabled is None ==> after.slideshow.enabled == profile.slideshow.enabled
                &&& change.order matches Some(order) ==> after.slideshow.order == order
                &&& change.order is None ==> after.slideshow.order == profile.slideshow.order
                &&& change.interval_seconds is None ==> after.slideshow.interval_seconds
                    == profile.slideshow.interval_seconds
                &&& change.interval_seconds matches Some(bits) ==> {
                    &&& is_finite(bits) ==> after.slideshow.interval_seconds == interval_of(bits)
                    &&& !is_finite(bits) ==> after.slideshow.interval_seconds
                        == profile.slideshow.interval_seconds
                }
            }
        }),
{
    if let Some(ids) = patch.playlist_ids {
        if ids.no_duplicates() && (forall|i: int|
            0 <= i < ids.len() ==> byte_len(#[trigger] ids[i]) <= 128) {
            crate::profile::distinct_ids_are_kept(ids);
        }
    }
    if let Some(JsonV::Object(incoming)) = patch.display {
        if let JsonV::Object(members) = profile.display {
            patch_keeps_other_fields(members, incoming, key);
        }
    }
    if let Some(change) = patch.slideshow {
        if let Some(bits) = change.interval_seconds {
            crate::profile::interval_is_within_limits(bits);
        }
    }
}

// ---------------------------------------------------------------------------
// The stored form
// ---------------------------------------------------------------------------

/// A profile is stored with each of its parts under its name.
pub proof fn profile_is_stored_by_name(profile: ProfileV)
    ensures
        ({
            let value = profile_json(profile);
            &&& value.get("schemaVersion"@) == Some(
                JsonV::Num(Num::PosInt(profile.schema_version as u64)),
            )
            &&& profile.active_media_id matches Some(id) ==> value.get_str("activeMediaId"@)
                == Some(id)
            &&& profile.active_media_id is None ==> value.get("activeMediaId"@) == Some(JsonV::Null)
            &&& value.get("playlistIds"@) matches Some(JsonV::Array(values)) && values.len()
                == profile.playlist_ids.len() && forall|i: int|
                0 <= i < values.len() ==> #[trigger] values[i] == JsonV::Text(
                    profile.playlist_ids[i],
                )
            &&& value.get("display"@) == Some(profile.display)
            &&& value.get("slideshow"@) matches Some(shown) && {
                &&& shown.get("enabled"@) == Some(JsonV::Bool(profile.slideshow.enabled))
                &&& shown.get("intervalSeconds"@) == Some(
                    JsonV::Num(Num::PosInt(profile.slideshow.interval_seconds)),
                )
                &&& shown.get_str("order"@) == Some("random"@) <==> profile.slideshow.order
                    == SlideshowOrder::Random
                &&& shown.get_str("order"@) == Some("sequential"@) <==> profile.slideshow.order
                    == SlideshowOrder::Sequential
            }
        }),
{
    reveal_strlit("schemaVersion");
    reveal_strlit("activeMediaId");
    reveal_strlit("playlistIds");
    reveal_strlit("display");
    reveal_strlit("slideshow");
    reveal_strlit("enabled");
    reveal_strlit("intervalSeconds");
    reveal_strlit("order");
    reveal_strlit("sequential");
    reveal_strlit("random");
    assert("sequential"@.len() == 10 && "random"@.len() == 6);
    assert("schemaVersion"@.len() == 13 && "schemaVersion"@[0] == 's');
    assert("activeMediaId"@.len() == 13 && "activeMediaId"@[0] == 'a');
    assert("playlistIds"@.len() == 11 && "display"@.len() == 7 && "slideshow"@.len() == 9);
    assert("enabled"@.len() == 7 && "intervalSeconds"@.len() == 15 && "order"@.len() == 5);
    let inner = seq![
        ("enabled"@, JsonV::Bool(profile.slideshow.enabled)),
        ("intervalSeconds"@, JsonV::Num(Num::PosInt(profile.slideshow.interval_seconds))),
        ("order"@, JsonV::Text(crate::profile::order_name(profile.slideshow.order))),
    ];
    assert(names_differ(inner));
    lemma_pair_found(inner, 0);
    lemma_pair_found(inner, 1);
    lemma_pair_found(inner, 2);
    lemma_collected_member(inner, "enabled"@);
    lemma_collected_member(inner, "intervalSeconds"@);
    lemma_collected_member(inner, "order"@);
    let outer = seq![
        ("schemaVersion"@, JsonV::Num(Num::PosInt(profile.schema_version as u64))),
        ("activeMediaId"@, crate::json::opt_text(profile.active_media_id)),
        ("playlistIds"@, JsonV::Array(text_values(profile.playlist_ids))),
        ("display"@, profile.display),
        ("slideshow"@, slideshow_json(profile.slideshow)),
    ];
    assert(names_differ(outer));
    lemma_pair_found(outer, 0);
    lemma_pair_found(outer, 1);
    lemma_pair_found(outer, 2);
    lemma_pair_found(outer, 3);
    lemma_pair_found(outer, 4);
    lemma_collected_member(outer, "schemaVersion"@);
    lemma_collected_member(outer, "activeMediaId"@);
    lemma_collected_member(outer, "playlistIds"@);
    lemma_collected_member(outer, "display"@);
    lemma_collected_member(outer, "slideshow"@);
}

/// The profile of a plugin lies under `profiles`, in a file of the plugin's name.
pub proof fn profile_lies_under_its_name(id: Seq<char>)
    ensures
        profile_file(id) == seq!["profiles"@, id + ".json"@],
{
}

/// The two orders of a slideshow have these names, and no other name is one.
pub proof fn orders_have_names(name: Seq<char>)
    ensures
        order_named("sequential"@) == Some(SlideshowOrder::Sequential),
        order_named("random"@) == Some(SlideshowOrder::Random),
        name != "sequential"@ && name != "random"@ ==> order_named(name) is None,
{
    reveal_strlit("sequential");
    reveal_strlit("random");
    assert("sequential"@.len() != "random"@.len());
}

} // verus!
