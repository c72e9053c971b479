//! A plugin's profile: the chosen media, the display settings and the
//! slideshow, and how stored or incoming values are brought into bounds.
use vstd::arithmetic::power2::pow2;
use vstd::prelude::*;

use crate::json::{
    alike, alike_found, alike_members, all_finite, ascending, collected, decimal_json,
    decimal_value, has_point_at, int_json, integer_as_double, is_finite, is_moderate,
    is_moderate_number, is_whole, json_parsed, json_pretty, lemma_alike_itself, lemma_alike_member,
    lemma_alike_with_member, lemma_collected_member, lemma_collected_readable,
    lemma_collected_survives, lemma_equal_members, lemma_member_at, lemma_member_found,
    lemma_new_member_counts, lemma_not_more_members, lemma_pair_found, lemma_pair_missing,
    lemma_values_view, lemma_with_member_after, member, names_differ, number_as_double, object_of,
    opt_json, opt_text, opt_text_json, pairs_view, parse_json, precedes, rank, readable, survives,
    text_as_double, text_json, values_view, with_member, with_member_keeps_order,
    with_member_reads_back, write_pretty, Double, Json, JsonNumber, JsonV, Members, Num,
    MAX_NESTING,
};
use crate::models::{order_named, slideshow_order, SlideshowOrder};
use crate::protocol::{display_field_check, validate_display_field, MAX_DISPLAY_KEYS, MAX_ID_BYTES};
use crate::text::{
    byte_count, byte_len, chars_of, contains_item, copy_list, copy_opt, digits_value, each,
    hex_digit, is_hex_digit, list_view, lower, lower_text, opt_view, same,
};

verus! {

/// The slideshow settings of a profile.
#[derive(Clone, Copy, Debug, PartialEq, Eq, Structural)]
pub struct SlideshowSettings {
    pub enabled: bool,
    pub interval_seconds: u64,
    pub order: SlideshowOrder,
}

impl Default for SlideshowSettings {
    fn default() -> (r: SlideshowSettings)
        ensures
            r == default_slideshow(),
    {
        SlideshowSettings {
            enabled: false,
            interval_seconds: 300,
            order: SlideshowOrder::Sequential,
        }
    }
}

pub open spec fn default_slideshow() -> SlideshowSettings {
    SlideshowSettings { enabled: false, interval_seconds: 300, order: SlideshowOrder::Sequential }
}

/// The profile of a plugin.
pub struct PluginProfile {
    pub schema_version: u32,
    pub active_media_id: Option<String>,
    pub playlist_ids: Vec<String>,
    pub display: Json,
    pub slideshow: SlideshowSettings,
}

/// The model of a profile.
pub struct ProfileV {
    pub schema_version: u32,
    pub active_media_id: Option<Seq<char>>,
    pub playlist_ids: Seq<Seq<char>>,
    pub display: JsonV,
    pub slideshow: SlideshowSettings,
}

impl View for PluginProfile {
    type V = ProfileV;

    open spec fn view(&self) -> ProfileV {
        ProfileV {
            schema_version: self.schema_version,
            active_media_id: opt_view(self.active_media_id),
            playlist_ids: list_view(self.playlist_ids@),
            display: self.display@,
            slideshow: self.slideshow,
        }
    }
}

pub open spec fn default_profile() -> ProfileV {
    ProfileV {
        schema_version: 1,
        active_media_id: None,
        playlist_ids: Seq::empty(),
        display: JsonV::Object(Seq::empty()),
        slideshow: default_slideshow(),
    }
}

impl Default for PluginProfile {
    fn default() -> (r: PluginProfile)
        ensures
            r@ == default_profile(),
    {
        let r = PluginProfile {
            schema_version: 1,
            active_media_id: None,
            playlist_ids: Vec::new(),
            display: Json::Object(Members::new()),
            slideshow: SlideshowSettings::default(),
        };
        assert(r@.playlist_ids =~= Seq::empty());
        r
    }
}

impl PluginProfile {
    pub fn copy(&self) -> (r: PluginProfile)
        ensures
            r@ == self@,
    {
        PluginProfile {
            schema_version: self.schema_version,
            active_media_id: copy_opt(&self.active_media_id),
            playlist_ids: copy_list(&self.playlist_ids),
            display: self.display.copy(),
            slideshow: self.slideshow,
        }
    }
}

/// A change of the slideshow settings. The interval is given as the bits of a
/// double.
#[derive(Clone, Copy, Debug)]
pub struct SlideshowPatch {
    pub enabled: Option<bool>,
    pub interval_seconds: Option<u64>,
    pub order: Option<SlideshowOrder>,
}

impl Default for SlideshowPatch {
    fn default() -> (r: SlideshowPatch)
        ensures
            r.enabled is None,
            r.interval_seconds is None,
            r.order is None,
    {
        SlideshowPatch { enabled: None, interval_seconds: None, order: None }
    }
}

/// A change of a profile; what is `None` stays as it is.
pub struct ProfilePatch {
    pub active_media_id: Option<Option<String>>,
    pub playlist_ids: Option<Vec<String>>,
    pub display: Option<Json>,
    pub slideshow: Option<SlideshowPatch>,
}

/// The model of a change.
pub struct PatchV {
    pub active_media_id: Option<Option<Seq<char>>>,
    pub playlist_ids: Option<Seq<Seq<char>>>,
    pub display: Option<JsonV>,
    pub slideshow: Option<SlideshowPatch>,
}

impl View for ProfilePatch {
    type V = PatchV;

    open spec fn view(&self) -> PatchV {
        PatchV {
            active_media_id: match self.active_media_id {
                Some(id) => Some(opt_view(id)),
                None => None,
            },
            playlist_ids: match self.playlist_ids {
                Some(ids) => Some(list_view(ids@)),
                None => None,
            },
            display: match self.display {
                Some(display) => Some(display@),
                None => None,
            },
            slideshow: self.slideshow,
        }
    }
}

impl Default for ProfilePatch {
    fn default() -> (r: ProfilePatch)
        ensures
            r@ == (PatchV {
                active_media_id: None,
                playlist_ids: None,
                display: None,
                slideshow: None,
            }),
    {
        ProfilePatch { active_media_id: None, playlist_ids: None, display: None, slideshow: None }
    }
}

// ---------------------------------------------------------------------------
// Defaults
// ---------------------------------------------------------------------------

/// The display settings of a plugin that says nothing of its own.
pub open spec fn default_fields() -> Seq<(Seq<char>, JsonV)> {
    seq![
        ("fit"@, JsonV::Text("cover"@)),
        ("positionX"@, decimal_value("50.0"@)),
        ("positionY"@, decimal_value("50.0"@)),
        ("opacity"@, decimal_value("0.72"@)),
        ("blur"@, decimal_value("0.0"@)),
        ("scale"@, decimal_value("1.0"@)),
        ("overlayColor"@, JsonV::Text("#101416"@)),
        ("overlayOpacity"@, decimal_value("0.12"@)),
        ("blockFillOpacity"@, decimal_value("0.55"@)),
        ("homeIntensity"@, decimal_value("1.0"@)),
        ("taskIntensity"@, decimal_value("0.32"@)),
        ("sidebarOpacity"@, decimal_value("0.18"@)),
        ("surfaceOpacity"@, decimal_value("0.12"@)),
        ("cardOpacity"@, decimal_value("0.82"@)),
        ("composerOpacity"@, decimal_value("0.88"@)),
        ("menuOpacity"@, decimal_value("0.9"@)),
        ("terminalOpacity"@, decimal_value("0.9"@)),
        ("enabledOnHome"@, JsonV::Bool(true)),
        ("enabledOnTasks"@, JsonV::Bool(true)),
        ("videoMuted"@, JsonV::Bool(true)),
        ("videoPlaybackRate"@, decimal_value("1.0"@)),
    ]
}

/// The default display settings, in the order of their names.
pub open spec fn default_members() -> Seq<(Seq<char>, JsonV)> {
    collected(default_fields())
}

fn default_map() -> (r: Members)
    ensures
        r@ == default_members(),
{
    let pairs: Vec<(&str, Json)> = vec![
        ("fit", text_json("cover")),
        ("positionX", decimal_json("50.0")),
        ("positionY", decimal_json("50.0")),
        ("opacity", decimal_json("0.72")),
        ("blur", decimal_json("0.0")),
        ("scale", decimal_json("1.0")),
        ("overlayColor", text_json("#101416")),
        ("overlayOpacity", decimal_json("0.12")),
        ("blockFillOpacity", decimal_json("0.55")),
        ("homeIntensity", decimal_json("1.0")),
        ("taskIntensity", decimal_json("0.32")),
        ("sidebarOpacity", decimal_json("0.18")),
        ("surfaceOpacity", decimal_json("0.12")),
        ("cardOpacity", decimal_json("0.82")),
        ("composerOpacity", decimal_json("0.88")),
        ("menuOpacity", decimal_json("0.9")),
        ("terminalOpacity", decimal_json("0.9")),
        ("enabledOnHome", Json::Bool(true)),
        ("enabledOnTasks", Json::Bool(true)),
        ("videoMuted", Json::Bool(true)),
        ("videoPlaybackRate", decimal_json("1.0")),
    ];
    assert(pairs_view(pairs@) =~= default_fields());
    match object_of(pairs) {
        Json::Object(members) => members,
        _ => Members::new(),
    }
}

/// The default display settings.
pub fn default_display() -> (r: Json)
    ensures
        r@ == JsonV::Object(default_members()),
{
    Json::Object(default_map())
}

pub open spec fn number_field(title: Seq<char>, minimum: JsonV, maximum: JsonV, step: JsonV) -> JsonV {
    JsonV::Object(
        collected(
            seq![
                ("type"@, JsonV::Text("number"@)),
                ("title"@, JsonV::Text(title)),
                ("minimum"@, minimum),
                ("maximum"@, maximum),
                ("step"@, step),
            ],
        ),
    )
}

pub open spec fn flag_field(title: Seq<char>) -> JsonV {
    JsonV::Object(
        collected(
            seq![("type"@, JsonV::Text("boolean"@)), ("title"@, JsonV::Text(title))],
        ),
    )
}

pub open spec fn color_field(title: Seq<char>) -> JsonV {
    JsonV::Object(
        collected(
            seq![
                ("type"@, JsonV::Text("string"@)),
                ("title"@, JsonV::Text(title)),
                ("format"@, JsonV::Text("color"@)),
            ],
        ),
    )
}

pub open spec fn fit_field() -> JsonV {
    JsonV::Object(
        collected(
            seq![
                ("type"@, JsonV::Text("string"@)),
                ("title"@, JsonV::Text("填充方式"@)),
                (
                    "enum"@,
                    JsonV::Array(
                        seq![
                            JsonV::Text("cover"@),
                            JsonV::Text("contain"@),
                            JsonV::Text("fill"@),
                            JsonV::Text("tile"@),
                        ],
                    ),
                ),
                (
                    "enumLabels"@,
                    JsonV::Array(
                        seq![
                            JsonV::Text("覆盖"@),
                            JsonV::Text("适应"@),
                            JsonV::Text("拉伸"@),
                            JsonV::Text("平铺"@),
                        ],
                    ),
                ),
            ],
        ),
    )
}

pub open spec fn whole(n: u64) -> JsonV {
    JsonV::Num(Num::PosInt(n))
}

/// A number from 0 to 1 in hundredths.
pub open spec fn share_field(title: Seq<char>) -> JsonV {
    number_field(title, whole(0), whole(1), decimal_value("0.01"@))
}

/// The properties of the default settings schema.
pub open spec fn default_properties() -> Seq<(Seq<char>, JsonV)> {
    seq![
        ("fit"@, fit_field()),
        ("positionX"@, number_field("水平位置"@, whole(0), whole(100), whole(1))),
        ("positionY"@, number_field("垂直位置"@, whole(0), whole(100), whole(1))),
        ("opacity"@, share_field("不透明度"@)),
        ("blur"@, number_field("模糊"@, whole(0), whole(40), whole(1))),
        (
            "scale"@,
            number_field("缩放"@, whole(1), decimal_value("1.3"@), decimal_value("0.01"@)),
        ),
        ("overlayColor"@, color_field("遮罩颜色"@)),
        (
            "overlayOpacity"@,
            number_field(
                "遮罩不透明度"@,
                whole(0),
                decimal_value("0.9"@),
                decimal_value("0.01"@),
            ),
        ),
        ("blockFillOpacity"@, share_field("色块填充"@)),
        ("homeIntensity"@, share_field("主页强度"@)),
        ("taskIntensity"@, share_field("任务页强度"@)),
        ("sidebarOpacity"@, share_field("侧栏不透明度"@)),
        ("surfaceOpacity"@, share_field("表面不透明度"@)),
        ("cardOpacity"@, share_field("卡片不透明度"@)),
        ("composerOpacity"@, share_field("输入区不透明度"@)),
        ("menuOpacity"@, share_field("菜单不透明度"@)),
        ("terminalOpacity"@, share_field("终端不透明度"@)),
        ("enabledOnHome"@, flag_field("主页启用"@)),
        ("enabledOnTasks"@, flag_field("任务页启用"@)),
        ("videoMuted"@, flag_field("视频静音"@)),
        (
            "videoPlaybackRate"@,
            number_field(
                "视频倍速"@,
                decimal_value("0.25"@),
                whole(2),
                decimal_value("0.05"@),
            ),
        ),
    ]
}

/// The settings schema of a plugin that brings none.
pub open spec fn default_schema() -> JsonV {
    JsonV::Object(
        collected(
            seq![
                ("type"@, JsonV::Text("object"@)),
                ("properties"@, JsonV::Object(collected(default_properties()))),
            ],
        ),
    )
}

fn make_number_field(title: &str, minimum: Json, maximum: Json, step: Json) -> (r: Json)
    ensures
        r@ == number_field(title@, minimum@, maximum@, step@),
{
    let pairs: Vec<(&str, Json)> = vec![
        ("type", text_json("number")),
        ("title", text_json(title)),
        ("minimum", minimum),
        ("maximum", maximum),
        ("step", step),
    ];
    assert(pairs_view(pairs@) =~= seq![
        ("type"@, JsonV::Text("number"@)),
        ("title"@, JsonV::Text(title@)),
        ("minimum"@, minimum@),
        ("maximum"@, maximum@),
        ("step"@, step@),
    ]);
    object_of(pairs)
}

fn make_share_field(title: &str) -> (r: Json)
    ensures
        r@ == share_field(title@),
{
    make_number_field(title, int_json(0), int_json(1), decimal_json("0.01"))
}

fn make_flag_field(title: &str) -> (r: Json)
    ensures
        r@ == flag_field(title@),
{
    let pairs: Vec<(&str, Json)> = vec![
        ("type", text_json("boolean")),
        ("title", text_json(title)),
    ];
    assert(pairs_view(pairs@) =~= seq![
        ("type"@, JsonV::Text("boolean"@)),
        ("title"@, JsonV::Text(title@)),
    ]);
    object_of(pairs)
}

fn make_color_field(title: &str) -> (r: Json)
    ensures
        r@ == color_field(title@),
{
    let pairs: Vec<(&str, Json)> = vec![
        ("type", text_json("string")),
        ("title", text_json(title)),
        ("format", text_json("color")),
    ];
    assert(pairs_view(pairs@) =~= seq![
        ("type"@, JsonV::Text("string"@)),
        ("title"@, JsonV::Text(title@)),
        ("format"@, JsonV::Text("color"@)),
    ]);
    object_of(pairs)
}

fn make_fit_field() -> (r: Json)
    ensures
        r@ == fit_field(),
{
    let names: Vec<Json> = vec![
        text_json("cover"),
        text_json("contain"),
        text_json("fill"),
        text_json("tile"),
    ];
    let labels: Vec<Json> = vec![
        text_json("覆盖"),
        text_json("适应"),
        text_json("拉伸"),
        text_json("平铺"),
    ];
    proof {
        lemma_values_view(names@);
        lemma_values_view(labels@);
        assert(values_view(names@) =~= seq![
            JsonV::Text("cover"@),
            JsonV::Text("contain"@),
            JsonV::Text("fill"@),
            JsonV::Text("tile"@),
        ]);
        assert(values_view(labels@) =~= seq![
            JsonV::Text("覆盖"@),
            JsonV::Text("适应"@),
            JsonV::Text("拉伸"@),
            JsonV::Text("平铺"@),
        ]);
    }
    let ghost name_model = values_view(names@);
    let ghost label_model = values_view(labels@);
    let pairs: Vec<(&str, Json)> = vec![
        ("type", text_json("string")),
        ("title", text_json("填充方式")),
        ("enum", Json::Array(names)),
        ("enumLabels", Json::Array(labels)),
    ];
    assert(pairs_view(pairs@) =~= seq![
        ("type"@, JsonV::Text("string"@)),
        ("title"@, JsonV::Text("填充方式"@)),
        ("enum"@, JsonV::Array(name_model)),
        ("enumLabels"@, JsonV::Array(label_model)),
    ]);
    object_of(pairs)
}

/// The settings schema of a plugin that brings none.
pub fn default_settings_schema() -> (r: Json)
    ensures
        r@ == default_schema(),
{
    let fields: Vec<(&str, Json)> = vec![
        ("fit", make_fit_field()),
        ("positionX", make_number_field("水平位置", int_json(0), int_json(100), int_json(1))),
        ("positionY", make_number_field("垂直位置", int_json(0), int_json(100), int_json(1))),
        ("opacity", make_share_field("不透明度")),
        ("blur", make_number_field("模糊", int_json(0), int_json(40), int_json(1))),
        (
            "scale",
            make_number_field("缩放", int_json(1), decimal_json("1.3"), decimal_json("0.01")),
        ),
        ("overlayColor", make_color_field("遮罩颜色")),
        (
            "overlayOpacity",
            make_number_field(
                "遮罩不透明度",
                int_json(0),
                decimal_json("0.9"),
                decimal_json("0.01"),
            ),
        ),
        ("blockFillOpacity", make_share_field("色块填充")),
        ("homeIntensity", make_share_field("主页强度")),
        ("taskIntensity", make_share_field("任务页强度")),
        ("sidebarOpacity", make_share_field("侧栏不透明度")),
        ("surfaceOpacity", make_share_field("表面不透明度")),
        ("cardOpacity", make_share_field("卡片不透明度")),
        ("composerOpacity", make_share_field("输入区不透明度")),
        ("menuOpacity", make_share_field("菜单不透明度")),
        ("terminalOpacity", make_share_field("终端不透明度")),
        ("enabledOnHome", make_flag_field("主页启用")),
        ("enabledOnTasks", make_flag_field("任务页启用")),
        ("videoMuted", make_flag_field("视频静音")),
        (
            "videoPlaybackRate",
            make_number_field(
                "视频倍速",
                decimal_json("0.25"),
                int_json(2),
                decimal_json("0.05"),
            ),
        ),
    ];
    assert(pairs_view(fields@) =~= default_properties());
    let whole: Vec<(&str, Json)> = vec![
        ("type", text_json("object")),
        ("properties", object_of(fields)),
    ];
    assert(pairs_view(whole@) =~= seq![
        ("type"@, JsonV::Text("object"@)),
        ("properties"@, JsonV::Object(collected(default_properties()))),
    ]);
    object_of(whole)
}

// ---------------------------------------------------------------------------
// Single display fields
// ---------------------------------------------------------------------------

/// The number that an incoming value stands for: a JSON number, or a text that
/// denotes one.
pub open spec fn number_from(value: Option<JsonV>) -> Option<u64> {
    match value {
        Some(v) => match v.as_double() {
            Some(bits) => Some(bits),
            None => match v.as_str() {
                Some(text) => text_as_double(text),
                None => None,
            },
        },
        None => None,
    }
}

fn read_number(value: Option<&Json>) -> (r: Option<Double>)
    ensures
        match r {
            Some(d) => number_from(opt_json(value)) == Some(d@) && is_finite(d@),
            None => number_from(opt_json(value)) is None,
        },
{
    match value {
        Some(v) => match v.as_double() {
            Some(d) => Some(d),
            None => match v.as_str() {
                Some(text) => Double::parse(text.as_str()),
                None => None,
            },
        },
        None => None,
    }
}

/// `bits` brought between the bounds that are given.
pub open spec fn clamped(bits: u64, minimum: Option<u64>, maximum: Option<u64>) -> u64 {
    if minimum is Some && rank(bits) < rank(minimum->0) {
        minimum->0
    } else if maximum is Some && rank(bits) > rank(maximum->0) {
        maximum->0
    } else {
        bits
    }
}

/// The view of an optional double.
pub open spec fn opt_bits(d: Option<Double>) -> Option<u64> {
    match d {
        Some(value) => Some(value@),
        None => None,
    }
}

fn clamp_number(
    value: Option<&Json>,
    minimum: &Option<Double>,
    maximum: &Option<Double>,
    fallback: &Double,
) -> (r: Double)
    ensures
        r@ == clamped(
            match number_from(opt_json(value)) {
                Some(bits) => bits,
                None => fallback@,
            },
            opt_bits(*minimum),
            opt_bits(*maximum),
        ),
{
    let number = match read_number(value) {
        Some(d) => d,
        None => fallback.copy(),
    };
    if let Some(low) = minimum {
        if number.less(low) {
            return low.copy();
        }
    }
    if let Some(high) = maximum {
        if high.less(&number) {
            return high.copy();
        }
    }
    number
}

/// A colour: `#` and six hexadecimal digits.
pub open spec fn is_color(s: Seq<char>) -> bool {
    s.len() == 7 && s[0] == '#' && forall|i: int| 1 <= i < 7 ==> is_hex_digit(#[trigger] s[i])
}

pub open spec fn color_from(value: Option<JsonV>, fallback: Seq<char>) -> Seq<char> {
    match value {
        Some(JsonV::Text(text)) => if is_color(text) {
            lower(text)
        } else {
            lower(fallback)
        },
        _ => lower(fallback),
    }
}

fn check_color(s: &str) -> (r: bool)
    ensures
        r == is_color(s@),
{
    let chars = chars_of(s);
    if chars.len() != 7 || chars[0] != '#' {
        return false;
    }
    let mut i: usize = 1;
    while i < 7
        invariant
            1 <= i <= 7,
            chars@ == s@,
            chars@.len() == 7,
            forall|k: int| 1 <= k < i ==> is_hex_digit(#[trigger] s@[k]),
        decreases 7 - i,
    {
        if !hex_digit(chars[i]) {
            assert(!is_hex_digit(s@[i as int]));
            return false;
        }
        i += 1;
    }
    true
}

fn as_hex_color(value: Option<&Json>, fallback: &str) -> (r: String)
    ensures
        r@ == color_from(opt_json(value), fallback@),
{
    if let Some(v) = value {
        if let Some(text) = v.as_str() {
            if check_color(text.as_str()) {
                return lower_text(text.as_str());
            }
        }
    }
    lower_text(fallback)
}

/// One of the options is this text.
pub open spec fn offers(options: Seq<JsonV>, text: Seq<char>) -> bool {
    exists|i: int| 0 <= i < options.len() && #[trigger] options[i] == JsonV::Text(text)
}

fn check_offer(options: &Vec<Json>, text: &str) -> (r: bool)
    ensures
        r == offers(values_view(options@), text@),
{
    proof {
        lemma_values_view(options@);
    }
    let ghost model = values_view(options@);
    let mut i: usize = 0;
    while i < options.len()
        invariant
            i <= options.len(),
            model == values_view(options@),
            model.len() == options.len(),
            forall|k: int| 0 <= k < options.len() ==> #[trigger] model[k] == options@[k]@,
            forall|k: int| 0 <= k < i ==> #[trigger] model[k] != JsonV::Text(text@),
        decreases options.len() - i,
    {
        if let Some(option) = options[i].as_str() {
            if same(option.as_str(), text) {
                assert(model[i as int] == JsonV::Text(text@));
                return true;
            }
        }
        i += 1;
    }
    false
}

/// The type of a field: the one its schema gives, or that of its default.
pub open spec fn field_type(schema: Option<JsonV>, fallback: JsonV) -> Seq<char> {
    match schema {
        Some(field) => match field.get_str("type"@) {
            Some(name) => name,
            None => type_of(fallback),
        },
        None => type_of(fallback),
    }
}

pub open spec fn type_of(fallback: JsonV) -> Seq<char> {
    match fallback {
        JsonV::Bool(_) => "boolean"@,
        JsonV::Num(_) => "number"@,
        _ => "string"@,
    }
}

/// What the schema of a field holds under `key`.
pub open spec fn field_get(schema: Option<JsonV>, key: Seq<char>) -> Option<JsonV> {
    match schema {
        Some(field) => field.get(key),
        None => None,
    }
}

/// The bound that the schema of a field gives under `key`.
pub open spec fn field_bound(schema: Option<JsonV>, key: Seq<char>) -> Option<u64> {
    match field_get(schema, key) {
        Some(bound) => bound.as_double(),
        None => None,
    }
}

/// The bounds of a field are in order; a number between them exists.
pub open spec fn field_bounds_ordered(schema: Option<JsonV>, fallback: JsonV) -> bool {
    field_type(schema, fallback) == "number"@ ==> match (
        field_bound(schema, "minimum"@),
        field_bound(schema, "maximum"@),
    ) {
        (Some(low), Some(high)) => rank(low) <= rank(high),
        _ => true,
    }
}

/// An incoming display field as its schema allows it, with `fallback` in place
/// of what is not allowed.
pub open spec fn sanitized_field(
    raw: Option<JsonV>,
    schema: Option<JsonV>,
    fallback: JsonV,
) -> JsonV {
    let kind = field_type(schema, fallback);
    if kind == "boolean"@ {
        match raw {
            Some(JsonV::Bool(flag)) => JsonV::Bool(flag),
            _ => JsonV::Bool(
                match fallback {
                    JsonV::Bool(flag) => flag,
                    _ => false,
                },
            ),
        }
    } else if kind == "number"@ {
        let standing = match fallback.as_double() {
            Some(bits) => bits,
            None => 0,
        };
        JsonV::Num(
            Num::Float(
                clamped(
                    match number_from(raw) {
                        Some(bits) => bits,
                        None => standing,
                    },
                    field_bound(schema, "minimum"@),
                    field_bound(schema, "maximum"@),
                ),
            ),
        )
    } else {
        match field_get(schema, "enum"@) {
            Some(JsonV::Array(options)) => match raw {
                Some(JsonV::Text(text)) => if offers(options, text) {
                    JsonV::Text(text)
                } else {
                    fallback
                },
                _ => fallback,
            },
            _ => if field_get(schema, "format"@) == Some(JsonV::Text("color"@)) {
                JsonV::Text(
                    color_from(
                        raw,
                        match fallback {
                            JsonV::Text(text) => text,
                            _ => "#101416"@,
                        },
                    ),
                )
            } else {
                match raw {
                    Some(JsonV::Text(text)) => if byte_len(text) <= 128 {
                        JsonV::Text(text)
                    } else {
                        fallback
                    },
                    _ => fallback,
                }
            },
        }
    }
}

fn get_field<'a>(schema: Option<&'a Json>, key: &str) -> (r: Option<&'a Json>)
    ensures
        opt_json(r) == field_get(opt_json(schema), key@),
{
    match schema {
        Some(field) => field.get(key),
        None => None,
    }
}

fn get_bound(schema: Option<&Json>, key: &str) -> (r: Option<Double>)
    ensures
        opt_bits(r) == field_bound(opt_json(schema), key@),
{
    match get_field(schema, key) {
        Some(bound) => bound.as_double(),
        None => None,
    }
}

/// Whether the type of a field has this name.
fn has_type(schema: Option<&Json>, fallback: &Json, name: &str) -> (r: bool)
    ensures
        r == (field_type(opt_json(schema), fallback@) == name@),
{
    if let Some(given) = get_field(schema, "type") {
        if let Some(text) = given.as_str() {
            return same(text.as_str(), name);
        }
    }
    match fallback {
        Json::Bool(_) => same("boolean", name),
        Json::Num(_) => same("number", name),
        _ => same("string", name),
    }
}

fn sanitize_number(raw: Option<&Json>, schema: Option<&Json>, fallback: &Json) -> (r: Json)
    requires
        field_type(opt_json(schema), fallback@) == "number"@,
        field_bounds_ordered(opt_json(schema), fallback@),
        "number"@ != "boolean"@,
    ensures
        r@ == sanitized_field(opt_json(raw), opt_json(schema), fallback@),
{
    let standing = match fallback.as_double() {
        Some(d) => d,
        None => Double::of_number(&JsonNumber::PosInt(0)),
    };
    let minimum = get_bound(schema, "minimum");
    let maximum = get_bound(schema, "maximum");
    Json::Num(JsonNumber::Float(clamp_number(raw, &minimum, &maximum, &standing)))
}

/// Brings one display field into what its schema allows.
pub fn sanitize_field(raw: Option<&Json>, schema: Option<&Json>, fallback: Json) -> (r: Json)
    requires
        field_bounds_ordered(opt_json(schema), fallback@),
    ensures
        r@ == sanitized_field(opt_json(raw), opt_json(schema), fallback@),
{
    if has_type(schema, &fallback, "boolean") {
        if let Some(value) = raw {
            if let Some(flag) = value.as_bool() {
                return Json::Bool(flag);
            }
        }
        return Json::Bool(
            match fallback.as_bool() {
                Some(flag) => flag,
                None => false,
            },
        );
    }
    if has_type(schema, &fallback, "number") {
        return sanitize_number(raw, schema, &fallback);
    }
    if let Some(Json::Array(options)) = get_field(schema, "enum") {
        if let Some(value) = raw {
            if let Some(text) = value.as_str() {
                if check_offer(options, text.as_str()) {
                    return text_json(text.as_str());
                }
            }
        }
        return fallback;
    }
    let is_color_field = match get_field(schema, "format") {
        Some(Json::Text(format)) => same(format.as_str(), "color"),
        _ => false,
    };
    if is_color_field {
        let color = match fallback.as_str() {
            Some(text) => as_hex_color(raw, text.as_str()),
            None => as_hex_color(raw, "#101416"),
        };
        return Json::Text(color);
    }
    if let Some(value) = raw {
        if let Some(text) = value.as_str() {
            if byte_count(text.as_str()) <= 128 {
                return text_json(text.as_str());
            }
        }
    }
    fallback
}

// ---------------------------------------------------------------------------
// The display settings as a whole
// ---------------------------------------------------------------------------

/// The schema that holds: the given one, or the default.
pub open spec fn schema_or_default(schema: Option<JsonV>) -> JsonV {
    match schema {
        Some(value) => value,
        None => default_schema(),
    }
}

/// The properties that a schema describes.
pub open spec fn properties_of(schema: Option<JsonV>) -> Option<Seq<(Seq<char>, JsonV)>> {
    match schema_or_default(schema).get("properties"@) {
        Some(properties) => properties.as_object(),
        None => None,
    }
}

/// What stands under `key` in optional members.
pub open spec fn member_in(members: Option<Seq<(Seq<char>, JsonV)>>, key: Seq<char>) -> Option<
    JsonV,
> {
    match members {
        Some(list) => member(list, key),
        None => None,
    }
}

/// The value that a field has where nothing usable comes in.
pub open spec fn field_default(properties: Option<Seq<(Seq<char>, JsonV)>>, key: Seq<char>) -> JsonV {
    match field_get(member_in(properties, key), "default"@) {
        Some(value) => value,
        None => match member(default_members(), key) {
            Some(value) => value,
            None => JsonV::Null,
        },
    }
}

/// The members whose names the sanitized settings have, 64 at most.
pub open spec fn named_members(properties: Option<Seq<(Seq<char>, JsonV)>>) -> Seq<
    (Seq<char>, JsonV),
> {
    let all = match properties {
        Some(members) => members,
        None => default_members(),
    };
    if all.len() <= MAX_DISPLAY_KEYS {
        all
    } else {
        all.take(MAX_DISPLAY_KEYS as int)
    }
}

/// The field `key` of the sanitized settings.
pub open spec fn sanitized_value(
    incoming: Option<Seq<(Seq<char>, JsonV)>>,
    properties: Option<Seq<(Seq<char>, JsonV)>>,
    key: Seq<char>,
) -> JsonV {
    sanitized_field(
        member_in(incoming, key),
        member_in(properties, key),
        field_default(properties, key),
    )
}

/// The fields that the schema, or the default, names.
pub open spec fn sanitized_named(
    incoming: Option<Seq<(Seq<char>, JsonV)>>,
    properties: Option<Seq<(Seq<char>, JsonV)>>,
    names: Seq<(Seq<char>, JsonV)>,
) -> Seq<(Seq<char>, JsonV)> {
    Seq::new(names.len(), |i: int| (names[i].0, sanitized_value(incoming, properties, names[i].0)))
}

/// The settings with the incoming fields that are new and allowed, as long as
/// there is room.
pub open spec fn with_extras(
    out: Seq<(Seq<char>, JsonV)>,
    incoming: Seq<(Seq<char>, JsonV)>,
) -> Seq<(Seq<char>, JsonV)>
    decreases incoming.len(),
{
    if incoming.len() == 0 {
        out
    } else if member(out, incoming[0].0) is Some {
        with_extras(out, incoming.drop_first())
    } else if out.len() >= MAX_DISPLAY_KEYS {
        out
    } else if display_field_check(incoming[0].0, incoming[0].1) is Ok {
        with_extras(with_member(out, incoming[0].0, incoming[0].1), incoming.drop_first())
    } else {
        with_extras(out, incoming.drop_first())
    }
}

/// Display settings as a schema allows them. Where the schema names no
/// properties the default fields are taken, and what else comes in is kept.
pub open spec fn sanitized(value: JsonV, schema: Option<JsonV>) -> JsonV {
    let properties = properties_of(schema);
    let incoming = value.as_object();
    let named = sanitized_named(incoming, properties, named_members(properties));
    if properties is None && incoming is Some {
        JsonV::Object(with_extras(named, incoming->0))
    } else {
        JsonV::Object(named)
    }
}

/// Every number field of the schema has its bounds in order.
pub open spec fn bounds_ordered(schema: Option<JsonV>) -> bool {
    let properties = properties_of(schema);
    forall|i: int|
        0 <= i < named_members(properties).len() ==> {
            let key = (#[trigger] named_members(properties)[i]).0;
            field_bounds_ordered(member_in(properties, key), field_default(properties, key))
        }
}

fn opt_get<'a>(members: Option<&'a Members>, key: &str) -> (r: Option<&'a Json>)
    ensures
        opt_json(r) == member_in(opt_members(members), key@),
{
    match members {
        Some(list) => list.get(key),
        None => None,
    }
}

/// The model of optional members.
pub open spec fn opt_members(members: Option<&Members>) -> Option<Seq<(Seq<char>, JsonV)>> {
    match members {
        Some(list) => Some(list@),
        None => None,
    }
}

fn get_default(properties: Option<&Members>, defaults: &Members, key: &str) -> (r: Json)
    requires
        defaults@ == default_members(),
    ensures
        r@ == field_default(opt_members(properties), key@),
{
    match get_field(opt_get(properties, key), "default") {
        Some(value) => value.copy(),
        None => match defaults.get(key) {
            Some(value) => value.copy(),
            None => Json::Null,
        },
    }
}

fn get_properties(schema: &Json) -> (r: Option<&Members>)
    ensures
        opt_members(r) == properties_of(Some(schema@)),
{
    match schema.get("properties") {
        Some(properties) => properties.as_object(),
        None => None,
    }
}

/// Whether the number fields of a schema have their bounds in order, as
/// `sanitize_display` needs them. Those of the default schema have.
pub fn check_bounds(schema: Option<&Json>) -> (r: bool)
    ensures
        r == bounds_ordered(opt_json(schema)),
        schema is None ==> r,
{
    let given = match schema {
        Some(value) => value,
        None => {
            read_defaults();
            return true;
        },
    };
    let defaults = default_map();
    let properties = get_properties(given);
    let names = match properties {
        Some(members) => members,
        None => &defaults,
    };
    let ghost listed = named_members(opt_members(properties));
    let count = names.len();
    let mut i: usize = 0;
    while i < count && i < MAX_DISPLAY_KEYS
        invariant
            schema is Some,
            i <= count,
            count == names@.len(),
            i <= MAX_DISPLAY_KEYS,
            opt_members(properties) == properties_of(opt_json(schema)),
            defaults@ == default_members(),
            listed == named_members(opt_members(properties)),
            listed == (if names@.len() <= MAX_DISPLAY_KEYS {
                names@
            } else {
                names@.take(MAX_DISPLAY_KEYS as int)
            }),
            forall|k: int|
                0 <= k < i ==> field_bounds_ordered(
                    member_in(opt_members(properties), (#[trigger] listed[k]).0),
                    field_default(opt_members(properties), listed[k].0),
                ),
        decreases names@.len() - i,
    {
        let key = names.key(i).as_str();
        let field = opt_get(properties, key);
        let fallback = get_default(properties, &defaults, key);
        assert(listed[i as int].0 == key@);
        if has_type(field, &fallback, "number") {
            if let Some(low) = get_bound(field, "minimum") {
                if let Some(high) = get_bound(field, "maximum") {
                    if high.less(&low) {
                        return false;
                    }
                }
            }
        }
        i += 1;
    }
    true
}

fn keep_extras(out: Members, incoming: &Members) -> (r: Members)
    ensures
        r@ == with_extras(out@, incoming@),
{
    let mut kept = out;
    let ghost model = incoming@;
    assert(model.skip(0) == model);
    let mut i: usize = 0;
    while i < incoming.len()
        invariant
            i <= model.len(),
            model == incoming@,
            with_extras(out@, model) == with_extras(kept@, model.skip(i as int)),
        decreases model.len() - i,
    {
        let key = incoming.key(i);
        let value = incoming.value(i);
        assert(model.skip(i as int)[0] == (key@, value@));
        assert(model.skip(i as int).drop_first() == model.skip(i + 1));
        if kept.get(key.as_str()).is_none() {
            if kept.len() >= MAX_DISPLAY_KEYS {
                return kept;
            }
            if validate_display_field(key.as_str(), value).is_ok() {
                kept.insert(key.clone(), value.copy());
            }
        }
        i += 1;
    }
    kept
}

fn keep_named(
    incoming: Option<&Members>,
    properties: Option<&Members>,
    names: &Members,
    defaults: &Members,
) -> (r: Members)
    requires
        defaults@ == default_members(),
        names@ == (match properties {
            Some(members) => members@,
            None => default_members(),
        }),
        forall|i: int|
            0 <= i < named_members(opt_members(properties)).len() ==> field_bounds_ordered(
                member_in(
                    opt_members(properties),
                    (#[trigger] named_members(opt_members(properties))[i]).0,
                ),
                field_default(
                    opt_members(properties),
                    named_members(opt_members(properties))[i].0,
                ),
            ),
    ensures
        r@ == sanitized_named(
            opt_members(incoming),
            opt_members(properties),
            named_members(opt_members(properties)),
        ),
{
    let ghost listed = named_members(opt_members(properties));
    let ghost whole = sanitized_named(opt_members(incoming), opt_members(properties), listed);
    let mut out = Members::new();
    let count = names.len();
    let mut i: usize = 0;
    while i < count && i < MAX_DISPLAY_KEYS
        invariant
            i <= count,
            count == names@.len(),
            i <= MAX_DISPLAY_KEYS,
            ascending(names@),
            defaults@ == default_members(),
            listed == named_members(opt_members(properties)),
            listed == (if names@.len() <= MAX_DISPLAY_KEYS {
                names@
            } else {
                names@.take(MAX_DISPLAY_KEYS as int)
            }),
            whole == sanitized_named(opt_members(incoming), opt_members(properties), listed),
            out@ == whole.take(i as int),
            forall|k: int|
                0 <= k < listed.len() ==> field_bounds_ordered(
                    member_in(opt_members(properties), (#[trigger] listed[k]).0),
                    field_default(opt_members(properties), listed[k].0),
                ),
        decreases names@.len() - i,
    {
        let key = names.key(i);
        assert(listed[i as int].0 == key@);
        let fallback = get_default(properties, defaults, key.as_str());
        let value = sanitize_field(
            opt_get(incoming, key.as_str()),
            opt_get(properties, key.as_str()),
            fallback,
        );
        proof {
            if i > 0 {
                assert(whole.take(i as int).last() == whole[i - 1]);
                assert(whole[i - 1].0 == names@[i - 1].0);
                assert(precedes(names@[i - 1].0, names@[i as int].0));
            }
            lemma_with_member_after(out@, key@, value@);
            assert(whole.take(i + 1) == whole.take(i as int).push(whole[i as int]));
        }
        out.insert(key.clone(), value);
        i += 1;
    }
    assert(whole.take(i as int) == whole);
    out
}

/// Brings display settings into what a schema allows.
pub fn sanitize_display(value: &Json, schema: Option<&Json>) -> (r: Json)
    requires
        schema is Some ==> bounds_ordered(opt_json(schema)),
    ensures
        r@ == sanitized(value@, opt_json(schema)),
{
    let defaults = default_map();
    let fallback_schema = default_settings_schema();
    let schema = match schema {
        Some(given) => given,
        None => {
            read_defaults();
            &fallback_schema
        },
    };
    let incoming = value.as_object();
    let properties = get_properties(schema);
    let names = match properties {
        Some(members) => members,
        None => &defaults,
    };
    let out = keep_named(incoming, properties, names, &defaults);
    if properties.is_none() {
        if let Some(members) = incoming {
            return Json::Object(keep_extras(out, members));
        }
    }
    Json::Object(out)
}

/// Brings display settings into what a schema allows, or gives `None` where
/// the schema has a number field whose bounds exclude each other.
pub fn try_sanitize_display(value: &Json, schema: Option<&Json>) -> (r: Option<Json>)
    ensures
        match r {
            Some(display) => bounds_ordered(opt_json(schema)) && display@ == sanitized(
                value@,
                opt_json(schema),
            ),
            None => schema is Some && !bounds_ordered(opt_json(schema)),
        },
{
    if check_bounds(schema) {
        Some(sanitize_display(value, schema))
    } else {
        None
    }
}

// ---------------------------------------------------------------------------
// The slideshow interval
// ---------------------------------------------------------------------------

/// The bits of the double 10.
pub const SHORTEST_INTERVAL: u64 = 0x4024_0000_0000_0000;

/// The bits of the double 86400.
pub const LONGEST_INTERVAL: u64 = 0x40f5_1800_0000_0000;

/// The whole number nearest to a double between 10 and 86400; a half goes up.
/// The double is `0x10_0000_0000_0000` and its fraction, in units of a power
/// of two.
pub open spec fn rounded(bits: u64) -> int {
    let unit = pow2((1075 - bits / 0x10_0000_0000_0000) as nat) as int;
    (0x10_0000_0000_0000 + bits % 0x10_0000_0000_0000 + unit / 2) / unit
}

/// The interval in seconds that a double asks for: between 10 seconds and a
/// day, and whole.
pub open spec fn interval_of(bits: u64) -> int {
    if rank(bits) <= rank(SHORTEST_INTERVAL) {
        10
    } else if rank(bits) >= rank(LONGEST_INTERVAL) {
        86400
    } else {
        rounded(bits)
    }
}

/// Between the limits the exponent of a double is small.
proof fn lemma_exponent(bits: u64)
    requires
        SHORTEST_INTERVAL < bits < LONGEST_INTERVAL,
    ensures
        1026 <= bits / 0x10_0000_0000_0000 <= 1039,
{
}

/// An interval lies between 10 seconds and a day.
pub proof fn interval_is_within_limits(bits: u64)
    ensures
        10 <= interval_of(bits) <= 86400,
{
    vstd::arithmetic::power2::lemma2_to64();
    vstd::arithmetic::power2::lemma2_to64_rest();
    if rank(bits) > rank(SHORTEST_INTERVAL) && rank(bits) < rank(LONGEST_INTERVAL) {
        lemma_exponent(bits);
        let exponent = bits / 0x10_0000_0000_0000;
        let m = 0x10_0000_0000_0000 + bits % 0x10_0000_0000_0000;
        if exponent == 1026 {
            assert(rounded(bits) == (m + 0x1000000000000) / 0x2000000000000);
        } else if exponent == 1027 {
            assert(rounded(bits) == (m + 0x800000000000) / 0x1000000000000);
        } else if exponent == 1028 {
            assert(rounded(bits) == (m + 0x400000000000) / 0x800000000000);
        } else if exponent == 1029 {
            assert(rounded(bits) == (m + 0x200000000000) / 0x400000000000);
        } else if exponent == 1030 {
            assert(rounded(bits) == (m + 0x100000000000) / 0x200000000000);
        } else if exponent == 1031 {
            assert(rounded(bits) == (m + 0x80000000000) / 0x100000000000);
        } else if exponent == 1032 {
            assert(rounded(bits) == (m + 0x40000000000) / 0x80000000000);
        } else if exponent == 1033 {
            assert(rounded(bits) == (m + 0x20000000000) / 0x40000000000);
        } else if exponent == 1034 {
            assert(rounded(bits) == (m + 0x10000000000) / 0x20000000000);
        } else if exponent == 1035 {
            assert(rounded(bits) == (m + 0x8000000000) / 0x10000000000);
        } else if exponent == 1036 {
            assert(rounded(bits) == (m + 0x4000000000) / 0x8000000000);
        } else if exponent == 1037 {
            assert(rounded(bits) == (m + 0x2000000000) / 0x4000000000);
        } else if exponent == 1038 {
            assert(rounded(bits) == (m + 0x1000000000) / 0x2000000000);
        } else {
            assert(rounded(bits) == (m + 0x800000000) / 0x1000000000);
        }
    }
}

/// A whole number of seconds between the limits is its own interval.
pub proof fn whole_interval_is_kept(bits: u64, n: u64)
    requires
        is_whole(bits, n),
        10 <= n <= 86400,
    ensures
        interval_of(bits) == n,
{
    vstd::arithmetic::power2::lemma2_to64();
    vstd::arithmetic::power2::lemma2_to64_rest();
    let exponent = bits / 0x10_0000_0000_0000;
    let m = 0x10_0000_0000_0000 + bits % 0x10_0000_0000_0000;
    let unit = pow2((1075 - exponent) as nat) as int;
    assert(m == n * unit);
    assert(1026 <= exponent <= 1039) by {
        if exponent <= 1025 {
            let k = (1075 - exponent) as nat;
            if k > 50 {
                vstd::arithmetic::power2::lemma_pow2_strictly_increases(50, k);
            }
            assert(unit >= pow2(50));
            assert(n * unit >= 10 * 0x4_0000_0000_0000) by (nonlinear_arith)
                requires
                    n >= 10,
                    unit >= 0x4_0000_0000_0000,
            ;
        }
        if exponent >= 1040 {
            let k = (1075 - exponent) as nat;
            if k < 35 {
                vstd::arithmetic::power2::lemma_pow2_strictly_increases(k, 35);
            }
            assert(unit <= pow2(35));
            assert(n * unit <= 86400 * 0x8_0000_0000) by (nonlinear_arith)
                requires
                    0 <= n <= 86400,
                    0 <= unit <= 0x8_0000_0000,
            ;
        }
    }
    assert((n * unit + unit / 2) / unit == n) by {
        assert(unit > 0) by {
            vstd::arithmetic::power2::lemma_pow2_pos((1075 - exponent) as nat);
        }
        vstd::arithmetic::div_mod::lemma_fundamental_div_mod_converse(
            n * unit + unit / 2,
            unit,
            n as int,
            unit / 2,
        );
    }
    if exponent == 1026 {
        assert(unit == 0x2000000000000);
        assert(m == n * 0x2000000000000);
    } else if exponent == 1027 {
        assert(unit == 0x1000000000000);
        assert(m == n * 0x1000000000000);
    } else if exponent == 1028 {
        assert(unit == 0x800000000000);
        assert(m == n * 0x800000000000);
    } else if exponent == 1029 {
        assert(unit == 0x400000000000);
        assert(m == n * 0x400000000000);
    } else if exponent == 1030 {
        assert(unit == 0x200000000000);
        assert(m == n * 0x200000000000);
    } else if exponent == 1031 {
        assert(unit == 0x100000000000);
        assert(m == n * 0x100000000000);
    } else if exponent == 1032 {
        assert(unit == 0x80000000000);
        assert(m == n * 0x80000000000);
    } else if exponent == 1033 {
        assert(unit == 0x40000000000);
        assert(m == n * 0x40000000000);
    } else if exponent == 1034 {
        assert(unit == 0x20000000000);
        assert(m == n * 0x20000000000);
    } else if exponent == 1035 {
        assert(unit == 0x10000000000);
        assert(m == n * 0x10000000000);
    } else if exponent == 1036 {
        assert(unit == 0x8000000000);
        assert(m == n * 0x8000000000);
    } else if exponent == 1037 {
        assert(unit == 0x4000000000);
        assert(m == n * 0x4000000000);
    } else if exponent == 1038 {
        assert(unit == 0x2000000000);
        assert(m == n * 0x2000000000);
    } else {
        assert(unit == 0x1000000000);
        assert(m == n * 0x1000000000);
    }
}

/// The interval in seconds that a double asks for.
pub fn interval_seconds(bits: u64) -> (r: u64)
    requires
        is_finite(bits),
    ensures
        r == interval_of(bits),
        10 <= r <= 86400,
{
    proof {
        interval_is_within_limits(bits);
    }
    if bits >= 0x8000_0000_0000_0000 || bits <= SHORTEST_INTERVAL {
        return 10;
    }
    if bits >= LONGEST_INTERVAL {
        return 86400;
    }
    proof {
        lemma_exponent(bits);
        vstd::arithmetic::power2::lemma2_to64();
        vstd::arithmetic::power2::lemma2_to64_rest();
    }
    let shift: u64 = 1075 - bits / 0x10_0000_0000_0000;
    proof {
        vstd::arithmetic::power2::lemma_pow2_strictly_increases(shift as nat, 63);
        vstd::arithmetic::power2::lemma_pow2_pos(shift as nat);
        vstd::bits::lemma_u64_shl_is_mul(1, shift);
    }
    let unit: u64 = 1u64 << shift;
    proof {
        assert(unit == pow2(shift as nat));
        if shift < 49 {
            vstd::arithmetic::power2::lemma_pow2_strictly_increases(shift as nat, 49);
        }
    }
    (0x10_0000_0000_0000 + bits % 0x10_0000_0000_0000 + unit / 2) / unit
}

// ---------------------------------------------------------------------------
// Whole profiles
// ---------------------------------------------------------------------------

/// The identifiers that are not too long, each once, in the order in which
/// they first come.
pub open spec fn kept_ids(ids: Seq<Seq<char>>) -> Seq<Seq<char>>
    decreases ids.len(),
{
    if ids.len() == 0 {
        Seq::empty()
    } else {
        let kept = kept_ids(ids.drop_last());
        if byte_len(ids.last()) <= MAX_ID_BYTES && !kept.contains(ids.last()) {
            kept.push(ids.last())
        } else {
            kept
        }
    }
}

/// The texts among the values.
pub open spec fn texts_of(values: Seq<JsonV>) -> Seq<Seq<char>>
    decreases values.len(),
{
    if values.len() == 0 {
        Seq::empty()
    } else {
        match values.last() {
            JsonV::Text(text) => texts_of(values.drop_last()).push(text),
            _ => texts_of(values.drop_last()),
        }
    }
}

/// A playlist holds no identifier twice, and none that is too long.
pub proof fn kept_ids_are_distinct(ids: Seq<Seq<char>>)
    ensures
        kept_ids(ids).no_duplicates(),
        forall|i: int|
            0 <= i < kept_ids(ids).len() ==> byte_len(#[trigger] kept_ids(ids)[i])
                <= MAX_ID_BYTES && ids.contains(kept_ids(ids)[i]),
    decreases ids.len(),
{
    if ids.len() > 0 {
        let rest = ids.drop_last();
        kept_ids_are_distinct(rest);
        let kept = kept_ids(rest);
        assert forall|i: int| 0 <= i < kept_ids(ids).len() implies byte_len(
            #[trigger] kept_ids(ids)[i],
        ) <= MAX_ID_BYTES && ids.contains(kept_ids(ids)[i]) by {
            if i < kept.len() {
                assert(kept_ids(ids)[i] == kept[i]);
                assert(rest.contains(kept[i]));
                let j = choose|j: int| 0 <= j < rest.len() && rest[j] == kept[i];
                assert(ids[j] == kept[i]);
            } else {
                assert(ids[ids.len() - 1] == kept_ids(ids)[i]);
            }
        }
    }
}

/// A playlist that is as it should be is kept as it is.
pub proof fn distinct_ids_are_kept(ids: Seq<Seq<char>>)
    requires
        ids.no_duplicates(),
        forall|i: int| 0 <= i < ids.len() ==> byte_len(#[trigger] ids[i]) <= MAX_ID_BYTES,
    ensures
        kept_ids(ids) == ids,
    decreases ids.len(),
{
    if ids.len() > 0 {
        let rest = ids.drop_last();
        assert forall|i: int| 0 <= i < rest.len() implies byte_len(#[trigger] rest[i])
            <= MAX_ID_BYTES by {
            assert(rest[i] == ids[i]);
        }
        distinct_ids_are_kept(rest);
        if rest.contains(ids.last()) {
            let j = choose|j: int| 0 <= j < rest.len() && rest[j] == ids.last();
            assert(ids[j] == ids[ids.len() - 1]);
        }
        assert(rest.push(ids.last()) == ids);
        assert(byte_len(ids[ids.len() - 1]) <= MAX_ID_BYTES);
    }
}

/// Adds an identifier to a playlist, where it may stand there.
fn keep_id(kept: &mut Vec<String>, id: &str)
    ensures
        list_view(final(kept)@) == (if byte_len(id@) <= MAX_ID_BYTES && !list_view(
            old(kept)@,
        ).contains(id@) {
            list_view(old(kept)@).push(id@)
        } else {
            list_view(old(kept)@)
        }),
{
    if byte_count(id) <= MAX_ID_BYTES && !contains_item(kept, id) {
        let ghost before = kept@;
        kept.push(id.to_string());
        assert(list_view(kept@) =~= list_view(before).push(id@));
    }
}

/// An identifier that a profile can hold.
pub open spec fn usable_id(id: Option<Seq<char>>) -> Option<Seq<char>> {
    match id {
        Some(text) => if text.len() > 0 && byte_len(text) <= MAX_ID_BYTES {
            Some(text)
        } else {
            None
        },
        None => None,
    }
}

fn keep_usable(id: Option<&String>) -> (r: Option<String>)
    ensures
        opt_view(r) == usable_id(
            match id {
                Some(text) => Some(text@),
                None => None,
            },
        ),
{
    match id {
        Some(text) => if !text.as_str().is_empty() && byte_count(text.as_str()) <= MAX_ID_BYTES {
            Some(text.clone())
        } else {
            None
        },
        None => None,
    }
}

/// The slideshow settings that a stored value asks for.
pub open spec fn slideshow_from(value: JsonV) -> SlideshowSettings {
    SlideshowSettings {
        enabled: match value.get("enabled"@) {
            Some(JsonV::Bool(flag)) => flag,
            _ => false,
        },
        interval_seconds: match number_from(value.get("intervalSeconds"@)) {
            Some(bits) => interval_of(bits) as u64,
            None => 300,
        },
        order: match value.get_str("order"@) {
            Some(name) => match order_named(name) {
                Some(order) => order,
                None => SlideshowOrder::Sequential,
            },
            None => SlideshowOrder::Sequential,
        },
    }
}

/// What stands under `key`, or null.
pub open spec fn part_of(value: JsonV, key: Seq<char>) -> JsonV {
    match value.get(key) {
        Some(part) => part,
        None => JsonV::Null,
    }
}

/// The profile that a stored value stands for, under a settings schema.
pub open spec fn normalized(value: JsonV, schema: Option<JsonV>) -> ProfileV {
    ProfileV {
        schema_version: 1,
        active_media_id: usable_id(value.get_str("activeMediaId"@)),
        playlist_ids: match value.get("playlistIds"@) {
            Some(JsonV::Array(values)) => kept_ids(texts_of(values)),
            _ => Seq::empty(),
        },
        display: sanitized(part_of(value, "display"@), schema),
        slideshow: slideshow_from(part_of(value, "slideshow"@)),
    }
}

fn read_slideshow(value: &Json) -> (r: SlideshowSettings)
    ensures
        r == slideshow_from(value@),
{
    let enabled = match value.get("enabled") {
        Some(flag) => match flag.as_bool() {
            Some(on) => on,
            None => false,
        },
        None => false,
    };
    let interval: u64 = match read_number(value.get("intervalSeconds")) {
        Some(number) => interval_seconds(number.bits()),
        None => 300,
    };
    let order = match value.get_str("order") {
        Some(name) => match slideshow_order(name.as_str()) {
            Some(order) => order,
            None => SlideshowOrder::Sequential,
        },
        None => SlideshowOrder::Sequential,
    };
    SlideshowSettings { enabled, interval_seconds: interval, order }
}

fn read_playlist(values: &Vec<Json>) -> (r: Vec<String>)
    ensures
        list_view(r@) == kept_ids(texts_of(values_view(values@))),
{
    let ghost model = values_view(values@);
    proof {
        lemma_values_view(values@);
        assert(model.take(0).len() == 0);
    }
    let mut kept: Vec<String> = Vec::new();
    assert(list_view(kept@) =~= Seq::empty());
    let mut i: usize = 0;
    while i < values.len()
        invariant
            i <= values.len(),
            model == values_view(values@),
            model.len() == values.len(),
            forall|k: int| 0 <= k < values.len() ==> #[trigger] model[k] == values@[k]@,
            list_view(kept@) == kept_ids(texts_of(model.take(i as int))),
        decreases values.len() - i,
    {
        proof {
            assert(model.take(i + 1).drop_last() == model.take(i as int));
            assert(model.take(i + 1).last() == values@[i as int]@);
        }
        if let Some(text) = values[i].as_str() {
            keep_id(&mut kept, text.as_str());
            proof {
                let before = texts_of(model.take(i as int));
                assert(before.push(text@).drop_last() == before);
            }
        }
        i += 1;
    }
    assert(model.take(i as int) == model);
    kept
}

/// Reads a stored profile under a settings schema; without one the default
/// schema holds.
pub fn normalize_profile_with_schema(value: &Json, schema: Option<&Json>) -> (r: PluginProfile)
    requires
        schema is Some ==> bounds_ordered(opt_json(schema)),
    ensures
        r@ == normalized(value@, opt_json(schema)),
        is_normal(r@, opt_json(schema)),
{
    // The members of an object are in order.
    if let Some(shape) = schema {
        if let Some(properties) = get_properties(shape) {
            let _count: usize = properties.len();
        }
    } else {
        read_defaults();
    }
    proof {
        normalized_profile_is_normal(value@, opt_json(schema));
    }
    let nothing = Json::Null;
    let playlist_ids = match value.get("playlistIds") {
        Some(Json::Array(values)) => read_playlist(values),
        _ => {
            let none: Vec<String> = Vec::new();
            assert(list_view(none@) =~= Seq::empty());
            none
        },
    };
    let display = match value.get("display") {
        Some(part) => sanitize_display(part, schema),
        None => sanitize_display(&nothing, schema),
    };
    let slideshow = match value.get("slideshow") {
        Some(part) => read_slideshow(part),
        None => read_slideshow(&nothing),
    };
    PluginProfile {
        schema_version: 1,
        active_media_id: keep_usable(value.get_str("activeMediaId")),
        playlist_ids,
        display,
        slideshow,
    }
}

/// Reads a stored profile under the default settings schema.
pub fn normalize_profile(value: &Json) -> (r: PluginProfile)
    ensures
        r@ == normalized(value@, None),
        is_normal(r@, None),
{
    normalize_profile_with_schema(value, None)
}

/// The display settings with the incoming members set.
pub open spec fn merged(
    members: Seq<(Seq<char>, JsonV)>,
    incoming: Seq<(Seq<char>, JsonV)>,
) -> Seq<(Seq<char>, JsonV)>
    decreases incoming.len(),
{
    if incoming.len() == 0 {
        members
    } else {
        with_member(
            merged(members, incoming.drop_last()),
            incoming.last().0,
            incoming.last().1,
        )
    }
}

/// The members of a value, or none.
pub open spec fn members_of(value: JsonV) -> Seq<(Seq<char>, JsonV)> {
    match value {
        JsonV::Object(members) => members,
        _ => Seq::empty(),
    }
}

/// The slideshow settings after a change.
pub open spec fn patched_slideshow(
    slideshow: SlideshowSettings,
    patch: SlideshowPatch,
) -> SlideshowSettings {
    SlideshowSettings {
        enabled: match patch.enabled {
            Some(enabled) => enabled,
            None => slideshow.enabled,
        },
        interval_seconds: match patch.interval_seconds {
            Some(bits) => if is_finite(bits) {
                interval_of(bits) as u64
            } else {
                slideshow.interval_seconds
            },
            None => slideshow.interval_seconds,
        },
        order: match patch.order {
            Some(order) => order,
            None => slideshow.order,
        },
    }
}

/// A profile after a change.
pub open spec fn patched(profile: ProfileV, patch: PatchV) -> ProfileV {
    ProfileV {
        schema_version: profile.schema_version,
        active_media_id: match patch.active_media_id {
            Some(id) => usable_id(id),
            None => profile.active_media_id,
        },
        playlist_ids: match patch.playlist_ids {
            Some(ids) => kept_ids(ids),
            None => profile.playlist_ids,
        },
        display: match patch.display {
            Some(display) => JsonV::Object(
                merged(members_of(profile.display), members_of(display)),
            ),
            None => profile.display,
        },
        slideshow: match patch.slideshow {
            Some(change) => patched_slideshow(profile.slideshow, change),
            None => profile.slideshow,
        },
    }
}

fn keep_ids(ids: &Vec<String>) -> (r: Vec<String>)
    ensures
        list_view(r@) == kept_ids(list_view(ids@)),
{
    let ghost model = list_view(ids@);
    assert(model.take(0).len() == 0);
    let mut kept: Vec<String> = Vec::new();
    assert(list_view(kept@) =~= Seq::empty());
    let mut i: usize = 0;
    while i < ids.len()
        invariant
            i <= ids.len(),
            model == list_view(ids@),
            list_view(kept@) == kept_ids(model.take(i as int)),
        decreases ids.len() - i,
    {
        proof {
            assert(model.take(i + 1).drop_last() == model.take(i as int));
            assert(model.take(i + 1).last() == ids@[i as int]@);
        }
        keep_id(&mut kept, ids[i].as_str());
        i += 1;
    }
    assert(model.take(i as int) == model);
    kept
}

fn merge_display(current: &Json, incoming: &Json) -> (r: Json)
    ensures
        r@ == JsonV::Object(merged(members_of(current@), members_of(incoming@))),
{
    let mut members = match current {
        Json::Object(members) => members.copy(),
        _ => Members::new(),
    };
    let ghost start = members@;
    let ghost model = members_of(incoming@);
    assert(start == members_of(current@));
    if let Json::Object(list) = incoming {
        assert(model.take(0).len() == 0);
        let mut i: usize = 0;
        while i < list.len()
            invariant
                i <= model.len(),
                model == list@,
                members@ == merged(start, model.take(i as int)),
            decreases model.len() - i,
        {
            members.insert(list.key(i).clone(), list.value(i).copy());
            proof {
                assert(model.take(i + 1).drop_last() == model.take(i as int));
                assert(model.take(i + 1).last() == model[i as int]);
            }
            i += 1;
        }
        assert(model.take(i as int) == model);
    }
    Json::Object(members)
}

fn patch_slideshow(slideshow: SlideshowSettings, patch: SlideshowPatch) -> (r: SlideshowSettings)
    ensures
        r == patched_slideshow(slideshow, patch),
{
    let mut out = slideshow;
    if let Some(enabled) = patch.enabled {
        out.enabled = enabled;
    }
    if let Some(bits) = patch.interval_seconds {
        if bits % 0x8000_0000_0000_0000 < 0x7ff0_0000_0000_0000 {
            out.interval_seconds = interval_seconds(bits);
        }
    }
    if let Some(order) = patch.order {
        out.order = order;
    }
    out
}

/// Changes a profile.
pub fn apply_patch(profile: &mut PluginProfile, patch: ProfilePatch)
    ensures
        final(profile)@ == patched(old(profile)@, patch@),
{
    if let Some(id) = &patch.active_media_id {
        profile.active_media_id = match id {
            Some(text) => keep_usable(Some(text)),
            None => None,
        };
    }
    if let Some(ids) = &patch.playlist_ids {
        profile.playlist_ids = keep_ids(ids);
    }
    if let Some(display) = &patch.display {
        profile.display = merge_display(&profile.display, display);
    }
    if let Some(change) = patch.slideshow {
        profile.slideshow = patch_slideshow(profile.slideshow, change);
    }
}

// ---------------------------------------------------------------------------
// Stored profiles
// ---------------------------------------------------------------------------

pub open spec fn order_name(order: SlideshowOrder) -> Seq<char> {
    match order {
        SlideshowOrder::Sequential => "sequential"@,
        SlideshowOrder::Random => "random"@,
    }
}

pub open spec fn slideshow_json(slideshow: SlideshowSettings) -> JsonV {
    JsonV::Object(
        collected(
            seq![
                ("enabled"@, JsonV::Bool(slideshow.enabled)),
                ("intervalSeconds"@, whole(slideshow.interval_seconds)),
                ("order"@, JsonV::Text(order_name(slideshow.order))),
            ],
        ),
    )
}

/// The texts as JSON strings.
pub open spec fn text_values(ids: Seq<Seq<char>>) -> Seq<JsonV> {
    ids.map_values(|id: Seq<char>| JsonV::Text(id))
}

/// The JSON value in which a profile is stored.
pub open spec fn profile_json(profile: ProfileV) -> JsonV {
    JsonV::Object(
        collected(
            seq![
                ("schemaVersion"@, whole(profile.schema_version as u64)),
                ("activeMediaId"@, opt_text(profile.active_media_id)),
                ("playlistIds"@, JsonV::Array(text_values(profile.playlist_ids))),
                ("display"@, profile.display),
                ("slideshow"@, slideshow_json(profile.slideshow)),
            ],
        ),
    )
}

/// The profile is one that reading a stored value can give.
pub open spec fn is_normal(profile: ProfileV, schema: Option<JsonV>) -> bool {
    &&& profile.schema_version == 1
    &&& usable_id(profile.active_media_id) == profile.active_media_id
    &&& kept_ids(profile.playlist_ids) == profile.playlist_ids
    &&& sanitized(profile.display, schema) == profile.display
    &&& 10 <= profile.slideshow.interval_seconds <= 86400
}

proof fn lemma_texts_of(ids: Seq<Seq<char>>)
    ensures
        texts_of(text_values(ids)) == ids,
    decreases ids.len(),
{
    if ids.len() > 0 {
        lemma_texts_of(ids.drop_last());
        assert(text_values(ids).drop_last() =~= text_values(ids.drop_last()));
        assert(ids.drop_last().push(ids.last()) =~= ids);
    } else {
        assert(texts_of(text_values(ids)) =~= ids);
    }
}

/// What a stored profile holds under each name.
proof fn lemma_profile_members(profile: ProfileV)
    ensures
        profile_json(profile).get("activeMediaId"@) == Some(opt_text(profile.active_media_id)),
        profile_json(profile).get("playlistIds"@) == Some(
            JsonV::Array(text_values(profile.playlist_ids)),
        ),
        profile_json(profile).get("display"@) == Some(profile.display),
        profile_json(profile).get("slideshow"@) == Some(slideshow_json(profile.slideshow)),
{
    let pairs = seq![
        ("schemaVersion"@, whole(profile.schema_version as u64)),
        ("activeMediaId"@, opt_text(profile.active_media_id)),
        ("playlistIds"@, JsonV::Array(text_values(profile.playlist_ids))),
        ("display"@, profile.display),
        ("slideshow"@, slideshow_json(profile.slideshow)),
    ];
    lemma_collected_member(pairs, "activeMediaId"@);
    lemma_collected_member(pairs, "playlistIds"@);
    lemma_collected_member(pairs, "display"@);
    lemma_collected_member(pairs, "slideshow"@);
    reveal_strlit("activeMediaId");
    reveal_strlit("playlistIds");
    reveal_strlit("display");
    reveal_strlit("slideshow");
    assert("slideshow"@.len() == 9 && "display"@.len() == 7 && "playlistIds"@.len() == 11
        && "activeMediaId"@.len() == 13);
    reveal_with_fuel(member, 5);
    assert(pairs.drop_last() =~= pairs.take(4));
    assert(pairs.take(4).drop_last() =~= pairs.take(3));
    assert(pairs.take(3).drop_last() =~= pairs.take(2));
    assert(member(pairs.take(2), "activeMediaId"@) == Some(pairs[1].1));
    assert(member(pairs.take(3), "activeMediaId"@) == Some(pairs[1].1));
    assert(member(pairs.take(4), "activeMediaId"@) == Some(pairs[1].1));
    assert(member(pairs.take(3), "playlistIds"@) == Some(pairs[2].1));
    assert(member(pairs.take(4), "playlistIds"@) == Some(pairs[2].1));
    assert(member(pairs.take(4), "display"@) == Some(pairs[3].1));
}

proof fn lemma_slideshow_members(slideshow: SlideshowSettings)
    ensures
        slideshow_json(slideshow).get("enabled"@) == Some(JsonV::Bool(slideshow.enabled)),
        slideshow_json(slideshow).get("intervalSeconds"@) == Some(
            whole(slideshow.interval_seconds),
        ),
        slideshow_json(slideshow).get("order"@) == Some(JsonV::Text(order_name(slideshow.order))),
        order_named(order_name(slideshow.order)) == Some(slideshow.order),
{
    let pairs = seq![
        ("enabled"@, JsonV::Bool(slideshow.enabled)),
        ("intervalSeconds"@, whole(slideshow.interval_seconds)),
        ("order"@, JsonV::Text(order_name(slideshow.order))),
    ];
    lemma_collected_member(pairs, "enabled"@);
    lemma_collected_member(pairs, "intervalSeconds"@);
    lemma_collected_member(pairs, "order"@);
    reveal_strlit("enabled");
    reveal_strlit("intervalSeconds");
    reveal_strlit("order");
    reveal_strlit("random");
    reveal_strlit("sequential");
    assert("enabled"@.len() == 7 && "intervalSeconds"@.len() == 15 && "order"@.len() == 5);
    assert("random"@.len() == 6 && "sequential"@.len() == 10);
    assert(pairs.drop_last() =~= pairs.take(2));
    assert(pairs.take(2).drop_last() =~= pairs.take(1));
    assert(member(pairs.take(1), "enabled"@) == Some(pairs[0].1));
    assert(member(pairs.take(2), "enabled"@) == Some(pairs[0].1));
    assert(member(pairs.take(2), "intervalSeconds"@) == Some(pairs[1].1));
}

/// Reading back what was stored gives the profile, where the number of seconds
/// is read back as it is.
proof fn lemma_reads_back(profile: ProfileV, schema: Option<JsonV>)
    requires
        is_normal(profile, schema),
        ({
            let bits = number_as_double(Num::PosInt(profile.slideshow.interval_seconds));
            is_whole(bits, profile.slideshow.interval_seconds)
        }),
    ensures
        normalized(profile_json(profile), schema) == profile,
{
    lemma_profile_members(profile);
    lemma_slideshow_members(profile.slideshow);
    lemma_texts_of(profile.playlist_ids);
    let bits = number_as_double(Num::PosInt(profile.slideshow.interval_seconds));
    whole_interval_is_kept(bits, profile.slideshow.interval_seconds);
    let stored = slideshow_json(profile.slideshow);
    assert(number_from(stored.get("intervalSeconds"@)) == Some(bits));
    assert(slideshow_from(stored) == profile.slideshow);
}

/// Texts as JSON strings.
pub fn text_list(ids: &Vec<String>) -> (r: Vec<Json>)
    ensures
        values_view(r@) == text_values(list_view(ids@)),
{
    let mut out: Vec<Json> = Vec::new();
    let mut i: usize = 0;
    while i < ids.len()
        invariant
            i <= ids.len(),
            out.len() == i,
            forall|k: int| 0 <= k < i ==> (#[trigger] out@[k])@ == JsonV::Text(ids@[k]@),
        decreases ids.len() - i,
    {
        out.push(text_json(ids[i].as_str()));
        i += 1;
    }
    proof {
        lemma_values_view(out@);
        assert(values_view(out@) =~= text_values(list_view(ids@)));
    }
    out
}

/// The JSON value in which a profile is stored. Reading it gives the profile
/// back.
pub fn profile_value(profile: &PluginProfile) -> (r: Json)
    ensures
        r@ == profile_json(profile@),
        forall|schema: Option<JsonV>|
            is_normal(profile@, schema) ==> #[trigger] normalized(r@, schema) == profile@,
{
    let slideshow: Vec<(&str, Json)> = vec![
        ("enabled", Json::Bool(profile.slideshow.enabled)),
        ("intervalSeconds", int_json(profile.slideshow.interval_seconds)),
        (
            "order",
            text_json(
                match profile.slideshow.order {
                    SlideshowOrder::Sequential => "sequential",
                    SlideshowOrder::Random => "random",
                },
            ),
        ),
    ];
    assert(pairs_view(slideshow@) =~= seq![
        ("enabled"@, JsonV::Bool(profile.slideshow.enabled)),
        ("intervalSeconds"@, whole(profile.slideshow.interval_seconds)),
        ("order"@, JsonV::Text(order_name(profile.slideshow.order))),
    ]);
    let pairs: Vec<(&str, Json)> = vec![
        ("schemaVersion", int_json(profile.schema_version as u64)),
        ("activeMediaId", opt_text_json(&profile.active_media_id)),
        ("playlistIds", Json::Array(text_list(&profile.playlist_ids))),
        ("display", profile.display.copy()),
        ("slideshow", object_of(slideshow)),
    ];
    let ghost model = profile@;
    assert(pairs_view(pairs@) =~= seq![
        ("schemaVersion"@, whole(model.schema_version as u64)),
        ("activeMediaId"@, opt_text(model.active_media_id)),
        ("playlistIds"@, JsonV::Array(text_values(model.playlist_ids))),
        ("display"@, model.display),
        ("slideshow"@, slideshow_json(model.slideshow)),
    ]);
    // The double that the stored interval is read back as.
    let _seconds = Double::of_number(&JsonNumber::PosInt(profile.slideshow.interval_seconds));
    proof {
        assert forall|schema: Option<JsonV>| is_normal(model, schema) implies #[trigger] normalized(
            profile_json(model),
            schema,
        ) == model by {
            lemma_reads_back(model, schema);
        }
    }
    object_of(pairs)
}

proof fn lemma_profile_survives(profile: ProfileV)
    requires
        survives(profile.display, (MAX_NESTING - 1) as nat),
    ensures
        survives(profile_json(profile), MAX_NESTING as nat),
{
    lemma_collected_survives(
        seq![
            ("enabled"@, JsonV::Bool(profile.slideshow.enabled)),
            ("intervalSeconds"@, whole(profile.slideshow.interval_seconds)),
            ("order"@, JsonV::Text(order_name(profile.slideshow.order))),
        ],
        125,
    );
    let ids = text_values(profile.playlist_ids);
    assert forall|i: int| 0 <= i < ids.len() implies survives(#[trigger] ids[i], 125) by {
        assert(ids[i] is Text);
    }
    assert(survives(JsonV::Array(ids), 126));
    lemma_collected_survives(
        seq![
            ("schemaVersion"@, whole(profile.schema_version as u64)),
            ("activeMediaId"@, opt_text(profile.active_media_id)),
            ("playlistIds"@, JsonV::Array(text_values(profile.playlist_ids))),
            ("display"@, profile.display),
            ("slideshow"@, slideshow_json(profile.slideshow)),
        ],
        126,
    );
}

proof fn lemma_profile_readable(profile: ProfileV)
    requires
        readable(profile.display, (MAX_NESTING - 1) as nat),
    ensures
        readable(profile_json(profile), MAX_NESTING as nat),
{
    lemma_collected_readable(
        seq![
            ("enabled"@, JsonV::Bool(profile.slideshow.enabled)),
            ("intervalSeconds"@, whole(profile.slideshow.interval_seconds)),
            ("order"@, JsonV::Text(order_name(profile.slideshow.order))),
        ],
        125,
    );
    let ids = text_values(profile.playlist_ids);
    assert forall|i: int| 0 <= i < ids.len() implies readable(#[trigger] ids[i], 125) by {
        assert(ids[i] is Text);
    }
    assert(readable(JsonV::Array(ids), 126));
    lemma_collected_readable(
        seq![
            ("schemaVersion"@, whole(profile.schema_version as u64)),
            ("activeMediaId"@, opt_text(profile.active_media_id)),
            ("playlistIds"@, JsonV::Array(text_values(profile.playlist_ids))),
            ("display"@, profile.display),
            ("slideshow"@, slideshow_json(profile.slideshow)),
        ],
        126,
    );
}

proof fn lemma_alike_field(
    a: Option<JsonV>,
    b: Option<JsonV>,
    schema: Option<JsonV>,
    fallback: JsonV,
)
    requires
        alike_found(a, b),
    ensures
        alike(sanitized_field(a, schema, fallback), sanitized_field(b, schema, fallback)),
{
    lemma_alike_itself(sanitized_field(a, schema, fallback));
    lemma_alike_itself(sanitized_field(b, schema, fallback));
    lemma_alike_itself(fallback);
}

/// None of the members is a double that is not finite.
spec fn finite_members(members: Seq<(Seq<char>, JsonV)>) -> bool {
    forall|i: int|
        0 <= i < members.len() ==> ((#[trigger] members[i]).1 matches JsonV::Num(Num::Float(bits))
            ==> is_finite(bits))
}

proof fn lemma_alike_extras(
    a: Seq<(Seq<char>, JsonV)>,
    b: Seq<(Seq<char>, JsonV)>,
    more: Seq<(Seq<char>, JsonV)>,
    other: Seq<(Seq<char>, JsonV)>,
)
    requires
        alike_members(a, b),
        alike_members(more, other),
        finite_members(more),
        finite_members(other),
    ensures
        alike_members(with_extras(a, more), with_extras(b, other)),
    decreases more.len(),
{
    if more.len() > 0 {
        let rest = more.drop_first();
        let left = other.drop_first();
        assert forall|i: int| 0 <= i < rest.len() implies (#[trigger] rest[i]).0 == left[i].0
            && alike(rest[i].1, left[i].1) by {
            assert(more[i + 1].0 == other[i + 1].0);
        }
        assert forall|i: int| 0 <= i < rest.len() implies ((
        #[trigger] rest[i]).1 matches JsonV::Num(Num::Float(bits)) ==> is_finite(bits)) by {
            assert(rest[i] == more[i + 1]);
        }
        assert forall|i: int| 0 <= i < left.len() implies ((
        #[trigger] left[i]).1 matches JsonV::Num(Num::Float(bits)) ==> is_finite(bits)) by {
            assert(left[i] == other[i + 1]);
        }
        assert(more[0].0 == other[0].0 && alike(more[0].1, other[0].1));
        lemma_alike_member(a, b, more[0].0);
        lemma_alike_with_member(a, b, more[0].0, more[0].1, other[0].1);
        assert(display_field_check(more[0].0, more[0].1) is Ok <==> display_field_check(
            other[0].0,
            other[0].1,
        ) is Ok);
        lemma_alike_extras(a, b, rest, left);
        lemma_alike_extras(
            with_member(a, more[0].0, more[0].1),
            with_member(b, other[0].0, other[0].1),
            rest,
            left,
        );
    }
}

/// Settings that are alike are sanitized alike.
proof fn lemma_alike_display(a: JsonV, b: JsonV, schema: Option<JsonV>)
    requires
        alike(a, b),
        all_finite(a),
        b matches JsonV::Object(members) && finite_members(members),
    ensures
        alike(sanitized(a, schema), sanitized(b, schema)),
{
    let properties = properties_of(schema);
    let names = named_members(properties);
    let more = a->Object_0;
    let other = b->Object_0;
    assert(alike_members(more, other));
    let left = sanitized_named(Some(more), properties, names);
    let right = sanitized_named(Some(other), properties, names);
    assert forall|i: int| 0 <= i < names.len() implies (#[trigger] left[i]).0 == right[i].0
        && alike(left[i].1, right[i].1) by {
        lemma_alike_member(more, other, names[i].0);
        lemma_alike_field(
            member(more, names[i].0),
            member(other, names[i].0),
            member_in(properties, names[i].0),
            field_default(properties, names[i].0),
        );
    }
    assert(alike_members(left, right));
    assert forall|i: int| 0 <= i < more.len() implies ((
    #[trigger] more[i]).1 matches JsonV::Num(Num::Float(bits)) ==> is_finite(bits)) by {
        assert(all_finite(more[i].1));
    }
    lemma_alike_extras(left, right, more, other);
}

/// The value is no list and no object, and where it is a double it is not close
/// to the greatest.
spec fn is_tame(v: JsonV) -> bool {
    match v {
        JsonV::Num(Num::Float(bits)) => is_moderate(bits),
        JsonV::Array(_) => false,
        JsonV::Object(_) => false,
        _ => true,
    }
}

/// The first number is not above the second.
spec fn in_order(low: JsonV, high: JsonV) -> bool {
    rank(low.as_double()->0) <= rank(high.as_double()->0)
}

/// The property names no default of its own, and where it is a number it has
/// bounds that are in order and not close to the greatest double.
spec fn is_tame_property(v: JsonV) -> bool {
    &&& v is Object
    &&& v.get("default"@) is None
    &&& v.get_str("type"@) matches Some(name) && (name == "number"@ ==> {
        &&& v.get("minimum"@) matches Some(low) && is_moderate_number(low)
        &&& v.get("maximum"@) matches Some(high) && is_moderate_number(high)
        &&& in_order(v.get("minimum"@)->0, v.get("maximum"@)->0)
    })
}

proof fn lemma_number_field(title: Seq<char>, minimum: JsonV, maximum: JsonV, step: JsonV)
    requires
        is_moderate_number(minimum),
        is_moderate_number(maximum),
        in_order(minimum, maximum),
    ensures
        is_tame_property(number_field(title, minimum, maximum, step)),
{
    let pairs = seq![
        ("type"@, JsonV::Text("number"@)),
        ("title"@, JsonV::Text(title)),
        ("minimum"@, minimum),
        ("maximum"@, maximum),
        ("step"@, step),
    ];
    reveal_strlit("type");
    reveal_strlit("title");
    reveal_strlit("minimum");
    reveal_strlit("maximum");
    reveal_strlit("step");
    reveal_strlit("default");
    assert("type"@[0] == 't' && "title"@[1] == 'i' && "type"@[1] == 'y' && "step"@[0] == 's');
    assert("minimum"@[1] == 'i' && "minimum"@[0] == 'm' && "maximum"@[0] == 'm'
        && "maximum"@[1] == 'a');
    assert("title"@[0] == 't' && "default"@[0] == 'd');
    assert(names_differ(pairs));
    lemma_pair_found(pairs, 0);
    lemma_pair_found(pairs, 2);
    lemma_pair_found(pairs, 3);
    lemma_pair_missing(pairs, "default"@);
    lemma_collected_member(pairs, "type"@);
    lemma_collected_member(pairs, "minimum"@);
    lemma_collected_member(pairs, "maximum"@);
    lemma_collected_member(pairs, "default"@);
}

proof fn lemma_flag_field(title: Seq<char>)
    ensures
        is_tame_property(flag_field(title)),
{
    let pairs = seq![("type"@, JsonV::Text("boolean"@)), ("title"@, JsonV::Text(title))];
    reveal_strlit("type");
    reveal_strlit("title");
    reveal_strlit("default");
    reveal_strlit("boolean");
    reveal_strlit("number");
    assert("type"@[1] == 'y' && "title"@[1] == 'i' && "title"@[0] == 't' && "type"@[0] == 't');
    assert("default"@[0] == 'd' && "boolean"@[0] == 'b' && "number"@[0] == 'n');
    assert(names_differ(pairs));
    lemma_pair_found(pairs, 0);
    lemma_pair_missing(pairs, "default"@);
    lemma_collected_member(pairs, "type"@);
    lemma_collected_member(pairs, "default"@);
}

proof fn lemma_color_field(title: Seq<char>)
    ensures
        is_tame_property(color_field(title)),
{
    let pairs = seq![
        ("type"@, JsonV::Text("string"@)),
        ("title"@, JsonV::Text(title)),
        ("format"@, JsonV::Text("color"@)),
    ];
    reveal_strlit("type");
    reveal_strlit("title");
    reveal_strlit("format");
    reveal_strlit("default");
    reveal_strlit("string");
    reveal_strlit("number");
    assert("type"@[1] == 'y' && "title"@[1] == 'i' && "title"@[0] == 't' && "type"@[0] == 't');
    assert("format"@[0] == 'f' && "default"@[0] == 'd' && "string"@[0] == 's' && "number"@[0]
        == 'n');
    assert(names_differ(pairs));
    lemma_pair_found(pairs, 0);
    lemma_pair_missing(pairs, "default"@);
    lemma_collected_member(pairs, "type"@);
    lemma_collected_member(pairs, "default"@);
}

proof fn lemma_fit_field()
    ensures
        is_tame_property(fit_field()),
{
    let options = JsonV::Array(
        seq![
            JsonV::Text("cover"@),
            JsonV::Text("contain"@),
            JsonV::Text("fill"@),
            JsonV::Text("tile"@),
        ],
    );
    let labels = JsonV::Array(
        seq![
            JsonV::Text("覆盖"@),
            JsonV::Text("适应"@),
            JsonV::Text("拉伸"@),
            JsonV::Text("平铺"@),
        ],
    );
    let pairs = seq![
        ("type"@, JsonV::Text("string"@)),
        ("title"@, JsonV::Text("填充方式"@)),
        ("enum"@, options),
        ("enumLabels"@, labels),
    ];
    reveal_strlit("type");
    reveal_strlit("title");
    reveal_strlit("enum");
    reveal_strlit("enumLabels");
    reveal_strlit("default");
    reveal_strlit("string");
    reveal_strlit("number");
    assert("type"@[1] == 'y' && "title"@[1] == 'i' && "title"@[0] == 't' && "type"@[0] == 't');
    assert("enum"@[0] == 'e' && "enumLabels"@[0] == 'e' && "default"@[0] == 'd');
    assert("enum"@.len() == 4 && "enumLabels"@.len() == 10);
    assert("string"@[0] == 's' && "number"@[0] == 'n');
    assert(names_differ(pairs));
    lemma_pair_found(pairs, 0);
    lemma_pair_missing(pairs, "default"@);
    lemma_collected_member(pairs, "type"@);
    lemma_collected_member(pairs, "default"@);
}

/// The bounds and the values of the default settings are not close to the
/// greatest double, and the bounds are in order.
spec fn defaults_are_tame() -> bool {
    &&& is_moderate_number(whole(0))
    &&& is_moderate_number(whole(1))
    &&& is_moderate_number(whole(2))
    &&& is_moderate_number(whole(40))
    &&& is_moderate_number(whole(100))
    &&& is_moderate_number(decimal_value("1.3"@))
    &&& is_moderate_number(decimal_value("0.9"@))
    &&& is_moderate_number(decimal_value("0.25"@))
    &&& in_order(whole(0), whole(1))
    &&& in_order(whole(0), whole(40))
    &&& in_order(whole(0), whole(100))
    &&& in_order(whole(1), decimal_value("1.3"@))
    &&& in_order(whole(0), decimal_value("0.9"@))
    &&& in_order(decimal_value("0.25"@), whole(2))
    &&& forall|i: int| 0 <= i < default_fields().len() ==> is_tame((#[trigger] default_fields()[i]).1)
}

proof fn lemma_default_properties()
    requires
        defaults_are_tame(),
    ensures
        forall|i: int|
            0 <= i < default_properties().len() ==> is_tame_property(
                (#[trigger] default_properties()[i]).1,
            ),
{
    assert forall|i: int| 0 <= i < default_properties().len() implies is_tame_property(
        (#[trigger] default_properties()[i]).1,
    ) by {
        let hundredth = decimal_value("0.01"@);
        if i == 0 {
            lemma_fit_field();
        } else if i == 1 {
            lemma_number_field("水平位置"@, whole(0), whole(100), whole(1));
        } else if i == 2 {
            lemma_number_field("垂直位置"@, whole(0), whole(100), whole(1));
        } else if i == 3 {
            lemma_number_field("不透明度"@, whole(0), whole(1), hundredth);
        } else if i == 4 {
            lemma_number_field("模糊"@, whole(0), whole(40), whole(1));
        } else if i == 5 {
            lemma_number_field("缩放"@, whole(1), decimal_value("1.3"@), hundredth);
        } else if i == 6 {
            lemma_color_field("遮罩颜色"@);
        } else if i == 7 {
            lemma_number_field("遮罩不透明度"@, whole(0), decimal_value("0.9"@), hundredth);
        } else if i == 8 {
            lemma_number_field("色块填充"@, whole(0), whole(1), hundredth);
        } else if i == 9 {
            lemma_number_field("主页强度"@, whole(0), whole(1), hundredth);
        } else if i == 10 {
            lemma_number_field("任务页强度"@, whole(0), whole(1), hundredth);
        } else if i == 11 {
            lemma_number_field("侧栏不透明度"@, whole(0), whole(1), hundredth);
        } else if i == 12 {
            lemma_number_field("表面不透明度"@, whole(0), whole(1), hundredth);
        } else if i == 13 {
            lemma_number_field("卡片不透明度"@, whole(0), whole(1), hundredth);
        } else if i == 14 {
            lemma_number_field("输入区不透明度"@, whole(0), whole(1), hundredth);
        } else if i == 15 {
            lemma_number_field("菜单不透明度"@, whole(0), whole(1), hundredth);
        } else if i == 16 {
            lemma_number_field("终端不透明度"@, whole(0), whole(1), hundredth);
        } else if i == 17 {
            lemma_flag_field("主页启用"@);
        } else if i == 18 {
            lemma_flag_field("任务页启用"@);
        } else if i == 19 {
            lemma_flag_field("视频静音"@);
        } else {
            lemma_number_field(
                "视频倍速"@,
                decimal_value("0.25"@),
                whole(2),
                decimal_value("0.05"@),
            );
        }
    }
}

/// What a list of pairs makes holds only what the pairs hold.
proof fn lemma_collected_holds(
    pairs: Seq<(Seq<char>, JsonV)>,
    key: Seq<char>,
    p: spec_fn(JsonV) -> bool,
)
    requires
        forall|i: int| 0 <= i < pairs.len() ==> p((#[trigger] pairs[i]).1),
    ensures
        member(collected(pairs), key) matches Some(value) ==> p(value),
{
    lemma_collected_member(pairs, key);
    if member(pairs, key) is Some {
        lemma_member_found(pairs, key);
    }
}

/// A field that a tame property sanitizes is tame.
proof fn lemma_tame_field(raw: Option<JsonV>, property: JsonV, fallback: JsonV)
    requires
        is_tame_property(property),
        is_tame(fallback),
    ensures
        is_tame(sanitized_field(raw, Some(property), fallback)),
{
    reveal_strlit("number");
    reveal_strlit("boolean");
    assert("number"@.len() == 6 && "boolean"@.len() == 7);
}

/// Settings that are normal under the default schema can be read once they are
/// written.
proof fn lemma_default_display_is_readable(display: JsonV)
    requires
        defaults_are_tame(),
        sanitized(display, None) == display,
    ensures
        readable(display, (MAX_NESTING - 1) as nat),
{
    lemma_default_schema_is_ordered();
    lemma_default_properties();
    let properties = properties_of(None);
    let names = named_members(properties);
    let members = display->Object_0;
    assert forall|i: int| 0 <= i < members.len() implies readable(
        (#[trigger] members[i]).1,
        (MAX_NESTING - 2) as nat,
    ) by {
        let key = names[i].0;
        lemma_collected_holds(default_properties(), key, |v: JsonV| is_tame_property(v));
        lemma_collected_holds(default_fields(), key, |v: JsonV| is_tame(v));
        assert(names[i] == collected(default_properties())[i]);
        lemma_member_at(collected(default_properties()), i);
        lemma_tame_field(
            member_in(display.as_object(), key),
            member_in(properties, key)->0,
            field_default(properties, key),
        );
    }
}

proof fn lemma_default_bounds_are_ordered()
    requires
        defaults_are_tame(),
    ensures
        bounds_ordered(None),
{
    lemma_default_schema_is_ordered();
    lemma_default_properties();
    let properties = properties_of(None);
    let names = named_members(properties);
    assert forall|i: int| 0 <= i < names.len() implies field_bounds_ordered(
        member_in(properties, (#[trigger] names[i]).0),
        field_default(properties, names[i].0),
    ) by {
        let key = names[i].0;
        assert(names[i] == collected(default_properties())[i]);
        lemma_member_at(collected(default_properties()), i);
        lemma_collected_holds(default_properties(), key, |v: JsonV| is_tame_property(v));
    }
}

/// Reads a whole number as the double that it stands for.
fn read_whole(n: u64)
    requires
        n < 0x20_0000_0000_0000,
    ensures
        is_moderate_number(whole(n)),
        is_whole(integer_as_double(n as int), n),
        rank(integer_as_double(n as int)) >= 0,
{
    let double = Double::of_number(&JsonNumber::PosInt(n));
    assert(is_whole(double@, n));
}

/// Reads the numbers of the default settings as the doubles that they stand for.
fn read_defaults()
    ensures
        defaults_are_tame(),
        bounds_ordered(None),
{
    read_whole(0);
    read_whole(1);
    read_whole(2);
    read_whole(40);
    read_whole(100);
    let _scale = decimal_json("1.3");
    let _opacity = decimal_json("0.9");
    let _rate = decimal_json("0.25");
    let _middle = decimal_json("50.0");
    let _image = decimal_json("0.72");
    let _nothing = decimal_json("0.0");
    let _all = decimal_json("1.0");
    let _overlay = decimal_json("0.12");
    let _block = decimal_json("0.55");
    let _task = decimal_json("0.32");
    let _sidebar = decimal_json("0.18");
    let _card = decimal_json("0.82");
    let _composer = decimal_json("0.88");
    proof {
        reveal_strlit("1.3");
        reveal_strlit("0.9");
        reveal_strlit("0.25");
        reveal_strlit("50.0");
        reveal_strlit("0.72");
        reveal_strlit("0.0");
        reveal_strlit("1.0");
        reveal_strlit("0.12");
        reveal_strlit("0.55");
        reveal_strlit("0.32");
        reveal_strlit("0.18");
        reveal_strlit("0.82");
        reveal_strlit("0.88");
        assert(has_point_at("1.3"@, 1));
        assert(has_point_at("0.9"@, 1));
        assert(has_point_at("0.25"@, 1));
        assert(has_point_at("50.0"@, 2));
        assert(has_point_at("0.72"@, 1));
        assert(has_point_at("0.0"@, 1));
        assert(has_point_at("1.0"@, 1));
        assert(has_point_at("0.12"@, 1));
        assert(has_point_at("0.55"@, 1));
        assert(has_point_at("0.32"@, 1));
        assert(has_point_at("0.18"@, 1));
        assert(has_point_at("0.82"@, 1));
        assert(has_point_at("0.88"@, 1));
        reveal_with_fuel(digits_value, 2);
        assert(digits_value("1.3"@.take(1)) == 1);
        assert(digits_value("0.9"@.take(1)) == 0);
        assert(digits_value("0.25"@.take(1)) == 0);
        lemma_default_bounds_are_ordered();
    }
}

/// What was found is the profile, but for the last digits of its display
/// settings' numbers.
pub open spec fn reads_back(found: Result<ProfileV, Seq<char>>, profile: ProfileV) -> bool {
    found matches Ok(again) && {
        &&& again.schema_version == profile.schema_version
        &&& again.active_media_id == profile.active_media_id
        &&& again.playlist_ids == profile.playlist_ids
        &&& again.slideshow == profile.slideshow
        &&& alike(again.display, profile.display)
    }
}

proof fn lemma_alike_profile(found: JsonV, profile: ProfileV, schema: Option<JsonV>)
    requires
        alike(found, profile_json(profile)),
        all_finite(found),
        is_normal(profile, schema),
        readable(profile.display, (MAX_NESTING - 1) as nat),
        normalized(profile_json(profile), schema) == profile,
    ensures
        reads_back(Ok(normalized(found, schema)), profile),
{
    let value = profile_json(profile);
    let members = found->Object_0;
    let stored = value->Object_0;
    assert(alike_members(members, stored));
    lemma_profile_members(profile);
    lemma_slideshow_members(profile.slideshow);
    lemma_alike_member(members, stored, "activeMediaId"@);
    lemma_alike_member(members, stored, "playlistIds"@);
    lemma_alike_member(members, stored, "display"@);
    lemma_alike_member(members, stored, "slideshow"@);
    let ids = found.get("playlistIds"@)->0->Array_0;
    assert(ids =~= text_values(profile.playlist_ids)) by {
        assert forall|i: int| 0 <= i < ids.len() implies ids[i] == text_values(
            profile.playlist_ids,
        )[i] by {
            assert(alike(ids[i], text_values(profile.playlist_ids)[i]));
        }
    }
    let shown = found.get("slideshow"@)->0;
    let kept = slideshow_json(profile.slideshow);
    assert(alike_members(shown->Object_0, kept->Object_0));
    lemma_alike_member(shown->Object_0, kept->Object_0, "enabled"@);
    lemma_alike_member(shown->Object_0, kept->Object_0, "intervalSeconds"@);
    lemma_alike_member(shown->Object_0, kept->Object_0, "order"@);
    assert(slideshow_from(shown) == slideshow_from(kept));
    lemma_member_is_finite(members, "display"@);
    let display = found.get("display"@)->0;
    let shown_members = profile.display->Object_0;
    assert forall|i: int| 0 <= i < shown_members.len() implies ((
    #[trigger] shown_members[i]).1 matches JsonV::Num(Num::Float(bits)) ==> is_finite(bits)) by {
        assert(readable(shown_members[i].1, (MAX_NESTING - 2) as nat));
    }
    lemma_alike_display(display, profile.display, schema);
}

proof fn lemma_member_is_finite(members: Seq<(Seq<char>, JsonV)>, key: Seq<char>)
    requires
        member(members, key) is Some,
        forall|i: int| 0 <= i < members.len() ==> all_finite((#[trigger] members[i]).1),
    ensures
        all_finite(member(members, key)->0),
    decreases members.len(),
{
    assert(all_finite(members[members.len() - 1].1));
    if members.last().0 != key {
        assert forall|i: int| 0 <= i < members.drop_last().len() implies all_finite(
            (#[trigger] members.drop_last()[i]).1,
        ) by {
            assert(all_finite(members[i].1));
        }
        lemma_member_is_finite(members.drop_last(), key);
    }
}

/// The text of the file that keeps a profile. Reading it gives the profile
/// back, but for the last digits of its display settings' numbers: always under
/// the default schema, and under another one where the settings are not nested
/// deeply and no number is close to the greatest double. Where the numbers survive
/// being written and read, it gives the very profile.
pub fn save_profile(profile: &PluginProfile) -> (r: String)
    ensures
        r@ == json_pretty(profile_json(profile@)),
        forall|schema: Option<JsonV>|
            is_normal(profile@, schema) && (schema is None || readable(
                profile@.display,
                (MAX_NESTING - 1) as nat,
            )) ==> reads_back(#[trigger] stored_profile(Ok(r@), schema), profile@),
        survives(profile@.display, (MAX_NESTING - 1) as nat) ==> forall|schema: Option<JsonV>|
            is_normal(profile@, schema) ==> #[trigger] stored_profile(Ok(r@), schema) == Ok::<
                ProfileV,
                Seq<char>,
            >(profile@),
{
    read_defaults();
    let value = profile_value(profile);
    let text = write_pretty(&value);
    proof {
        let found = json_parsed(text@)->Ok_0;
        assert forall|schema: Option<JsonV>|
            is_normal(profile@, schema) && (schema is None || readable(
                profile@.display,
                (MAX_NESTING - 1) as nat,
            )) implies reads_back(#[trigger] stored_profile(Ok(text@), schema), profile@) by {
            if schema is None {
                lemma_default_display_is_readable(profile@.display);
            }
            lemma_profile_readable(profile@);
            assert(normalized(value@, schema) == profile@);
            lemma_alike_profile(found, profile@, schema);
        }
        if survives(profile@.display, (MAX_NESTING - 1) as nat) {
            lemma_profile_survives(profile@);
            assert forall|schema: Option<JsonV>| is_normal(
                profile@,
                schema,
            ) implies #[trigger] stored_profile(Ok(text@), schema) == Ok::<ProfileV, Seq<char>>(
                profile@,
            ) by {
                assert(normalized(value@, schema) == profile@);
            }
        }
    }
    text
}

/// The file of a profile, below the data directory.
pub open spec fn profile_file(plugin_id: Seq<char>) -> Seq<Seq<char>> {
    seq!["profiles"@, plugin_id + ".json"@]
}

/// The file of a profile: its directory below the data directory, and its
/// name.
pub fn profile_path(plugin_id: &str) -> (r: Vec<String>)
    ensures
        list_view(r@) == profile_file(plugin_id@),
{
    let r: Vec<String> = vec![
        "profiles".to_string(),
        plugin_id.to_string().concat(".json"),
    ];
    assert(list_view(r@) =~= profile_file(plugin_id@));
    r
}

/// The profile of a plugin that has none yet.
pub open spec fn fresh_profile(schema: Option<JsonV>) -> ProfileV {
    ProfileV {
        display: sanitized(default_profile().display, schema),
        ..default_profile()
    }
}

/// A profile that was loaded, and whether it is new and has to be stored.
pub struct LoadedProfile {
    pub profile: PluginProfile,
    pub is_new: bool,
}

/// The profile that a stored text gives.
pub open spec fn stored_profile(raw: Result<Seq<char>, Seq<char>>, schema: Option<JsonV>) -> Result<
    ProfileV,
    Seq<char>,
> {
    match raw {
        Err(message) => Err(message),
        Ok(text) => match json_parsed(text) {
            Err(message) => Err(message),
            Ok(value) => Ok(normalized(value, schema)),
        },
    }
}

/// Loads a profile. `stored` is the text of its file, or why it could not be
/// read; it is `None` where there is no such file, and a new profile is made.
pub fn load_profile(stored: Option<Result<String, String>>, schema: Option<&Json>) -> (r: Result<
    LoadedProfile,
    String,
>)
    requires
        schema is Some ==> bounds_ordered(opt_json(schema)),
    ensures
        match stored {
            None => r is Ok && r->Ok_0.is_new && r->Ok_0.profile@ == fresh_profile(
                opt_json(schema),
            ),
            Some(raw) => match r {
                Ok(loaded) => !loaded.is_new && stored_profile(
                    raw_view(raw),
                    opt_json(schema),
                ) == Ok::<ProfileV, Seq<char>>(loaded.profile@),
                Err(message) => stored_profile(raw_view(raw), opt_json(schema)) == Err::<
                    ProfileV,
                    Seq<char>,
                >(message@),
            },
        },
{
    match stored {
        None => {
            let mut profile = PluginProfile::default();
            profile.display = sanitize_display(&profile.display, schema);
            Ok(LoadedProfile { profile, is_new: true })
        },
        Some(Err(message)) => Err(message),
        Some(Ok(text)) => match parse_json(text.as_str()) {
            Err(message) => Err(message),
            Ok(value) => Ok(
                LoadedProfile {
                    profile: normalize_profile_with_schema(&value, schema),
                    is_new: false,
                },
            ),
        },
    }
}

/// The characters of what was read, or of the message of the error.
pub open spec fn raw_view(raw: Result<String, String>) -> Result<Seq<char>, Seq<char>> {
    match raw {
        Ok(text) => Ok(text@),
        Err(message) => Err(message@),
    }
}

/// Loads a profile as `load_profile` does, or gives `None` where the schema has
/// a number field whose bounds exclude each other.
pub fn try_load_profile(stored: Option<Result<String, String>>, schema: Option<&Json>) -> (r:
    Option<Result<LoadedProfile, String>>)
    ensures
        r is None <==> schema is Some && !bounds_ordered(opt_json(schema)),
        r matches Some(loaded) ==> match stored {
            None => loaded is Ok && loaded->Ok_0.is_new && loaded->Ok_0.profile@
                == fresh_profile(opt_json(schema)),
            Some(raw) => match loaded {
                Ok(found) => !found.is_new && stored_profile(
                    raw_view(raw),
                    opt_json(schema),
                ) == Ok::<ProfileV, Seq<char>>(found.profile@),
                Err(message) => stored_profile(raw_view(raw), opt_json(schema)) == Err::<
                    ProfileV,
                    Seq<char>,
                >(message@),
            },
        },
{
    if check_bounds(schema) {
        Some(load_profile(stored, schema))
    } else {
        None
    }
}

// ---------------------------------------------------------------------------
// Laws
// ---------------------------------------------------------------------------

/// A display patch sets the fields that it names and drops none.
pub proof fn patch_keeps_other_fields(
    members: Seq<(Seq<char>, JsonV)>,
    incoming: Seq<(Seq<char>, JsonV)>,
    key: Seq<char>,
)
    ensures
        member(merged(members, incoming), key) == (match member(incoming, key) {
            Some(value) => Some(value),
            None => member(members, key),
        }),
    decreases incoming.len(),
{
    if incoming.len() > 0 {
        let rest = incoming.drop_last();
        patch_keeps_other_fields(members, rest, key);
        with_member_reads_back(
            merged(members, rest),
            incoming.last().0,
            incoming.last().1,
            key,
        );
    }
}

/// A sanitized number lies between the bounds of its schema.
pub proof fn sanitized_number_is_within_bounds(
    raw: Option<JsonV>,
    schema: Option<JsonV>,
    fallback: JsonV,
)
    requires
        field_type(schema, fallback) == "number"@,
        field_bounds_ordered(schema, fallback),
    ensures
        sanitized_field(raw, schema, fallback) matches JsonV::Num(Num::Float(bits)) && {
            &&& field_bound(schema, "minimum"@) matches Some(low) ==> rank(low) <= rank(bits)
            &&& field_bound(schema, "maximum"@) matches Some(high) ==> rank(bits) <= rank(high)
        },
{
    reveal_strlit("number");
    reveal_strlit("boolean");
    assert("number"@.len() == 6 && "boolean"@.len() == 7);
}

proof fn lemma_lower_twice(s: Seq<char>)
    ensures
        lower(lower(s)) == lower(s),
        is_color(s) ==> is_color(lower(s)),
{
    assert forall|i: int| 0 <= i < s.len() implies lower(lower(s))[i] == lower(s)[i] by {}
    assert(lower(lower(s)) =~= lower(s));
    if is_color(s) {
        assert forall|i: int| 1 <= i < 7 implies is_hex_digit(#[trigger] lower(s)[i]) by {
            assert(is_hex_digit(s[i]));
        }
    }
}

/// A field that was sanitized stays as it is when it is sanitized again.
pub proof fn sanitized_field_is_stable(
    raw: Option<JsonV>,
    schema: Option<JsonV>,
    fallback: JsonV,
)
    requires
        field_bounds_ordered(schema, fallback),
    ensures
        sanitized_field(Some(sanitized_field(raw, schema, fallback)), schema, fallback)
            == sanitized_field(raw, schema, fallback),
{
    let once = sanitized_field(raw, schema, fallback);
    match once {
        JsonV::Text(text) => {
            lemma_lower_twice(text);
            match raw {
                Some(JsonV::Text(before)) => {
                    lemma_lower_twice(before);
                },
                _ => {},
            }
            match fallback {
                JsonV::Text(standing) => {
                    lemma_lower_twice(standing);
                },
                _ => {
                    lemma_lower_twice("#101416"@);
                },
            }
        },
        _ => {},
    }
}

/// Sanitized settings have the names of the schema's properties and no others,
/// 64 at most.
pub proof fn sanitized_names_are_the_schema_names(value: JsonV, schema: Option<JsonV>)
    requires
        properties_of(schema) is Some,
    ensures
        sanitized(value, schema) matches JsonV::Object(members) && {
            &&& members.len() <= MAX_DISPLAY_KEYS
            &&& members.len() == named_members(properties_of(schema)).len()
            &&& forall|i: int|
                0 <= i < members.len() ==> (#[trigger] members[i]).0 == named_members(
                    properties_of(schema),
                )[i].0
        },
{
}

/// The properties that the schema describes, if it does, stand in the order of
/// their names, as the members of every JSON object do.
pub open spec fn is_ordered_schema(schema: Option<JsonV>) -> bool {
    schema is Some ==> (properties_of(schema) matches Some(properties) ==> ascending(properties))
}

proof fn lemma_default_schema_is_ordered()
    ensures
        properties_of(None) == Some(collected(default_properties())),
        ascending(collected(default_properties())),
{
    let pairs = seq![
        ("type"@, JsonV::Text("object"@)),
        ("properties"@, JsonV::Object(collected(default_properties()))),
    ];
    lemma_collected_member(pairs, "properties"@);
    lemma_collected_member(default_properties(), "fit"@);
    assert(member(pairs, "properties"@) == Some(pairs[1].1));
}

/// What the incoming fields add: the standing ones stay, and each new one is
/// allowed.
proof fn lemma_extras(
    out: Seq<(Seq<char>, JsonV)>,
    incoming: Seq<(Seq<char>, JsonV)>,
)
    requires
        ascending(out),
        out.len() <= MAX_DISPLAY_KEYS,
    ensures
        ascending(with_extras(out, incoming)),
        with_extras(out, incoming).len() <= MAX_DISPLAY_KEYS,
        forall|key: Seq<char>| #[trigger]
            member(out, key) is Some ==> member(with_extras(out, incoming), key) == member(
                out,
                key,
            ),
        forall|key: Seq<char>| #[trigger]
            member(with_extras(out, incoming), key) is Some && member(out, key) is None
                ==> display_field_check(key, member(with_extras(out, incoming), key)->0) is Ok,
    decreases incoming.len(),
{
    if incoming.len() > 0 {
        let key = incoming[0].0;
        let value = incoming[0].1;
        let rest = incoming.drop_first();
        if member(out, key) is Some {
            lemma_extras(out, rest);
        } else if out.len() >= MAX_DISPLAY_KEYS {
        } else if display_field_check(key, value) is Ok {
            let more = with_member(out, key, value);
            with_member_keeps_order(out, key, value);
            lemma_new_member_counts(out, key, value);
            lemma_extras(more, rest);
            assert forall|other: Seq<char>| #[trigger] member(out, other) is Some implies member(
                with_extras(out, incoming),
                other,
            ) == member(out, other) by {
                with_member_reads_back(out, key, value, other);
                assert(member(more, other) is Some);
            }
            assert forall|other: Seq<char>| #[trigger]
                member(with_extras(out, incoming), other) is Some && member(
                    out,
                    other,
                ) is None implies display_field_check(
                other,
                member(with_extras(out, incoming), other)->0,
            ) is Ok by {
                with_member_reads_back(out, key, value, other);
                if other == key {
                    assert(member(more, other) is Some);
                }
            }
        } else {
            lemma_extras(out, rest);
        }
    }
}

/// The fields that were added are added again, in the same places.
proof fn lemma_extras_again(
    out: Seq<(Seq<char>, JsonV)>,
    full: Seq<(Seq<char>, JsonV)>,
    from: int,
)
    requires
        ascending(out),
        ascending(full),
        full.len() <= MAX_DISPLAY_KEYS,
        0 <= from <= full.len(),
        forall|key: Seq<char>| #[trigger]
            member(out, key) is Some ==> member(full, key) == member(out, key),
        forall|i: int| 0 <= i < from ==> member(out, (#[trigger] full[i]).0) is Some,
        forall|i: int|
            0 <= i < full.len() && member(out, (#[trigger] full[i]).0) is None
                ==> display_field_check(full[i].0, full[i].1) is Ok,
    ensures
        with_extras(out, full.skip(from)) == full,
    decreases full.len() - from,
{
    let left = full.skip(from);
    if from == full.len() {
        assert forall|key: Seq<char>| #[trigger] member(out, key) == member(full, key) by {
            if member(full, key) is Some {
                lemma_member_found(full, key);
                let i = choose|i: int| 0 <= i < full.len() && #[trigger] full[i].0 == key;
                assert(member(out, full[i].0) is Some);
            }
        }
        lemma_equal_members(out, full);
    } else {
        let key = full[from].0;
        let value = full[from].1;
        assert(left[0] == full[from]);
        assert(left.drop_first() =~= full.skip(from + 1));
        lemma_member_at(full, from);
        if member(out, key) is Some {
            lemma_extras_again(out, full, from + 1);
        } else {
            let more = with_member(out, key, value);
            with_member_keeps_order(out, key, value);
            lemma_new_member_counts(out, key, value);
            assert forall|other: Seq<char>| #[trigger] member(more, other) is Some implies member(
                full,
                other,
            ) == member(more, other) by {
                with_member_reads_back(out, key, value, other);
                if other != key {
                    assert(member(out, other) is Some);
                }
            }
            lemma_not_more_members(more, full);
            assert forall|i: int| 0 <= i < from + 1 implies member(
                more,
                (#[trigger] full[i]).0,
            ) is Some by {
                with_member_reads_back(out, key, value, full[i].0);
                if i < from {
                    assert(member(out, full[i].0) is Some);
                }
            }
            assert forall|i: int|
                0 <= i < full.len() && member(
                    more,
                    (#[trigger] full[i]).0,
                ) is None implies display_field_check(full[i].0, full[i].1) is Ok by {
                with_member_reads_back(out, key, value, full[i].0);
                assert(member(out, full[i].0) is None);
            }
            lemma_extras_again(more, full, from + 1);
        }
    }
}

/// Settings that were sanitized stay as they are when they are sanitized
/// again.
pub proof fn sanitized_display_is_stable(value: JsonV, schema: Option<JsonV>)
    requires
        bounds_ordered(schema),
        is_ordered_schema(schema),
    ensures
        sanitized(sanitized(value, schema), schema) == sanitized(value, schema),
{
    let properties = properties_of(schema);
    let names = named_members(properties);
    let incoming = value.as_object();
    lemma_default_schema_is_ordered();
    lemma_collected_member(default_fields(), "fit"@);
    let named = sanitized_named(incoming, properties, names);
    assert forall|i: int, j: int| 0 <= i < j < named.len() implies precedes(
        #[trigger] named[i].0,
        #[trigger] named[j].0,
    ) by {
        assert(named[i].0 == names[i].0 && named[j].0 == names[j].0);
    }
    let full = sanitized(value, schema)->Object_0;
    assert(sanitized(value, schema) == JsonV::Object(full));
    if properties is None && incoming is Some {
        lemma_extras(named, incoming->0);
    }
    let again = sanitized_named(Some(full), properties, names);
    assert forall|i: int| 0 <= i < names.len() implies again[i] == named[i] by {
        let key = names[i].0;
        assert(named[i].0 == key);
        lemma_member_at(named, i);
        assert(member(named, key) == Some(named[i].1));
        assert(member(full, key) == Some(named[i].1));
        sanitized_field_is_stable(
            member_in(incoming, key),
            member_in(properties, key),
            field_default(properties, key),
        );
    }
    assert(again =~= named);
    if properties is None {
        assert forall|i: int|
            0 <= i < full.len() && member(
                named,
                (#[trigger] full[i]).0,
            ) is None implies display_field_check(full[i].0, full[i].1) is Ok by {
            lemma_member_at(full, i);
            assert(member(full, full[i].0) is Some);
        }
        lemma_extras_again(named, full, 0);
        assert(full.skip(0) =~= full);
    }
}

/// What reading a stored value gives is a normal profile, which reading again
/// does not change: its identifiers are usable and stand once, and its interval
/// is within the limits.
pub proof fn normalized_profile_is_normal(value: JsonV, schema: Option<JsonV>)
    requires
        bounds_ordered(schema),
        is_ordered_schema(schema),
    ensures
        is_normal(normalized(value, schema), schema),
        normalized(value, schema).active_media_id matches Some(id) ==> 1 <= byte_len(id)
            <= MAX_ID_BYTES,
        normalized(value, schema).playlist_ids.no_duplicates(),
        forall|i: int|
            0 <= i < normalized(value, schema).playlist_ids.len() ==> byte_len(
                #[trigger] normalized(value, schema).playlist_ids[i],
            ) <= MAX_ID_BYTES,
{
    let profile = normalized(value, schema);
    sanitized_display_is_stable(part_of(value, "display"@), schema);
    match value.get("playlistIds"@) {
        Some(JsonV::Array(values)) => {
            kept_ids_are_distinct(texts_of(values));
        },
        _ => {},
    }
    distinct_ids_are_kept(profile.playlist_ids);
    match number_from(part_of(value, "slideshow"@).get("intervalSeconds"@)) {
        Some(bits) => {
            interval_is_within_limits(bits);
        },
        None => {},
    }
}

/// A change keeps the playlist free of repetitions and the interval within its
/// limits.
pub proof fn patch_keeps_profile_sound(profile: ProfileV, patch: PatchV)
    requires
        kept_ids(profile.playlist_ids) == profile.playlist_ids,
        10 <= profile.slideshow.interval_seconds <= 86400,
    ensures
        kept_ids(patched(profile, patch).playlist_ids) == patched(profile, patch).playlist_ids,
        patched(profile, patch).playlist_ids.no_duplicates(),
        10 <= patched(profile, patch).slideshow.interval_seconds <= 86400,
{
    kept_ids_are_distinct(profile.playlist_ids);
    match patch.playlist_ids {
        Some(ids) => {
            kept_ids_are_distinct(ids);
            distinct_ids_are_kept(kept_ids(ids));
        },
        None => {},
    }
    match patch.slideshow {
        Some(change) => {
            match change.interval_seconds {
                Some(bits) => {
                    interval_is_within_limits(bits);
                },
                None => {},
            }
        },
        None => {},
    }
}

} // verus!
