//! The form of display settings that a plugin's schema describes.
use vstd::prelude::*;

use crate::json::{
    lemma_values_view, opt_json, text_as_double, values_view, with_member, Double, Json, JsonNumber,
    JsonV, Members, Num,
};
use crate::profile::{members_of, texts_of};
use crate::text::same;

verus! {

/// The bits of the double 0.
pub const ZERO_BITS: u64 = 0;

/// The bits of the double 100.
pub const HUNDRED_BITS: u64 = 0x4059_0000_0000_0000;

/// The bits of the double nearest to one hundredth.
pub const HUNDREDTH_BITS: u64 = 0x3f84_7ae1_47ae_147b;

/// What a field of the form looks like. Numbers are the bits of doubles.
pub enum FieldInput {
    Toggle(bool),
    Slider(SliderRange, u64),
    Choice(String, Vec<(String, String)>),
    Text(String),
    Nothing,
}

/// The range of a slider, and its step.
#[derive(Clone, Copy, Debug, PartialEq, Eq, Structural)]
pub struct SliderRange {
    pub minimum: u64,
    pub maximum: u64,
    pub step: u64,
}

/// The model of what a field looks like.
pub enum InputV {
    Toggle(bool),
    Slider(SliderRange, u64),
    Choice(Seq<char>, Seq<(Seq<char>, Seq<char>)>),
    Text(Seq<char>),
    Nothing,
}

impl View for FieldInput {
    type V = InputV;

    open spec fn view(&self) -> InputV {
        match self {
            FieldInput::Toggle(on) => InputV::Toggle(*on),
            FieldInput::Slider(range, value) => InputV::Slider(*range, *value),
            FieldInput::Choice(current, options) => InputV::Choice(
                current@,
                options@.map_values(|option: (String, String)| (option.0@, option.1@)),
            ),
            FieldInput::Text(current) => InputV::Text(current@),
            FieldInput::Nothing => InputV::Nothing,
        }
    }
}

/// A field of the form.
pub struct FormField {
    pub key: String,
    pub title: String,
    pub input: FieldInput,
}

/// The model of a field.
pub struct FieldV {
    pub key: Seq<char>,
    pub title: Seq<char>,
    pub input: InputV,
}

impl View for FormField {
    type V = FieldV;

    open spec fn view(&self) -> FieldV {
        FieldV { key: self.key@, title: self.title@, input: self.input@ }
    }
}

/// The models of fields.
pub open spec fn fields_view(fields: Seq<FormField>) -> Seq<FieldV> {
    fields.map_values(|field: FormField| field@)
}

/// The bits of a number, or those of another one.
pub open spec fn bits_or(value: Option<JsonV>, fallback: u64) -> u64 {
    match value {
        Some(found) => match found.as_double() {
            Some(bits) => bits,
            None => fallback,
        },
        None => fallback,
    }
}

fn read_bits(value: Option<&Json>, fallback: u64) -> (r: u64)
    ensures
        r == bits_or(opt_json(value), fallback),
{
    match value {
        Some(found) => match found.as_double() {
            Some(d) => d.bits(),
            None => fallback,
        },
        None => fallback,
    }
}

/// The text of a value, or the empty one.
pub open spec fn text_or_empty(value: Option<JsonV>) -> Seq<char> {
    match value {
        Some(JsonV::Text(text)) => text,
        _ => Seq::empty(),
    }
}

fn read_text(value: Option<&Json>) -> (r: String)
    ensures
        r@ == text_or_empty(opt_json(value)),
{
    match value {
        Some(Json::Text(text)) => text.clone(),
        _ => {
            let r = String::new();
            assert(r@ =~= Seq::<char>::empty());
            r
        },
    }
}

/// The label of the option at a place: the one that is given for it, or the
/// option itself.
pub open spec fn label_at(labels: Option<JsonV>, i: int, option: Seq<char>) -> Seq<char> {
    match labels {
        Some(JsonV::Array(names)) => if i < names.len() {
            match names[i] {
                JsonV::Text(name) => name,
                _ => option,
            }
        } else {
            option
        },
        _ => option,
    }
}

/// The options that a field offers, each with its label.
pub open spec fn options_of(values: Seq<JsonV>, labels: Option<JsonV>) -> Seq<
    (Seq<char>, Seq<char>),
> {
    Seq::new(
        texts_of(values).len(),
        |i: int| (texts_of(values)[i], label_at(labels, i, texts_of(values)[i])),
    )
}

/// What a field looks like.
pub open spec fn input_of(schema: JsonV, current: Option<JsonV>) -> InputV {
    match schema.get_str("type"@) {
        None => InputV::Nothing,
        Some(kind) => if kind == "boolean"@ {
            InputV::Toggle(current == Some(JsonV::Bool(true)))
        } else if kind == "number"@ || kind == "integer"@ {
            let minimum = bits_or(schema.get("minimum"@), ZERO_BITS);
            InputV::Slider(
                SliderRange {
                    minimum,
                    maximum: bits_or(schema.get("maximum"@), HUNDRED_BITS),
                    step: bits_or(schema.get("step"@), HUNDREDTH_BITS),
                },
                bits_or(current, minimum),
            )
        } else if kind == "string"@ {
            match schema.get("enum"@) {
                Some(JsonV::Array(values)) => InputV::Choice(
                    text_or_empty(current),
                    options_of(values, schema.get("enumLabels"@)),
                ),
                _ => InputV::Text(text_or_empty(current)),
            }
        } else {
            InputV::Nothing
        },
    }
}

/// A field of the form, with the value that the settings have for it.
pub open spec fn field_of(
    key: Seq<char>,
    schema: JsonV,
    display: Seq<(Seq<char>, JsonV)>,
) -> FieldV {
    FieldV {
        key,
        title: match schema.get_str("title"@) {
            Some(title) => title,
            None => key,
        },
        input: input_of(schema, JsonV::Object(display).get(key)),
    }
}

/// The fields of the form, in the order of the schema.
pub open spec fn form_of(
    properties: Seq<(Seq<char>, JsonV)>,
    display: Seq<(Seq<char>, JsonV)>,
) -> Seq<FieldV> {
    properties.map_values(
        |member: (Seq<char>, JsonV)| field_of(member.0, member.1, display),
    )
}

fn read_label(labels: Option<&Json>, i: usize, option: &str) -> (r: String)
    ensures
        r@ == label_at(opt_json(labels), i as int, option@),
{
    if let Some(Json::Array(names)) = labels {
        proof {
            lemma_values_view(names@);
        }
        if i < names.len() {
            if let Json::Text(name) = &names[i] {
                return name.clone();
            }
        }
    }
    option.to_string()
}

fn read_options(values: &Vec<Json>, labels: Option<&Json>) -> (r: Vec<(String, String)>)
    ensures
        r@.map_values(|option: (String, String)| (option.0@, option.1@)) == options_of(
            values_view(values@),
            opt_json(labels),
        ),
{
    let ghost model = values_view(values@);
    proof {
        lemma_values_view(values@);
    }
    let mut out: Vec<(String, String)> = Vec::new();
    let mut i: usize = 0;
    assert(texts_of(model.take(0)).len() == 0);
    while i < values.len()
        invariant
            i <= values.len(),
            model == values_view(values@),
            model.len() == values.len(),
            forall|k: int| 0 <= k < model.len() ==> model[k] == (#[trigger] values@[k])@,
            out.len() == texts_of(model.take(i as int)).len(),
            forall|k: int|
                0 <= k < out.len() ==> (#[trigger] out@[k]).0@ == texts_of(
                    model.take(i as int),
                )[k] && out@[k].1@ == label_at(opt_json(labels), k, out@[k].0@),
        decreases values.len() - i,
    {
        assert(model.take(i + 1).drop_last() =~= model.take(i as int));
        assert(model.take(i + 1).last() == values@[i as int]@);
        if let Json::Text(text) = &values[i] {
            let label = read_label(labels, out.len(), text.as_str());
            out.push((text.clone(), label));
        }
        i += 1;
    }
    assert(model.take(i as int) =~= model);
    assert(out@.map_values(|option: (String, String)| (option.0@, option.1@)) =~= options_of(
        model,
        opt_json(labels),
    ));
    out
}

fn read_input(schema: &Json, current: Option<&Json>) -> (r: FieldInput)
    ensures
        r@ == input_of(schema@, opt_json(current)),
{
    let kind = match schema.get_str("type") {
        None => {
            return FieldInput::Nothing;
        },
        Some(kind) => kind.as_str(),
    };
    if same(kind, "boolean") {
        let on = match current {
            Some(Json::Bool(b)) => *b,
            _ => false,
        };
        return FieldInput::Toggle(on);
    }
    if same(kind, "number") || same(kind, "integer") {
        let minimum = read_bits(schema.get("minimum"), ZERO_BITS);
        let range = SliderRange {
            minimum,
            maximum: read_bits(schema.get("maximum"), HUNDRED_BITS),
            step: read_bits(schema.get("step"), HUNDREDTH_BITS),
        };
        return FieldInput::Slider(range, read_bits(current, minimum));
    }
    if same(kind, "string") {
        if let Some(Json::Array(values)) = schema.get("enum") {
            return FieldInput::Choice(
                read_text(current),
                read_options(values, schema.get("enumLabels")),
            );
        }
        return FieldInput::Text(read_text(current));
    }
    FieldInput::Nothing
}

/// The form that a schema describes, with the values of the settings. `None`
/// is a schema without fields.
pub fn form_fields(schema: &Json, draft: &Json) -> (r: Option<Vec<FormField>>)
    ensures
        match schema@.get("properties"@) {
            Some(JsonV::Object(properties)) => r matches Some(fields) && fields_view(fields@)
                == form_of(properties, members_of(draft@)),
            _ => r is None,
        },
{
    let properties = match schema.get("properties") {
        Some(Json::Object(members)) => members,
        _ => {
            return None;
        },
    };
    let ghost display = members_of(draft@);
    let none = Members::new();
    let settings = match draft {
        Json::Object(members) => members,
        _ => &none,
    };
    assert(settings@ == display);
    let ghost model = properties@;
    let mut out: Vec<FormField> = Vec::new();
    let mut i: usize = 0;
    while i < properties.len()
        invariant
            i <= model.len(),
            model == properties@,
            settings@ == display,
            out.len() == i,
            forall|k: int|
                0 <= k < i ==> (#[trigger] out@[k])@ == form_of(model, display)[k],
        decreases model.len() - i,
    {
        let key = properties.key(i);
        let schema = properties.value(i);
        let title = match schema.get_str("title") {
            Some(title) => title.clone(),
            None => key.clone(),
        };
        let field = FormField {
            key: key.clone(),
            title,
            input: read_input(schema, settings.get(key.as_str())),
        };
        assert(field@ == field_of(model[i as int].0, model[i as int].1, display));
        out.push(field);
        i += 1;
    }
    assert(fields_view(out@) =~= form_of(model, display));
    Some(out)
}

/// Sets one of the settings. Settings that are no object are replaced.
pub fn set_field(draft: &mut Json, key: &str, value: Json)
    ensures
        final(draft)@ == JsonV::Object(with_member(members_of(old(draft)@), key@, value@)),
{
    let mut members = match draft {
        Json::Object(found) => found.copy(),
        _ => Members::new(),
    };
    members.insert(key.to_string(), value);
    *draft = Json::Object(members);
}

/// Sets one of the settings to a number, where the text denotes a finite one.
pub fn set_number(draft: &mut Json, key: &str, text: &str)
    ensures
        final(draft)@ == (match text_as_double(text@) {
            Some(bits) => JsonV::Object(
                with_member(members_of(old(draft)@), key@, JsonV::Num(Num::Float(bits))),
            ),
            None => old(draft)@,
        }),
{
    if let Some(d) = Double::parse(text) {
        set_field(draft, key, Json::Num(JsonNumber::Float(d)));
    }
}

/// A setting that was made is the one that the form then shows.
pub proof fn made_setting_is_shown(
    display: Seq<(Seq<char>, JsonV)>,
    key: Seq<char>,
    schema: JsonV,
    value: JsonV,
)
    ensures
        field_of(key, schema, with_member(display, key, value)).input == input_of(
            schema,
            Some(value),
        ),
{
    crate::json::with_member_reads_back(display, key, value, key);
}

} // verus!
