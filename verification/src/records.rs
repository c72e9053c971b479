//! Records in JSON texts. A record names its fields, each once: a text that
//! repeats one is refused, and what stands under a name that the record does not
//! have is passed over unread.
use vstd::prelude::*;

use crate::json::{
    ascending, collected, json_ignored, json_parsed, lemma_collected_member, lemma_member_at,
    lemma_member_found, lemma_precedes_not_itself, lemma_values_view, lemma_with_member_after,
    member, parse_json, precedes, skim_json, values_view, Json, JsonV, Members,
};
use crate::text::{chars_of, list_view, same};

verus! {

// ---------------------------------------------------------------------------
// The parts of a text
// ---------------------------------------------------------------------------

/// How far a JSON text was read: how deep in lists and objects, whether inside a
/// string and behind a backslash, and the parts of the outermost list or object so
/// far. The names and the values of an object are parts of their own.
pub struct CutV {
    pub depth: nat,
    pub quoted: bool,
    pub escaped: bool,
    pub parts: Seq<Seq<char>>,
}

/// The parts with one more character at the end of the last.
pub open spec fn extended(parts: Seq<Seq<char>>, c: char) -> Seq<Seq<char>> {
    if parts.len() == 0 {
        parts
    } else {
        parts.drop_last().push(parts.last().push(c))
    }
}

/// The next character of a text.
pub open spec fn cut_step(state: CutV, c: char) -> CutV {
    if state.quoted {
        CutV {
            quoted: state.escaped || c != '"',
            escaped: !state.escaped && c == '\\',
            parts: extended(state.parts, c),
            ..state
        }
    } else if c == '"' {
        CutV { quoted: true, escaped: false, parts: extended(state.parts, c), ..state }
    } else if c == '{' || c == '[' {
        CutV {
            depth: state.depth + 1,
            parts: if state.depth == 0 {
                seq![Seq::empty()]
            } else {
                extended(state.parts, c)
            },
            ..state
        }
    } else if c == '}' || c == ']' {
        if state.depth <= 1 {
            CutV { depth: 0, ..state }
        } else {
            CutV { depth: (state.depth - 1) as nat, parts: extended(state.parts, c), ..state }
        }
    } else if state.depth == 0 {
        state
    } else if state.depth == 1 && (c == ',' || c == ':') {
        CutV { parts: state.parts.push(Seq::empty()), ..state }
    } else {
        CutV { parts: extended(state.parts, c), ..state }
    }
}

/// A text, read to its end.
pub open spec fn cut(text: Seq<char>) -> CutV
    decreases text.len(),
{
    if text.len() == 0 {
        CutV { depth: 0, quoted: false, escaped: false, parts: Seq::empty() }
    } else {
        cut_step(cut(text.drop_last()), text.last())
    }
}

pub open spec fn is_blank(c: char) -> bool {
    c == ' ' || c == '\n' || c == '\t' || c == '\r'
}

/// The character with which a text begins, once it is not blank.
pub open spec fn opening(text: Seq<char>) -> Option<char>
    decreases text.len(),
{
    if text.len() == 0 {
        None
    } else if is_blank(text[0]) {
        opening(text.drop_first())
    } else {
        Some(text[0])
    }
}

/// The parts of the list or the object that a text holds. One that is empty has
/// none.
pub open spec fn parts_in(text: Seq<char>) -> Seq<Seq<char>> {
    let parts = cut(text).parts;
    if parts.len() == 1 && opening(parts[0]) is None {
        Seq::empty()
    } else {
        parts
    }
}

fn find_opening(text: &str) -> (r: Option<char>)
    ensures
        r == opening(text@),
{
    let chars = chars_of(text);
    let mut i: usize = 0;
    assert(chars@.skip(0) =~= chars@);
    while i < chars.len()
        invariant
            i <= chars.len(),
            chars@ == text@,
            opening(chars@.skip(i as int)) == opening(text@),
        decreases chars.len() - i,
    {
        let c = chars[i];
        assert(chars@.skip(i as int)[0] == c);
        assert(chars@.skip(i as int).drop_first() =~= chars@.skip(i + 1));
        if !(c == ' ' || c == '\n' || c == '\t' || c == '\r') {
            return Some(c);
        }
        i += 1;
    }
    None
}

/// The parts that were found, of which `last` is the one under way.
spec fn parts_so_far(begun: bool, done: Seq<String>, last: Seq<char>) -> Seq<Seq<char>> {
    if begun {
        list_view(done).push(last)
    } else {
        Seq::empty()
    }
}

fn cut_text(text: &str) -> (r: Vec<String>)
    ensures
        list_view(r@) == cut(text@).parts,
{
    let chars = chars_of(text);
    let mut depth: usize = 0;
    let mut quoted = false;
    let mut escaped = false;
    let mut begun = false;
    let mut done: Vec<String> = Vec::new();
    let mut last = String::new();
    let mut i: usize = 0;
    assert(chars@.take(0).len() == 0);
    while i < chars.len()
        invariant
            i <= chars.len(),
            depth <= i,
            cut(chars@.take(i as int)) == (CutV {
                depth: depth as nat,
                quoted,
                escaped,
                parts: parts_so_far(begun, done@, last@),
            }),
        decreases chars.len() - i,
    {
        let c = chars[i];
        let ghost before = parts_so_far(begun, done@, last@);
        let ghost state = cut(chars@.take(i as int));
        proof {
            assert(chars@.take(i + 1).drop_last() =~= chars@.take(i as int));
            assert(chars@.take(i + 1).last() == c);
            if begun {
                assert(before.drop_last() =~= list_view(done@));
            }
        }
        if quoted {
            quoted = escaped || c != '"';
            escaped = !escaped && c == '\\';
            last.push(c);
            assert(parts_so_far(begun, done@, last@) =~= extended(before, c));
        } else if c == '"' {
            quoted = true;
            escaped = false;
            last.push(c);
            assert(parts_so_far(begun, done@, last@) =~= extended(before, c));
        } else if c == '{' || c == '[' {
            if depth == 0 {
                begun = true;
                done = Vec::new();
                last = String::new();
                assert(parts_so_far(begun, done@, last@) =~= seq![Seq::<char>::empty()]);
            } else {
                last.push(c);
                assert(parts_so_far(begun, done@, last@) =~= extended(before, c));
            }
            depth = depth + 1;
        } else if c == '}' || c == ']' {
            if depth <= 1 {
                depth = 0;
            } else {
                depth = depth - 1;
                last.push(c);
                assert(parts_so_far(begun, done@, last@) =~= extended(before, c));
            }
        } else if depth == 0 {
        } else if depth == 1 && (c == ',' || c == ':') {
            if begun {
                done.push(last);
                last = String::new();
                assert(list_view(done@) =~= before);
                assert(parts_so_far(begun, done@, last@) =~= before.push(Seq::empty()));
            } else {
                begun = true;
                done = Vec::new();
                last = String::new();
                assert(parts_so_far(begun, done@, last@) =~= before.push(Seq::empty()));
            }
        } else {
            last.push(c);
            assert(parts_so_far(begun, done@, last@) =~= extended(before, c));
        }
        assert(cut(chars@.take(i + 1)) == cut_step(state, c));
        i += 1;
    }
    assert(chars@.take(i as int) =~= chars@);
    if begun {
        let ghost found = done@;
        done.push(last);
        assert(list_view(done@) =~= list_view(found).push(last@));
    } else {
        done = Vec::new();
        assert(list_view(done@) =~= Seq::empty());
    }
    done
}

fn find_parts(text: &str) -> (r: Vec<String>)
    ensures
        list_view(r@) == parts_in(text@),
{
    let parts = cut_text(text);
    if parts.len() == 1 && find_opening(parts[0].as_str()).is_none() {
        assert(list_view(parts@)[0] == parts@[0]@);
        let none: Vec<String> = Vec::new();
        assert(list_view(none@) =~= Seq::empty());
        none
    } else {
        proof {
            if parts.len() == 1 {
                assert(list_view(parts@)[0] == parts@[0]@);
            }
        }
        parts
    }
}

// ---------------------------------------------------------------------------
// Shapes
// ---------------------------------------------------------------------------

/// What a part of a record may be. The rows of a table refer to earlier rows by
/// their place.
pub enum Row {
    /// Any value.
    Any,
    /// One of some names, alone or as the only name of an object.
    Choice,
    /// A list of what the row says.
    List(usize),
    /// A record with these fields, each with its row.
    Record(Vec<(&'static str, usize)>),
}

/// The model of a row.
pub enum RowV {
    Any,
    Choice,
    List(nat),
    Record(Seq<(Seq<char>, nat)>),
}

impl View for Row {
    type V = RowV;

    open spec fn view(&self) -> RowV {
        match self {
            Row::Any => RowV::Any,
            Row::Choice => RowV::Choice,
            Row::List(row) => RowV::List(*row as nat),
            Row::Record(fields) => RowV::Record(fields_view(fields@)),
        }
    }
}

/// The models of fields.
pub open spec fn fields_view(fields: Seq<(&'static str, usize)>) -> Seq<(Seq<char>, nat)> {
    fields.map_values(|field: (&'static str, usize)| (field.0@, field.1 as nat))
}

/// The models of rows.
pub open spec fn rows_view(rows: Seq<Row>) -> Seq<RowV> {
    rows.map_values(|row: Row| row@)
}

/// The value of a part. It is read as the only item of a list, so that it may be
/// nested as deep as a part of a record may.
pub open spec fn part_parsed(text: Seq<char>) -> Result<JsonV, Seq<char>> {
    match json_parsed("["@ + text + "]"@) {
        Err(message) => Err(message),
        Ok(JsonV::Array(items)) => if items.len() == 1 {
            Ok(items[0])
        } else {
            Err("字段值无效。"@)
        },
        Ok(_) => Err("字段值无效。"@),
    }
}

/// The row of a field of this name.
pub open spec fn field_row(fields: Seq<(Seq<char>, nat)>, name: Seq<char>) -> Option<nat>
    decreases fields.len(),
{
    if fields.len() == 0 {
        None
    } else if fields.last().0 == name {
        Some(fields.last().1)
    } else {
        field_row(fields.drop_last(), name)
    }
}

/// What a text is as the row at `at` asks for it.
pub open spec fn shaped(text: Seq<char>, rows: Seq<RowV>, at: nat) -> Result<JsonV, Seq<char>>
    decreases at, parts_in(text).len() + 1,
{
    if at >= rows.len() {
        part_parsed(text)
    } else {
        match rows[at as int] {
            RowV::Any => part_parsed(text),
            RowV::Choice => if opening(text) == Some('{') && parts_in(text).len() > 2 {
                Err("选项重复。"@)
            } else {
                part_parsed(text)
            },
            RowV::List(row) => if opening(text) == Some('[') {
                match shaped_items(parts_in(text), rows, at, row, parts_in(text).len()) {
                    Ok(items) => Ok(JsonV::Array(items)),
                    Err(message) => Err(message),
                }
            } else {
                part_parsed(text)
            },
            RowV::Record(fields) => if opening(text) == Some('[') {
                match shaped_fields(parts_in(text), rows, at, fields, parts_in(text).len()) {
                    Ok(items) => Ok(JsonV::Array(items)),
                    Err(message) => Err(message),
                }
            } else if opening(text) == Some('{') {
                match shaped_members(parts_in(text), rows, at, fields, parts_in(text).len() / 2) {
                    Ok(pairs) => Ok(JsonV::Object(collected(pairs))),
                    Err(message) => Err(message),
                }
            } else {
                part_parsed(text)
            },
        }
    }
}

/// What a part is as an earlier row asks for it.
pub open spec fn shaped_part(text: Seq<char>, rows: Seq<RowV>, at: nat, row: nat) -> Result<
    JsonV,
    Seq<char>,
>
    decreases at, 0int,
{
    if row < at {
        shaped(text, rows, row)
    } else {
        part_parsed(text)
    }
}

/// The first `count` items of a list.
pub open spec fn shaped_items(
    parts: Seq<Seq<char>>,
    rows: Seq<RowV>,
    at: nat,
    row: nat,
    count: nat,
) -> Result<Seq<JsonV>, Seq<char>>
    decreases at, count,
{
    if count == 0 {
        Ok(Seq::empty())
    } else {
        match shaped_items(parts, rows, at, row, (count - 1) as nat) {
            Err(message) => Err(message),
            Ok(items) => match shaped_part(parts[count - 1], rows, at, row) {
                Err(message) => Err(message),
                Ok(value) => Ok(items.push(value)),
            },
        }
    }
}

/// The row of the field at this place.
pub open spec fn place_row(fields: Seq<(Seq<char>, nat)>, place: int) -> nat {
    if 0 <= place < fields.len() {
        fields[place].1
    } else {
        usize::MAX as nat
    }
}

/// The first `count` fields of a record that is written as a list.
pub open spec fn shaped_fields(
    parts: Seq<Seq<char>>,
    rows: Seq<RowV>,
    at: nat,
    fields: Seq<(Seq<char>, nat)>,
    count: nat,
) -> Result<Seq<JsonV>, Seq<char>>
    decreases at, count,
{
    if count == 0 {
        Ok(Seq::empty())
    } else {
        match shaped_fields(parts, rows, at, fields, (count - 1) as nat) {
            Err(message) => Err(message),
            Ok(items) => match shaped_part(
                parts[count - 1],
                rows,
                at,
                place_row(fields, count - 1),
            ) {
                Err(message) => Err(message),
                Ok(value) => Ok(items.push(value)),
            },
        }
    }
}

/// The record has a field of this name already.
pub open spec fn names_it(pairs: Seq<(Seq<char>, JsonV)>, name: Seq<char>) -> bool {
    exists|i: int| 0 <= i < pairs.len() && (#[trigger] pairs[i]).0 == name
}

/// The fields that the first `count` members of an object give. A member that the
/// record has no field for is passed over, and one that comes again is refused.
pub open spec fn shaped_members(
    parts: Seq<Seq<char>>,
    rows: Seq<RowV>,
    at: nat,
    fields: Seq<(Seq<char>, nat)>,
    count: nat,
) -> Result<Seq<(Seq<char>, JsonV)>, Seq<char>>
    decreases at, count,
{
    if count == 0 {
        Ok(Seq::empty())
    } else {
        match shaped_members(parts, rows, at, fields, (count - 1) as nat) {
            Err(message) => Err(message),
            Ok(pairs) => match part_parsed(parts[2 * count - 2]) {
                Err(message) => Err(message),
                Ok(JsonV::Text(name)) => match field_row(fields, name) {
                    None => Ok(pairs),
                    Some(row) => if names_it(pairs, name) {
                        Err("字段重复："@ + name)
                    } else {
                        match shaped_part(parts[2 * count - 1], rows, at, row) {
                            Err(message) => Err(message),
                            Ok(value) => Ok(pairs.push((name, value))),
                        }
                    },
                },
                Ok(_) => Err("字段名无效。"@),
            },
        }
    }
}

/// What a text holds as the row at `at` asks for it, or why it is no JSON text or
/// repeats a field.
pub open spec fn record_parsed(text: Seq<char>, rows: Seq<RowV>, at: nat) -> Result<
    JsonV,
    Seq<char>,
> {
    match json_ignored(text) {
        Some(message) => Err(message),
        None => shaped(text, rows, at),
    }
}

/// The model of a value, or of the complaint.
pub open spec fn value_outcome(r: Result<Json, String>) -> Result<JsonV, Seq<char>> {
    match r {
        Ok(value) => Ok(value@),
        Err(message) => Err(message@),
    }
}

/// The models of values, or of the complaint.
spec fn values_outcome(r: Result<Vec<Json>, String>) -> Result<Seq<JsonV>, Seq<char>> {
    match r {
        Ok(values) => Ok(values_view(values@)),
        Err(message) => Err(message@),
    }
}

fn read_part(text: &str) -> (r: Result<Json, String>)
    ensures
        value_outcome(r) == part_parsed(text@),
{
    let wrapped = "[".to_string().concat(text).concat("]");
    match parse_json(wrapped.as_str()) {
        Err(message) => Err(message),
        Ok(Json::Array(mut items)) => {
            proof {
                lemma_values_view(items@);
            }
            if items.len() == 1 {
                Ok(items.remove(0))
            } else {
                Err("字段值无效。".to_string())
            }
        },
        Ok(_) => Err("字段值无效。".to_string()),
    }
}

fn find_row(fields: &Vec<(&'static str, usize)>, name: &str) -> (r: Option<usize>)
    ensures
        (match r {
            Some(row) => Some(row as nat),
            None => None,
        }) == field_row(fields_view(fields@), name@),
{
    let ghost model = fields_view(fields@);
    let mut i: usize = fields.len();
    assert(model.take(i as int) =~= model);
    while i > 0
        invariant
            i <= fields.len(),
            model == fields_view(fields@),
            field_row(model.take(i as int), name@) == field_row(model, name@),
        decreases i,
    {
        assert(model.take(i as int).drop_last() =~= model.take(i - 1));
        assert(model.take(i as int).last() == (fields@[i - 1].0@, fields@[i - 1].1 as nat));
        if same(fields[i - 1].0, name) {
            return Some(fields[i - 1].1);
        }
        i -= 1;
    }
    assert(model.take(0).len() == 0);
    None
}

proof fn lemma_items_refused(
    parts: Seq<Seq<char>>,
    rows: Seq<RowV>,
    at: nat,
    row: nat,
    few: nat,
    count: nat,
)
    requires
        few <= count,
        shaped_items(parts, rows, at, row, few) is Err,
    ensures
        shaped_items(parts, rows, at, row, count) == shaped_items(parts, rows, at, row, few),
    decreases count,
{
    if few < count {
        lemma_items_refused(parts, rows, at, row, few, (count - 1) as nat);
    }
}

proof fn lemma_fields_refused(
    parts: Seq<Seq<char>>,
    rows: Seq<RowV>,
    at: nat,
    fields: Seq<(Seq<char>, nat)>,
    few: nat,
    count: nat,
)
    requires
        few <= count,
        shaped_fields(parts, rows, at, fields, few) is Err,
    ensures
        shaped_fields(parts, rows, at, fields, count) == shaped_fields(
            parts,
            rows,
            at,
            fields,
            few,
        ),
    decreases count,
{
    if few < count {
        lemma_fields_refused(parts, rows, at, fields, few, (count - 1) as nat);
    }
}

proof fn lemma_members_refused(
    parts: Seq<Seq<char>>,
    rows: Seq<RowV>,
    at: nat,
    fields: Seq<(Seq<char>, nat)>,
    few: nat,
    count: nat,
)
    requires
        few <= count,
        shaped_members(parts, rows, at, fields, few) is Err,
    ensures
        shaped_members(parts, rows, at, fields, count) == shaped_members(
            parts,
            rows,
            at,
            fields,
            few,
        ),
    decreases count,
{
    if few < count {
        lemma_members_refused(parts, rows, at, fields, few, (count - 1) as nat);
    }
}

fn read_part_as(text: &str, rows: &Vec<Row>, at: usize, row: usize) -> (r: Result<Json, String>)
    ensures
        value_outcome(r) == shaped_part(text@, rows_view(rows@), at as nat, row as nat),
    decreases at, 0usize,
{
    if row < at {
        read_shaped(text, rows, row)
    } else {
        read_part(text)
    }
}

fn read_items_as(parts: &Vec<String>, rows: &Vec<Row>, at: usize, row: usize) -> (r: Result<
    Vec<Json>,
    String,
>)
    ensures
        values_outcome(r) == shaped_items(
            list_view(parts@),
            rows_view(rows@),
            at as nat,
            row as nat,
            parts@.len(),
        ),
    decreases at, 1usize,
{
    let ghost texts = list_view(parts@);
    let ghost table = rows_view(rows@);
    let mut out: Vec<Json> = Vec::new();
    let mut i: usize = 0;
    proof {
        lemma_values_view(out@);
        assert(values_view(out@) =~= Seq::<JsonV>::empty());
    }
    while i < parts.len()
        invariant
            i <= parts.len(),
            texts == list_view(parts@),
            table == rows_view(rows@),
            shaped_items(texts, table, at as nat, row as nat, i as nat) == Ok::<
                Seq<JsonV>,
                Seq<char>,
            >(values_view(out@)),
        decreases parts.len() - i,
    {
        proof {
            assert(texts[i as int] == parts@[i as int]@);
            if shaped_items(texts, table, at as nat, row as nat, (i + 1) as nat) is Err {
                lemma_items_refused(
                    texts,
                    table,
                    at as nat,
                    row as nat,
                    (i + 1) as nat,
                    parts@.len(),
                );
            }
        }
        let value = read_part_as(parts[i].as_str(), rows, at, row)?;
        let ghost before = out@;
        out.push(value);
        proof {
            lemma_values_view(before);
            lemma_values_view(out@);
            assert(values_view(out@) =~= values_view(before).push(value@));
        }
        i += 1;
    }
    Ok(out)
}

fn read_fields_as(
    parts: &Vec<String>,
    rows: &Vec<Row>,
    at: usize,
    fields: &Vec<(&'static str, usize)>,
) -> (r: Result<Vec<Json>, String>)
    ensures
        values_outcome(r) == shaped_fields(
            list_view(parts@),
            rows_view(rows@),
            at as nat,
            fields_view(fields@),
            parts@.len(),
        ),
    decreases at, 1usize,
{
    let ghost texts = list_view(parts@);
    let ghost table = rows_view(rows@);
    let ghost model = fields_view(fields@);
    let mut out: Vec<Json> = Vec::new();
    let mut i: usize = 0;
    proof {
        lemma_values_view(out@);
        assert(values_view(out@) =~= Seq::<JsonV>::empty());
    }
    while i < parts.len()
        invariant
            i <= parts.len(),
            texts == list_view(parts@),
            table == rows_view(rows@),
            model == fields_view(fields@),
            shaped_fields(texts, table, at as nat, model, i as nat) == Ok::<Seq<JsonV>, Seq<char>>(
                values_view(out@),
            ),
        decreases parts.len() - i,
    {
        proof {
            assert(texts[i as int] == parts@[i as int]@);
            if shaped_fields(texts, table, at as nat, model, (i + 1) as nat) is Err {
                lemma_fields_refused(
                    texts,
                    table,
                    at as nat,
                    model,
                    (i + 1) as nat,
                    parts@.len(),
                );
            }
        }
        let row: usize = if i < fields.len() {
            fields[i].1
        } else {
            usize::MAX
        };
        assert(row as nat == place_row(model, i as int));
        let value = read_part_as(parts[i].as_str(), rows, at, row)?;
        let ghost before = out@;
        out.push(value);
        proof {
            lemma_values_view(before);
            lemma_values_view(out@);
            assert(values_view(out@) =~= values_view(before).push(value@));
        }
        i += 1;
    }
    Ok(out)
}

/// The names that stand in a list of pairs.
spec fn are_names_of(names: Seq<String>, pairs: Seq<(Seq<char>, JsonV)>) -> bool {
    names.len() == pairs.len() && forall|i: int|
        0 <= i < names.len() ==> (#[trigger] names[i])@ == pairs[i].0
}

fn has_name(names: &Vec<String>, name: &str, pairs: Ghost<Seq<(Seq<char>, JsonV)>>) -> (r: bool)
    requires
        are_names_of(names@, pairs@),
    ensures
        r == names_it(pairs@, name@),
{
    let mut i: usize = 0;
    while i < names.len()
        invariant
            i <= names.len(),
            are_names_of(names@, pairs@),
            forall|k: int| 0 <= k < i ==> (#[trigger] pairs@[k]).0 != name@,
        decreases names.len() - i,
    {
        if same(names[i].as_str(), name) {
            assert(pairs@[i as int].0 == name@);
            return true;
        }
        assert(names@[i as int]@ == pairs@[i as int].0);
        i += 1;
    }
    false
}

fn read_members_as(
    parts: &Vec<String>,
    rows: &Vec<Row>,
    at: usize,
    fields: &Vec<(&'static str, usize)>,
) -> (r: Result<Members, String>)
    ensures
        match (r, shaped_members(
            list_view(parts@),
            rows_view(rows@),
            at as nat,
            fields_view(fields@),
            parts@.len() / 2,
        )) {
            (Ok(members), Ok(pairs)) => members@ == collected(pairs),
            (Err(message), Err(text)) => message@ == text,
            _ => false,
        },
    decreases at, 1usize,
{
    let ghost texts = list_view(parts@);
    let ghost table = rows_view(rows@);
    let ghost model = fields_view(fields@);
    let count: usize = parts.len() / 2;
    let mut names: Vec<String> = Vec::new();
    let mut members = Members::new();
    let ghost mut pairs: Seq<(Seq<char>, JsonV)> = Seq::empty();
    let mut i: usize = 0;
    while i < count
        invariant
            i <= count,
            count == parts@.len() / 2,
            2 * count <= parts.len(),
            texts == list_view(parts@),
            table == rows_view(rows@),
            model == fields_view(fields@),
            are_names_of(names@, pairs),
            members@ == collected(pairs),
            shaped_members(texts, table, at as nat, model, i as nat) == Ok::<
                Seq<(Seq<char>, JsonV)>,
                Seq<char>,
            >(pairs),
        decreases count - i,
    {
        proof {
            assert(texts[2 * i as int] == parts@[2 * i as int]@);
            assert(texts[2 * i as int + 1] == parts@[2 * i as int + 1]@);
            if shaped_members(texts, table, at as nat, model, (i + 1) as nat) is Err {
                lemma_members_refused(
                    texts,
                    table,
                    at as nat,
                    model,
                    (i + 1) as nat,
                    count as nat,
                );
            }
        }
        let name = match read_part(parts[2 * i].as_str()) {
            Err(message) => {
                return Err(message);
            },
            Ok(Json::Text(name)) => name,
            Ok(_) => {
                return Err("字段名无效。".to_string());
            },
        };
        if let Some(row) = find_row(fields, name.as_str()) {
            if has_name(&names, name.as_str(), Ghost(pairs)) {
                return Err("字段重复：".to_string().concat(name.as_str()));
            }
            let value = match read_part_as(parts[2 * i + 1].as_str(), rows, at, row) {
                Err(message) => {
                    return Err(message);
                },
                Ok(value) => value,
            };
            let ghost before = pairs;
            proof {
                pairs = pairs.push((name@, value@));
                assert(pairs.drop_last() =~= before);
            }
            names.push(name.clone());
            members.insert(name, value);
        }
        i += 1;
    }
    Ok(members)
}

fn read_shaped(text: &str, rows: &Vec<Row>, at: usize) -> (r: Result<Json, String>)
    ensures
        value_outcome(r) == shaped(text@, rows_view(rows@), at as nat),
    decreases at, 2usize,
{
    if at >= rows.len() {
        return read_part(text);
    }
    assert(rows_view(rows@)[at as int] == rows@[at as int]@);
    let parts = find_parts(text);
    let first = find_opening(text);
    match &rows[at] {
        Row::Any => read_part(text),
        Row::Choice => {
            if first == Some('{') && parts.len() > 2 {
                return Err("选项重复。".to_string());
            }
            read_part(text)
        },
        Row::List(row) => {
            if first == Some('[') {
                match read_items_as(&parts, rows, at, *row) {
                    Ok(items) => Ok(Json::Array(items)),
                    Err(message) => Err(message),
                }
            } else {
                read_part(text)
            }
        },
        Row::Record(fields) => {
            if first == Some('[') {
                match read_fields_as(&parts, rows, at, fields) {
                    Ok(items) => Ok(Json::Array(items)),
                    Err(message) => Err(message),
                }
            } else if first == Some('{') {
                match read_members_as(&parts, rows, at, fields) {
                    Ok(members) => Ok(Json::Object(members)),
                    Err(message) => Err(message),
                }
            } else {
                read_part(text)
            }
        },
    }
}

/// Reads a text as the row at `at` asks for it.
pub fn parse_record(text: &str, rows: &Vec<Row>, at: usize) -> (r: Result<Json, String>)
    ensures
        value_outcome(r) == record_parsed(text@, rows_view(rows@), at as nat),
{
    match skim_json(text) {
        Some(message) => Err(message),
        None => read_shaped(text, rows, at),
    }
}

// ---------------------------------------------------------------------------
// Texts that are written
// ---------------------------------------------------------------------------

/// The text is that of the value, part by part: each item of a list, and the name
/// and the value of each member of an object, is a part of its own.
pub open spec fn lays_out(text: Seq<char>, v: JsonV, depth: nat) -> bool
    decreases depth,
{
    &&& part_parsed(text) == Ok::<JsonV, Seq<char>>(v)
    &&& match v {
        JsonV::Array(items) => {
            &&& opening(text) == Some('[')
            &&& parts_in(text).len() == items.len()
            &&& depth > 0
            &&& forall|i: int|
                0 <= i < items.len() ==> lays_out(
                    parts_in(text)[i],
                    #[trigger] items[i],
                    (depth - 1) as nat,
                )
        },
        JsonV::Object(members) => {
            &&& opening(text) == Some('{')
            &&& parts_in(text).len() == 2 * members.len()
            &&& depth > 0
            &&& forall|i: int|
                0 <= i < members.len() ==> part_parsed(parts_in(text)[2 * i]) == Ok::<
                    JsonV,
                    Seq<char>,
                >(JsonV::Text((#[trigger] members[i]).0)) && lays_out(
                    parts_in(text)[2 * i + 1],
                    members[i].1,
                    (depth - 1) as nat,
                )
        },
        _ => opening(text) != Some('{') && opening(text) != Some('['),
    }
}

/// The text is JSON, and that of the value part by part.
pub open spec fn is_laid_out(text: Seq<char>, v: JsonV) -> bool {
    json_ignored(text) is None && lays_out(text, v, MAX_PART_NESTING as nat)
}

/// How deep a part may be nested.
pub const MAX_PART_NESTING: usize = 126;

/// The value has only what the row at `at` asks for.
pub open spec fn fits(v: JsonV, rows: Seq<RowV>, at: nat) -> bool
    decreases at,
{
    if at >= rows.len() {
        true
    } else {
        match rows[at as int] {
            RowV::Any => true,
            RowV::Choice => !(v is Object),
            RowV::List(row) => v matches JsonV::Array(items) && forall|i: int|
                0 <= i < items.len() && row < at ==> fits(#[trigger] items[i], rows, row),
            RowV::Record(fields) => v matches JsonV::Object(members) && ascending(members)
                && forall|i: int|
                0 <= i < members.len() ==> {
                    let row = field_row(fields, (#[trigger] members[i]).0);
                    row is Some && (row->0 < at ==> fits(members[i].1, rows, row->0))
                },
        }
    }
}

proof fn lemma_collected_in_order(members: Seq<(Seq<char>, JsonV)>)
    requires
        ascending(members),
    ensures
        collected(members) == members,
    decreases members.len(),
{
    if members.len() > 0 {
        let rest = members.drop_last();
        assert forall|i: int, j: int| 0 <= i < j < rest.len() implies precedes(
            #[trigger] rest[i].0,
            #[trigger] rest[j].0,
        ) by {
            assert(rest[i] == members[i] && rest[j] == members[j]);
        }
        lemma_collected_in_order(rest);
        if rest.len() > 0 {
            assert(precedes(members[members.len() - 2].0, members[members.len() - 1].0));
        }
        lemma_with_member_after(rest, members.last().0, members.last().1);
        assert(rest.push(members.last()) =~= members);
    } else {
        assert(members =~= Seq::empty());
    }
}

proof fn lemma_items_read(
    text: Seq<char>,
    items: Seq<JsonV>,
    rows: Seq<RowV>,
    at: nat,
    row: nat,
    depth: nat,
    count: nat,
)
    requires
        lays_out(text, JsonV::Array(items), depth),
        count <= items.len(),
        forall|i: int| 0 <= i < items.len() && row < at ==> fits(#[trigger] items[i], rows, row),
    ensures
        shaped_items(parts_in(text), rows, at, row, count) == Ok::<Seq<JsonV>, Seq<char>>(
            items.take(count as int),
        ),
    decreases at, count,
{
    if count > 0 {
        lemma_items_read(text, items, rows, at, row, depth, (count - 1) as nat);
        let part = parts_in(text)[count - 1];
        let item = items[count - 1];
        assert(lays_out(part, item, (depth - 1) as nat));
        if row < at {
            laid_out_text_is_read(part, item, rows, row, (depth - 1) as nat);
        }
        assert(shaped_part(part, rows, at, row) == Ok::<JsonV, Seq<char>>(item));
        assert(items.take(count as int) =~= items.take(count - 1).push(item));
    } else {
        assert(items.take(0) =~= Seq::empty());
    }
}

proof fn lemma_members_read(
    text: Seq<char>,
    members: Seq<(Seq<char>, JsonV)>,
    rows: Seq<RowV>,
    at: nat,
    fields: Seq<(Seq<char>, nat)>,
    depth: nat,
    count: nat,
)
    requires
        lays_out(text, JsonV::Object(members), depth),
        count <= members.len(),
        ascending(members),
        forall|i: int|
            0 <= i < members.len() ==> {
                let row = field_row(fields, (#[trigger] members[i]).0);
                row is Some && (row->0 < at ==> fits(members[i].1, rows, row->0))
            },
    ensures
        shaped_members(parts_in(text), rows, at, fields, count) == Ok::<
            Seq<(Seq<char>, JsonV)>,
            Seq<char>,
        >(members.take(count as int)),
    decreases at, count,
{
    if count > 0 {
        lemma_members_read(text, members, rows, at, fields, depth, (count - 1) as nat);
        let (name, value) = members[count - 1];
        let before = members.take(count - 1);
        let part = parts_in(text)[2 * (count - 1) + 1];
        assert(members[count - 1].0 == name);
        assert(lays_out(part, value, (depth - 1) as nat));
        let row = field_row(fields, name)->0;
        if row < at {
            laid_out_text_is_read(part, value, rows, row, (depth - 1) as nat);
        }
        assert(shaped_part(part, rows, at, row) == Ok::<JsonV, Seq<char>>(value));
        assert(part_parsed(parts_in(text)[2 * (count - 1)]) == Ok::<JsonV, Seq<char>>(
            JsonV::Text(name),
        ));
        assert(!names_it(before, name)) by {
            if names_it(before, name) {
                let i = choose|i: int| 0 <= i < before.len() && (#[trigger] before[i]).0 == name;
                assert(precedes(members[i].0, members[count - 1].0));
                lemma_precedes_not_itself(name);
            }
        }
        assert(members.take(count as int) =~= before.push((name, value)));
    } else {
        assert(members.take(0) =~= Seq::empty());
    }
}

/// A text that is laid out part by part is read as the value that it is the text
/// of, by whichever shape the value fits.
pub proof fn laid_out_text_is_read(
    text: Seq<char>,
    v: JsonV,
    rows: Seq<RowV>,
    at: nat,
    depth: nat,
)
    requires
        lays_out(text, v, depth),
        fits(v, rows, at),
    ensures
        shaped(text, rows, at) == Ok::<JsonV, Seq<char>>(v),
    decreases at, parts_in(text).len() + 1,
{
    if at < rows.len() {
        match (rows[at as int], v) {
            (RowV::List(row), JsonV::Array(items)) => {
                lemma_items_read(text, items, rows, at, row, depth, items.len());
                assert(items.take(items.len() as int) =~= items);
            },
            (RowV::Record(fields), JsonV::Object(members)) => {
                lemma_members_read(text, members, rows, at, fields, depth, members.len());
                assert(members.take(members.len() as int) =~= members);
                lemma_collected_in_order(members);
            },
            _ => {},
        }
    }
}

/// The record has a field of this name.
pub open spec fn has_field(fields: Seq<(Seq<char>, nat)>, name: Seq<char>) -> bool {
    exists|j: int| 0 <= j < fields.len() && (#[trigger] fields[j]).0 == name
}

proof fn lemma_field_row(fields: Seq<(Seq<char>, nat)>, name: Seq<char>)
    ensures
        match field_row(fields, name) {
            Some(row) => exists|j: int|
                0 <= j < fields.len() && (#[trigger] fields[j]).0 == name && fields[j].1 == row,
            None => !has_field(fields, name),
        },
    decreases fields.len(),
{
    if fields.len() > 0 {
        let rest = fields.drop_last();
        lemma_field_row(rest, name);
        if fields.last().0 == name {
            assert(fields[fields.len() - 1].0 == name);
        } else if let Some(row) = field_row(rest, name) {
            let j = choose|j: int|
                0 <= j < rest.len() && (#[trigger] rest[j]).0 == name && rest[j].1 == row;
            assert(fields[j].0 == name && fields[j].1 == row);
        } else if has_field(fields, name) {
            let j = choose|j: int| 0 <= j < fields.len() && (#[trigger] fields[j]).0 == name;
            assert(rest[j].0 == name);
        }
    }
}

/// An object made of fields of a record, each with a value that fits its row, fits
/// the record.
pub proof fn lemma_record_fits(pairs: Seq<(Seq<char>, JsonV)>, rows: Seq<RowV>, at: nat)
    requires
        at < rows.len(),
        rows[at as int] is Record,
        forall|i: int|
            0 <= i < pairs.len() ==> has_field(
                rows[at as int]->Record_0,
                (#[trigger] pairs[i]).0,
            ),
        forall|i: int, j: int|
            0 <= i < pairs.len() && 0 <= j < rows[at as int]->Record_0.len()
                && rows[at as int]->Record_0[j].0 == pairs[i].0
                && rows[at as int]->Record_0[j].1 < at ==> fits(
                (#[trigger] pairs[i]).1,
                rows,
                (#[trigger] rows[at as int]->Record_0[j]).1,
            ),
    ensures
        fits(JsonV::Object(collected(pairs)), rows, at),
{
    let fields = rows[at as int]->Record_0;
    let members = collected(pairs);
    lemma_collected_member(pairs, Seq::empty());
    assert forall|i: int| 0 <= i < members.len() implies {
        let row = field_row(fields, (#[trigger] members[i]).0);
        row is Some && (row->0 < at ==> fits(members[i].1, rows, row->0))
    } by {
        let name = members[i].0;
        lemma_member_at(members, i);
        lemma_collected_member(pairs, name);
        lemma_member_found(pairs, name);
        let k = choose|k: int|
            0 <= k < pairs.len() && #[trigger] pairs[k].0 == name && pairs[k].1 == member(
                pairs,
                name,
            )->0;
        assert(has_field(fields, pairs[k].0));
        lemma_field_row(fields, name);
        let row = field_row(fields, name)->0;
        let j = choose|j: int|
            0 <= j < fields.len() && (#[trigger] fields[j]).0 == name && fields[j].1 == row;
        assert(row < at ==> fits(pairs[k].1, rows, fields[j].1));
    }
}

/// A member that a record has a field for and that comes twice is refused, whatever
/// else the object holds.
pub proof fn repeated_field_is_refused(
    text: Seq<char>,
    rows: Seq<RowV>,
    at: nat,
    first: nat,
    second: nat,
    name: Seq<char>,
)
    requires
        at < rows.len(),
        rows[at as int] is Record,
        opening(text) == Some('{'),
        first < second,
        2 * second + 1 < parts_in(text).len(),
        part_parsed(parts_in(text)[2 * first as int]) == Ok::<JsonV, Seq<char>>(JsonV::Text(name)),
        part_parsed(parts_in(text)[2 * second as int]) == Ok::<JsonV, Seq<char>>(
            JsonV::Text(name),
        ),
        field_row(rows[at as int]->Record_0, name) is Some,
    ensures
        record_parsed(text, rows, at) is Err,
{
    let parts = parts_in(text);
    let fields = rows[at as int]->Record_0;
    lemma_name_stays(parts, rows, at, fields, first, (first + 1) as nat, second, name);
    if shaped_members(parts, rows, at, fields, (second + 1) as nat) is Err {
        lemma_members_refused(
            parts,
            rows,
            at,
            fields,
            (second + 1) as nat,
            parts.len() / 2,
        );
    }
}

/// Once a field was read its name stays.
proof fn lemma_name_stays(
    parts: Seq<Seq<char>>,
    rows: Seq<RowV>,
    at: nat,
    fields: Seq<(Seq<char>, nat)>,
    first: nat,
    few: nat,
    count: nat,
    name: Seq<char>,
)
    requires
        few == first + 1,
        few <= count,
        part_parsed(parts[2 * first as int]) == Ok::<JsonV, Seq<char>>(JsonV::Text(name)),
        field_row(fields, name) is Some,
    ensures
        shaped_members(parts, rows, at, fields, count) matches Ok(pairs) ==> names_it(pairs, name),
    decreases count,
{
    if count == few {
        if let Ok(pairs) = shaped_members(parts, rows, at, fields, count) {
            assert(pairs[pairs.len() - 1].0 == name);
        }
    } else {
        lemma_name_stays(parts, rows, at, fields, first, few, (count - 1) as nat, name);
        if let Ok(pairs) = shaped_members(parts, rows, at, fields, count) {
            let before = shaped_members(parts, rows, at, fields, (count - 1) as nat)->Ok_0;
            let i = choose|i: int| 0 <= i < before.len() && (#[trigger] before[i]).0 == name;
            assert(pairs[i].0 == name);
        }
    }
}

} // verus!
