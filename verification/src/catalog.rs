//! The plugins that can be installed: the built-in list and the one that the
//! user adds to it.
use vstd::prelude::*;

use crate::records::{fields_view, parse_record, record_parsed, rows_view, Row, RowV};
use crate::json::{
    before, check_record, get_record_field, is_record, lemma_precedes_not_itself,
    lemma_precedes_transitive, lemma_values_view, precedes, record_field, values_view, Json, JsonV,
    Num,
};
use crate::text::{copy_opt, has_prefix, opt_view, same, starts_with};

verus! {

pub const PLUGIN_PROTOCOL: u32 = 1;

/// A plugin that can be installed.
#[derive(Clone, Debug)]
pub struct PluginDef {
    pub id: String,
    pub display_name: String,
    pub owner: String,
    pub repo: String,
    pub asset_prefix: String,
    pub exe_name: String,
    pub pipe_name: String,
    pub target_hint: String,
    /// The name of an icon file, or the address of one on the web.
    pub icon: Option<String>,
}

/// The model of a plugin.
pub struct DefV {
    pub id: Seq<char>,
    pub display_name: Seq<char>,
    pub owner: Seq<char>,
    pub repo: Seq<char>,
    pub asset_prefix: Seq<char>,
    pub exe_name: Seq<char>,
    pub pipe_name: Seq<char>,
    pub target_hint: Seq<char>,
    pub icon: Option<Seq<char>>,
}

impl View for PluginDef {
    type V = DefV;

    open spec fn view(&self) -> DefV {
        DefV {
            id: self.id@,
            display_name: self.display_name@,
            owner: self.owner@,
            repo: self.repo@,
            asset_prefix: self.asset_prefix@,
            exe_name: self.exe_name@,
            pipe_name: self.pipe_name@,
            target_hint: self.target_hint@,
            icon: opt_view(self.icon),
        }
    }
}

impl PluginDef {
    pub fn copy(&self) -> (r: PluginDef)
        ensures
            r@ == self@,
    {
        PluginDef {
            id: self.id.clone(),
            display_name: self.display_name.clone(),
            owner: self.owner.clone(),
            repo: self.repo.clone(),
            asset_prefix: self.asset_prefix.clone(),
            exe_name: self.exe_name.clone(),
            pipe_name: self.pipe_name.clone(),
            target_hint: self.target_hint.clone(),
            icon: copy_opt(&self.icon),
        }
    }
}

/// The models of plugins.
pub open spec fn defs_view(defs: Seq<PluginDef>) -> Seq<DefV> {
    defs.map_values(|def: PluginDef| def@)
}

// ---------------------------------------------------------------------------
// Reading a list
// ---------------------------------------------------------------------------

pub open spec fn def_text(value: JsonV, key: Seq<char>, at: int) -> Option<Seq<char>> {
    match record_field(value, key, at) {
        Some(field) => field.as_str(),
        None => None,
    }
}

fn get_def_text<'a>(value: &'a Json, key: &str, at: usize) -> (r: Option<&'a String>)
    ensures
        match r {
            Some(text) => def_text(value@, key@, at as int) == Some(text@),
            None => def_text(value@, key@, at as int) is None,
        },
{
    match get_record_field(value, key, at) {
        Some(field) => field.as_str(),
        None => None,
    }
}

/// The hint at the target, which may be missing.
pub open spec fn def_hint(value: JsonV) -> Option<Seq<char>> {
    match record_field(value, "targetHint"@, 7) {
        None => Some(Seq::empty()),
        Some(field) => field.as_str(),
    }
}

/// The icon, which may be missing or null.
pub open spec fn def_icon(value: JsonV) -> Option<Option<Seq<char>>> {
    match record_field(value, "icon"@, 8) {
        None => Some(None),
        Some(JsonV::Null) => Some(None),
        Some(JsonV::Text(text)) => Some(Some(text)),
        _ => None,
    }
}

/// The plugin that a stored value is.
pub open spec fn def_from(value: JsonV) -> Option<DefV> {
    let id = def_text(value, "id"@, 0);
    let display_name = def_text(value, "displayName"@, 1);
    let owner = def_text(value, "owner"@, 2);
    let repo = def_text(value, "repo"@, 3);
    let asset_prefix = def_text(value, "assetPrefix"@, 4);
    let exe_name = def_text(value, "exeName"@, 5);
    let pipe_name = def_text(value, "pipeName"@, 6);
    let target_hint = def_hint(value);
    let icon = def_icon(value);
    if is_record(value, 7, 9) && id is Some && display_name is Some && owner is Some && repo is Some
        && asset_prefix is Some && exe_name is Some && pipe_name is Some && target_hint is Some
        && icon is Some {
        Some(
            DefV {
                id: id->0,
                display_name: display_name->0,
                owner: owner->0,
                repo: repo->0,
                asset_prefix: asset_prefix->0,
                exe_name: exe_name->0,
                pipe_name: pipe_name->0,
                target_hint: target_hint->0,
                icon: icon->0,
            },
        )
    } else {
        None
    }
}

fn read_def(value: &Json) -> (r: Option<PluginDef>)
    ensures
        match r {
            Some(def) => def_from(value@) == Some(def@),
            None => def_from(value@) is None,
        },
{
    if !check_record(value, 7, 9) {
        return None;
    }
    let id = get_def_text(value, "id", 0)?;
    let display_name = get_def_text(value, "displayName", 1)?;
    let owner = get_def_text(value, "owner", 2)?;
    let repo = get_def_text(value, "repo", 3)?;
    let asset_prefix = get_def_text(value, "assetPrefix", 4)?;
    let exe_name = get_def_text(value, "exeName", 5)?;
    let pipe_name = get_def_text(value, "pipeName", 6)?;
    let target_hint = match get_record_field(value, "targetHint", 7) {
        None => String::new(),
        Some(field) => field.as_str()?.clone(),
    };
    let icon = match get_record_field(value, "icon", 8) {
        None => None,
        Some(Json::Null) => None,
        Some(Json::Text(text)) => Some(text.clone()),
        _ => {
            return None;
        },
    };
    Some(
        PluginDef {
            id: id.clone(),
            display_name: display_name.clone(),
            owner: owner.clone(),
            repo: repo.clone(),
            asset_prefix: asset_prefix.clone(),
            exe_name: exe_name.clone(),
            pipe_name: pipe_name.clone(),
            target_hint,
            icon,
        },
    )
}

/// The plugins of a stored list, where every entry is one.
pub open spec fn defs_from(values: Seq<JsonV>) -> Option<Seq<DefV>>
    decreases values.len(),
{
    if values.len() == 0 {
        Some(Seq::empty())
    } else {
        match (defs_from(values.drop_last()), def_from(values.last())) {
            (Some(defs), Some(def)) => Some(defs.push(def)),
            _ => None,
        }
    }
}

proof fn lemma_defs_prefix(values: Seq<JsonV>, n: int)
    requires
        0 <= n <= values.len(),
        defs_from(values) is Some,
    ensures
        defs_from(values.take(n)) is Some,
    decreases values.len() - n,
{
    if n < values.len() {
        lemma_defs_prefix(values, n + 1);
        assert(values.take(n + 1).drop_last() == values.take(n));
    } else {
        assert(values.take(n) == values);
    }
}

fn read_defs(values: &Vec<Json>) -> (r: Option<Vec<PluginDef>>)
    ensures
        match r {
            Some(defs) => defs_from(values_view(values@)) == Some(defs_view(defs@)),
            None => defs_from(values_view(values@)) is None,
        },
{
    let ghost model = values_view(values@);
    proof {
        lemma_values_view(values@);
        assert(model.take(0).len() == 0);
    }
    let mut out: Vec<PluginDef> = Vec::new();
    assert(defs_view(out@) =~= Seq::empty());
    let mut i: usize = 0;
    while i < values.len()
        invariant
            i <= values.len(),
            model == values_view(values@),
            model.len() == values.len(),
            forall|k: int| 0 <= k < values.len() ==> #[trigger] model[k] == values@[k]@,
            defs_from(model.take(i as int)) == Some(defs_view(out@)),
        decreases values.len() - i,
    {
        proof {
            assert(model.take(i + 1).drop_last() == model.take(i as int));
            assert(model.take(i + 1).last() == values@[i as int]@);
            if defs_from(model) is Some {
                lemma_defs_prefix(model, i + 1);
            }
        }
        match read_def(&values[i]) {
            None => {
                return None;
            },
            Some(def) => {
                let ghost earlier = out@;
                out.push(def);
                assert(defs_view(out@) =~= defs_view(earlier).push(def@));
            },
        }
        i += 1;
    }
    assert(model.take(i as int) == model);
    Some(out)
}

/// The plugins of a catalogue. Its protocol may be missing from an object, but is
/// a number of 32 bits where it is there.
pub open spec fn catalog_from(value: JsonV) -> Option<Seq<DefV>> {
    let protocol_fits = match record_field(value, "pluginProtocol"@, 0) {
        None => true,
        Some(JsonV::Num(Num::PosInt(n))) => n <= u32::MAX,
        _ => false,
    };
    match record_field(value, "plugins"@, 1) {
        Some(JsonV::Array(values)) => if protocol_fits && is_record(value, 2, 2) {
            defs_from(values)
        } else {
            None
        },
        _ => None,
    }
}

fn read_catalog(value: &Json) -> (r: Option<Vec<PluginDef>>)
    ensures
        match r {
            Some(defs) => catalog_from(value@) == Some(defs_view(defs@)),
            None => catalog_from(value@) is None,
        },
{
    if !check_record(value, 2, 2) {
        return None;
    }
    if let Some(protocol) = get_record_field(value, "pluginProtocol", 0) {
        match protocol.as_u64() {
            Some(n) => {
                if n > u32::MAX as u64 {
                    return None;
                }
            },
            None => {
                return None;
            },
        }
    }
    match get_record_field(value, "plugins", 1) {
        Some(Json::Array(values)) => read_defs(values),
        _ => None,
    }
}

/// The fields of a catalogue and of a plugin in it.
pub open spec fn catalog_rows() -> Seq<RowV> {
    seq![
        RowV::Any,
        RowV::Record(
            seq![
                ("id"@, 0),
                ("displayName"@, 0),
                ("owner"@, 0),
                ("repo"@, 0),
                ("assetPrefix"@, 0),
                ("exeName"@, 0),
                ("pipeName"@, 0),
                ("targetHint"@, 0),
                ("icon"@, 0),
            ],
        ),
        RowV::List(1),
        RowV::Record(seq![("pluginProtocol"@, 0), ("plugins"@, 2)]),
    ]
}

fn rows_of_catalog() -> (r: Vec<Row>)
    ensures
        rows_view(r@) == catalog_rows(),
{
    let def = vec![
        ("id", 0usize),
        ("displayName", 0),
        ("owner", 0),
        ("repo", 0),
        ("assetPrefix", 0),
        ("exeName", 0),
        ("pipeName", 0),
        ("targetHint", 0),
        ("icon", 0),
    ];
    assert(fields_view(def@) =~= catalog_rows()[1]->Record_0);
    let catalog = vec![("pluginProtocol", 0usize), ("plugins", 2)];
    assert(fields_view(catalog@) =~= catalog_rows()[3]->Record_0);
    let rows = vec![Row::Any, Row::Record(def), Row::List(1), Row::Record(catalog)];
    assert(rows_view(rows@) =~= catalog_rows());
    rows
}

/// The plugins that the text of a catalogue lists, or the complaint.
pub open spec fn catalog_parsed(text: Seq<char>) -> Result<Seq<DefV>, Seq<char>> {
    match record_parsed(text, catalog_rows(), 3) {
        Err(message) => Err(message),
        Ok(value) => match catalog_from(value) {
            Some(defs) => Ok(defs),
            None => Err("插件目录的字段类型无效。"@),
        },
    }
}

/// The models of plugins, or of the complaint.
pub open spec fn defs_outcome(r: Result<Vec<PluginDef>, String>) -> Result<Seq<DefV>, Seq<char>> {
    match r {
        Ok(defs) => Ok(defs_view(defs@)),
        Err(message) => Err(message@),
    }
}

/// Reads the text of a catalogue.
pub fn parse_catalog(text: &str) -> (r: Result<Vec<PluginDef>, String>)
    ensures
        defs_outcome(r) == catalog_parsed(text@),
{
    match parse_record(text, &rows_of_catalog(), 3) {
        Err(message) => Err(message),
        Ok(value) => match read_catalog(&value) {
            Some(defs) => Ok(defs),
            None => Err("插件目录的字段类型无效。".to_string()),
        },
    }
}

// ---------------------------------------------------------------------------
// Merging
// ---------------------------------------------------------------------------

/// The last plugin with this identifier.
pub open spec fn last_with_id(defs: Seq<DefV>, id: Seq<char>) -> Option<DefV>
    decreases defs.len(),
{
    if defs.len() == 0 {
        None
    } else if defs.last().id == id {
        Some(defs.last())
    } else {
        last_with_id(defs.drop_last(), id)
    }
}

/// No identifier stands twice.
pub open spec fn ids_differ(defs: Seq<DefV>) -> bool {
    forall|i: int, j: int|
        0 <= i < j < defs.len() ==> (#[trigger] defs[i]).id != (#[trigger] defs[j]).id
}

/// The plugins are those of `all`, each identifier once, and the last of each.
pub open spec fn is_merge(defs: Seq<DefV>, all: Seq<DefV>) -> bool {
    &&& ids_differ(defs)
    &&& forall|i: int|
        0 <= i < defs.len() ==> last_with_id(all, (#[trigger] defs[i]).id) == Some(defs[i])
    &&& forall|id: Seq<char>| #[trigger]
        last_with_id(all, id) is Some ==> exists|i: int|
            0 <= i < defs.len() && (#[trigger] defs[i]).id == id
}

/// No plugin stands after one whose name is greater.
pub open spec fn in_name_order(defs: Seq<DefV>) -> bool {
    forall|i: int, j: int|
        0 <= i < j < defs.len() ==> !precedes(
            (#[trigger] defs[j]).display_name,
            (#[trigger] defs[i]).display_name,
        )
}

fn find_def(defs: &Vec<PluginDef>, id: &str) -> (r: Option<usize>)
    ensures
        match r {
            Some(i) => i < defs.len() && defs@[i as int]@.id == id@ && forall|k: int|
                0 <= k < i ==> (#[trigger] defs@[k])@.id != id@,
            None => forall|k: int| 0 <= k < defs.len() ==> (#[trigger] defs@[k])@.id != id@,
        },
{
    let mut i: usize = 0;
    while i < defs.len()
        invariant
            i <= defs.len(),
            forall|k: int| 0 <= k < i ==> (#[trigger] defs@[k])@.id != id@,
        decreases defs.len() - i,
    {
        if same(defs[i].id.as_str(), id) {
            return Some(i);
        }
        i += 1;
    }
    None
}

/// Sets a plugin in a merged list.
fn merge_def(defs: &mut Vec<PluginDef>, def: PluginDef, all: Ghost<Seq<DefV>>)
    requires
        is_merge(defs_view(old(defs)@), all@),
    ensures
        is_merge(defs_view(final(defs)@), all@.push(def@)),
{
    let ghost start = defs_view(defs@);
    let ghost next = all@.push(def@);
    let ghost value = def@;
    assert(next.drop_last() =~= all@);
    assert forall|k: int| 0 <= k < defs@.len() implies (#[trigger] defs@[k])@ == start[k] by {}
    match find_def(defs, def.id.as_str()) {
        Some(at) => {
            defs.set(at, def);
            proof {
                let after = defs_view(defs@);
                assert(after =~= start.update(at as int, value));
                assert(start[at as int].id == value.id);
                assert forall|i: int, j: int| 0 <= i < j < after.len() implies (
                #[trigger] after[i]).id != (#[trigger] after[j]).id by {
                    assert(start[i].id != start[j].id);
                }
                assert forall|i: int| 0 <= i < after.len() implies last_with_id(
                    next,
                    (#[trigger] after[i]).id,
                ) == Some(after[i]) by {
                    if i != at {
                        if i < at {
                            assert(start[i].id != start[at as int].id);
                        } else {
                            assert(start[at as int].id != start[i].id);
                        }
                        assert(last_with_id(all@, start[i].id) == Some(start[i]));
                    }
                }
                assert forall|id: Seq<char>| #[trigger]
                    last_with_id(next, id) is Some implies exists|i: int|
                    0 <= i < after.len() && (#[trigger] after[i]).id == id by {
                    if id == value.id {
                        assert(after[at as int].id == id);
                    } else {
                        assert(last_with_id(all@, id) is Some);
                        let i = choose|i: int| 0 <= i < start.len() && (#[trigger] start[i]).id == id;
                        assert(after[i].id == id);
                    }
                }
            }
        },
        None => {
            defs.push(def);
            proof {
                let after = defs_view(defs@);
                assert(after =~= start.push(value));
                assert forall|i: int, j: int| 0 <= i < j < after.len() implies (
                #[trigger] after[i]).id != (#[trigger] after[j]).id by {
                    if j < start.len() {
                        assert(start[i].id != start[j].id);
                    } else {
                        assert(start[i].id != value.id);
                    }
                }
                assert forall|i: int| 0 <= i < after.len() implies last_with_id(
                    next,
                    (#[trigger] after[i]).id,
                ) == Some(after[i]) by {
                    if i < start.len() {
                        assert(start[i].id != value.id);
                        assert(last_with_id(all@, start[i].id) == Some(start[i]));
                    }
                }
                assert forall|id: Seq<char>| #[trigger]
                    last_with_id(next, id) is Some implies exists|i: int|
                    0 <= i < after.len() && (#[trigger] after[i]).id == id by {
                    if id == value.id {
                        assert(after[start.len() as int].id == id);
                    } else {
                        assert(last_with_id(all@, id) is Some);
                        let i = choose|i: int| 0 <= i < start.len() && (#[trigger] start[i]).id == id;
                        assert(after[i].id == id);
                    }
                }
            }
        },
    }
}

/// Puts a plugin where its name belongs.
fn insert_by_name(sorted: &mut Vec<PluginDef>, def: PluginDef)
    requires
        in_name_order(defs_view(old(sorted)@)),
    ensures
        in_name_order(defs_view(final(sorted)@)),
        exists|at: int|
            0 <= at <= old(sorted)@.len() && defs_view(final(sorted)@) == #[trigger] defs_view(
                old(sorted)@,
            ).insert(at, def@),
{
    let ghost start = defs_view(sorted@);
    let mut at: usize = 0;
    while at < sorted.len() && !before(
        def.display_name.as_str(),
        sorted[at].display_name.as_str(),
    )
        invariant
            at <= sorted.len(),
            start == defs_view(sorted@),
            forall|k: int|
                0 <= k < at ==> !precedes(def@.display_name, (#[trigger] start[k]).display_name),
        decreases sorted.len() - at,
    {
        at += 1;
    }
    let ghost value = def@;
    proof {
        if at < start.len() {
            assert(precedes(value.display_name, start[at as int].display_name));
        }
    }
    sorted.insert(at, def);
    proof {
        let after = defs_view(sorted@);
        assert(after =~= start.insert(at as int, value));
        assert forall|i: int, j: int| 0 <= i < j < after.len() implies !precedes(
            (#[trigger] after[j]).display_name,
            (#[trigger] after[i]).display_name,
        ) by {
            if j < at {
                assert(after[i] == start[i] && after[j] == start[j]);
            } else if j == at {
                assert(after[i] == start[i]);
            } else if i < at {
                assert(after[i] == start[i] && after[j] == start[j - 1]);
            } else if i == at {
                assert(after[j] == start[j - 1]);
                let x = value.display_name;
                let y = start[at as int].display_name;
                let z = start[j - 1].display_name;
                if precedes(z, x) {
                    lemma_precedes_transitive(z, x, y);
                    if j - 1 > at {
                        assert(!precedes(start[j - 1].display_name, start[at as int].display_name));
                    } else {
                        lemma_precedes_not_itself(y);
                    }
                }
            } else {
                assert(after[i] == start[i - 1] && after[j] == start[j - 1]);
            }
        }
    }
}

/// Putting a plugin of a new identifier anywhere keeps what a list is a merge
/// of.
proof fn lemma_merge_insert(defs: Seq<DefV>, def: DefV, at: int, part: Seq<DefV>)
    requires
        0 <= at <= defs.len(),
        ids_differ(part.push(def)),
        defs.len() == part.len(),
        forall|d: DefV| defs.contains(d) <==> #[trigger] part.contains(d),
        ids_differ(defs),
    ensures
        ids_differ(defs.insert(at, def)),
        forall|d: DefV| defs.insert(at, def).contains(d) <==> #[trigger] part.push(def).contains(
            d,
        ),
{
    let after = defs.insert(at, def);
    let whole = part.push(def);
    assert forall|i: int| 0 <= i < defs.len() implies (#[trigger] defs[i]).id != def.id by {
        assert(defs.contains(defs[i]));
        assert(part.contains(defs[i]));
        let j = choose|j: int| 0 <= j < part.len() && part[j] == defs[i];
        assert(whole[j].id != whole[part.len() as int].id);
    }
    assert forall|i: int, j: int| 0 <= i < j < after.len() implies (#[trigger] after[i]).id != (
    #[trigger] after[j]).id by {
        if i == at {
            assert(after[j] == defs[j - 1]);
        } else if j == at {
            assert(after[i] == defs[i]);
        } else {
            let a = if i < at {
                i
            } else {
                i - 1
            };
            let b = if j < at {
                j
            } else {
                j - 1
            };
            assert(defs[a].id != defs[b].id);
        }
    }
    assert forall|d: DefV| after.contains(d) <==> #[trigger] whole.contains(d) by {
        if after.contains(d) {
            let i = choose|i: int| 0 <= i < after.len() && after[i] == d;
            if i == at {
                assert(whole[part.len() as int] == d);
            } else {
                let a = if i < at {
                    i
                } else {
                    i - 1
                };
                assert(defs[a] == d);
                assert(defs.contains(d));
                assert(part.contains(d));
                let j = choose|j: int| 0 <= j < part.len() && part[j] == d;
                assert(whole[j] == d);
            }
        }
        if whole.contains(d) {
            let i = choose|i: int| 0 <= i < whole.len() && whole[i] == d;
            if i == part.len() {
                assert(after[at] == d);
            } else {
                assert(part[i] == d);
                assert(part.contains(d));
                assert(defs.contains(d));
                let j = choose|j: int| 0 <= j < defs.len() && defs[j] == d;
                if j < at {
                    assert(after[j] == d);
                } else {
                    assert(after[j + 1] == d);
                }
            }
        }
    }
}

/// Lists with the same members are merges of the same plugins.
proof fn lemma_same_merge(defs: Seq<DefV>, other: Seq<DefV>, all: Seq<DefV>)
    requires
        is_merge(defs, all),
        ids_differ(other),
        forall|d: DefV| other.contains(d) <==> #[trigger] defs.contains(d),
    ensures
        is_merge(other, all),
{
    assert forall|i: int| 0 <= i < other.len() implies last_with_id(
        all,
        (#[trigger] other[i]).id,
    ) == Some(other[i]) by {
        assert(other.contains(other[i]));
        assert(defs.contains(other[i]));
        let j = choose|j: int| 0 <= j < defs.len() && defs[j] == other[i];
        assert(last_with_id(all, defs[j].id) == Some(defs[j]));
    }
    assert forall|id: Seq<char>| #[trigger] last_with_id(all, id) is Some implies exists|i: int|
        0 <= i < other.len() && (#[trigger] other[i]).id == id by {
        let j = choose|j: int| 0 <= j < defs.len() && (#[trigger] defs[j]).id == id;
        assert(defs.contains(defs[j]));
        assert(other.contains(defs[j]));
        let i = choose|i: int| 0 <= i < other.len() && other[i] == defs[j];
        assert(other[i].id == id);
    }
}

fn sort_by_name(defs: &Vec<PluginDef>, all: Ghost<Seq<DefV>>) -> (r: Vec<PluginDef>)
    requires
        is_merge(defs_view(defs@), all@),
    ensures
        is_merge(defs_view(r@), all@),
        in_name_order(defs_view(r@)),
{
    let ghost model = defs_view(defs@);
    let mut sorted: Vec<PluginDef> = Vec::new();
    let mut i: usize = 0;
    assert(defs_view(sorted@) =~= model.take(0));
    while i < defs.len()
        invariant
            i <= defs.len(),
            model == defs_view(defs@),
            ids_differ(model),
            in_name_order(defs_view(sorted@)),
            ids_differ(defs_view(sorted@)),
            defs_view(sorted@).len() == i,
            forall|d: DefV|
                defs_view(sorted@).contains(d) <==> #[trigger] model.take(i as int).contains(d),
        decreases defs.len() - i,
    {
        let ghost earlier = defs_view(sorted@);
        insert_by_name(&mut sorted, defs[i].copy());
        proof {
            let value = defs@[i as int]@;
            let at = choose|at: int|
                0 <= at <= earlier.len() && defs_view(sorted@) == #[trigger] earlier.insert(
                    at,
                    value,
                );
            let part = model.take(i as int);
            assert(model.take(i + 1) =~= part.push(value));
            assert forall|a: int, b: int| 0 <= a < b < part.push(value).len() implies (
            #[trigger] part.push(value)[a]).id != (#[trigger] part.push(value)[b]).id by {
                assert(model[a].id != model[b].id);
            }
            lemma_merge_insert(earlier, value, at, part);
        }
        i += 1;
    }
    proof {
        assert(model.take(i as int) =~= model);
        lemma_same_merge(model, defs_view(sorted@), all@);
    }
    sorted
}

fn merge_all(defs: &mut Vec<PluginDef>, more: Vec<PluginDef>, all: Ghost<Seq<DefV>>)
    requires
        is_merge(defs_view(old(defs)@), all@),
    ensures
        is_merge(defs_view(final(defs)@), all@ + defs_view(more@)),
{
    let ghost model = defs_view(more@);
    let mut i: usize = 0;
    assert(all@ + model.take(0) =~= all@);
    while i < more.len()
        invariant
            i <= more.len(),
            model == defs_view(more@),
            is_merge(defs_view(defs@), all@ + model.take(i as int)),
        decreases more.len() - i,
    {
        merge_def(defs, more[i].copy(), Ghost(all@ + model.take(i as int)));
        assert((all@ + model.take(i as int)).push(model[i as int]) =~= all@ + model.take(i + 1));
        i += 1;
    }
    assert(model.take(i as int) =~= model);
}

/// The plugins of both lists, one after the other, or the complaint.
pub open spec fn listed_plugins(
    builtin: Seq<char>,
    overlay: Option<Result<Seq<char>, Seq<char>>>,
) -> Result<Seq<DefV>, Seq<char>> {
    match catalog_parsed(builtin) {
        Err(message) => Err(message),
        Ok(first) => match overlay {
            None => Ok(first),
            Some(Err(message)) => Err(message),
            Some(Ok(text)) => match catalog_parsed(text) {
                Err(message) => Err("本地 catalog.json 无效："@ + message),
                Ok(second) => Ok(first + second),
            },
        },
    }
}

/// The list of plugins that can be installed: the built-in one and the one that
/// the user keeps, which wins where both have an identifier. They come in the
/// order of their names.
pub fn load_catalog(builtin: &str, overlay: Option<Result<String, String>>) -> (r: Result<
    Vec<PluginDef>,
    String,
>)
    ensures
        match listed_plugins(builtin@, crate::config::stored_text(overlay)) {
            Err(message) => r matches Err(text) && text@ == message,
            Ok(all) => r matches Ok(defs) && is_merge(defs_view(defs@), all) && in_name_order(
                defs_view(defs@),
            ),
        },
{
    let first = match parse_catalog(builtin) {
        Ok(first) => first,
        Err(message) => {
            return Err(message);
        },
    };
    let ghost known = defs_view(first@);
    let mut defs: Vec<PluginDef> = Vec::new();
    assert(is_merge(defs_view(defs@), Seq::empty()));
    merge_all(&mut defs, first, Ghost(Seq::empty()));
    assert(Seq::<DefV>::empty() + known =~= known);
    match overlay {
        None => Ok(sort_by_name(&defs, Ghost(known))),
        Some(Err(message)) => Err(message),
        Some(Ok(text)) => match parse_catalog(text.as_str()) {
            Err(message) => Err(
                "本地 catalog.json 无效：".to_string().concat(message.as_str()),
            ),
            Ok(second) => {
                let ghost all = known + defs_view(second@);
                merge_all(&mut defs, second, Ghost(known));
                Ok(sort_by_name(&defs, Ghost(all)))
            },
        },
    }
}

/// The user's list wins: a plugin that it names is taken from it.
pub proof fn overlay_wins(first: Seq<DefV>, second: Seq<DefV>, id: Seq<char>)
    ensures
        last_with_id(second, id) is Some ==> last_with_id(first + second, id) == last_with_id(
            second,
            id,
        ),
        last_with_id(second, id) is None ==> last_with_id(first + second, id) == last_with_id(
            first,
            id,
        ),
    decreases second.len(),
{
    if second.len() > 0 {
        assert((first + second).drop_last() =~= first + second.drop_last());
        overlay_wins(first, second.drop_last(), id);
    } else {
        assert(first + second =~= first);
    }
}

// ---------------------------------------------------------------------------
// Single plugins
// ---------------------------------------------------------------------------

/// The first plugin with this identifier.
pub open spec fn first_with_id(defs: Seq<DefV>, id: Seq<char>) -> Option<DefV>
    decreases defs.len(),
{
    if defs.len() == 0 {
        None
    } else if defs[0].id == id {
        Some(defs[0])
    } else {
        first_with_id(defs.drop_first(), id)
    }
}

proof fn lemma_first_with_id(defs: Seq<DefV>, id: Seq<char>, i: int)
    requires
        0 <= i <= defs.len(),
        forall|k: int| 0 <= k < i ==> (#[trigger] defs[k]).id != id,
        i < defs.len() ==> defs[i].id == id,
    ensures
        first_with_id(defs, id) == (if i < defs.len() {
            Some(defs[i])
        } else {
            None
        }),
    decreases defs.len(),
{
    if defs.len() > 0 && i > 0 {
        let rest = defs.drop_first();
        assert(defs[0].id != id);
        assert forall|k: int| 0 <= k < i - 1 implies (#[trigger] rest[k]).id != id by {
            assert(defs[k + 1].id != id);
        }
        lemma_first_with_id(rest, id, i - 1);
    }
}

/// Finds a plugin.
pub fn find<'a>(plugins: &'a Vec<PluginDef>, id: &str) -> (r: Option<&'a PluginDef>)
    ensures
        (match r {
            Some(def) => Some(def@),
            None => None,
        }) == first_with_id(defs_view(plugins@), id@),
{
    let ghost model = defs_view(plugins@);
    assert forall|k: int| 0 <= k < plugins@.len() implies (#[trigger] plugins@[k])@ == model[k] by {}
    match find_def(plugins, id) {
        Some(i) => {
            proof {
                assert forall|k: int| 0 <= k < i implies (#[trigger] model[k]).id != id@ by {
                    assert(plugins@[k]@ == model[k]);
                }
                lemma_first_with_id(model, id@, i as int);
            }
            Some(&plugins[i])
        },
        None => {
            proof {
                assert forall|k: int| 0 <= k < model.len() implies (#[trigger] model[k]).id
                    != id@ by {
                    assert(plugins@[k]@ == model[k]);
                }
                lemma_first_with_id(model, id@, model.len() as int);
            }
            None
        },
    }
}

/// The icon has an address on the web.
pub open spec fn is_web_icon(icon: Seq<char>) -> bool {
    has_prefix(icon, "http://"@) || has_prefix(icon, "https://"@)
}

/// The file of a plugin's icon in the directory of icons: the one of its
/// identifier, or the one that the catalogue names.
pub open spec fn icon_file(plugin: DefV, has_own: bool, has_named: bool) -> Option<Seq<char>> {
    if has_own {
        Some(plugin.id + ".png"@)
    } else {
        match plugin.icon {
            Some(icon) => if !is_web_icon(icon) && has_named {
                Some(icon)
            } else {
                None
            },
            None => None,
        }
    }
}

/// The file of a plugin's icon. `has_own` and `has_named` say whether there is
/// a file of the plugin's identifier, and of the name in the catalogue.
pub fn resolve_icon_path(plugin: &PluginDef, has_own: bool, has_named: bool) -> (r: Option<String>)
    ensures
        opt_view(r) == icon_file(plugin@, has_own, has_named),
{
    if has_own {
        return Some(plugin.id.clone().concat(".png"));
    }
    match &plugin.icon {
        Some(icon) => {
            if starts_with(icon.as_str(), "http://") || starts_with(icon.as_str(), "https://") {
                return None;
            }
            if has_named {
                Some(icon.clone())
            } else {
                None
            }
        },
        None => None,
    }
}

} // verus!
