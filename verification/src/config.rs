//! Where the host keeps its data.
use vstd::prelude::*;

use crate::records::{
    fields_view, has_field, laid_out_text_is_read, lemma_record_fits, parse_record, record_parsed,
    rows_view, value_outcome, Row, RowV, MAX_PART_NESTING,
};
use crate::json::{
    collected, json_pretty, lemma_collected_survives, object_of, pairs_view, text_json,
    write_pretty, Json, JsonV,
};
use crate::text::{list_view, opt_view, trim, trimmed};

verus! {

/// The configuration that stands beside the program's own data: the directory
/// in which plugins and media lie, where it is not the default one.
#[derive(Clone, Debug)]
pub struct HostConfig {
    pub data_root: Option<String>,
}

impl Default for HostConfig {
    fn default() -> (r: HostConfig)
        ensures
            r.data_root is None,
    {
        HostConfig { data_root: None }
    }
}

/// The configuration that a stored value is: an object, or a list of its only
/// field. The inner option is the directory.
pub open spec fn config_from(value: JsonV) -> Option<Option<Seq<char>>> {
    let field = match value {
        JsonV::Object(_) => Some(value.get("dataRoot"@)),
        JsonV::Array(items) => if items.len() == 0 {
            Some(None)
        } else if items.len() == 1 {
            Some(Some(items[0]))
        } else {
            None
        },
        _ => None,
    };
    match field {
        None => None,
        Some(None) => Some(None),
        Some(Some(JsonV::Null)) => Some(None),
        Some(Some(JsonV::Text(root))) => Some(Some(root)),
        _ => None,
    }
}

fn read_config(value: &Json) -> (r: Option<HostConfig>)
    ensures
        match r {
            Some(config) => config_from(value@) == Some(opt_view(config.data_root)),
            None => config_from(value@) is None,
        },
{
    let field = match value {
        Json::Object(members) => members.get("dataRoot"),
        Json::Array(items) => {
            proof {
                crate::json::lemma_values_view(items@);
            }
            if items.len() == 0 {
                None
            } else if items.len() == 1 {
                Some(&items[0])
            } else {
                return None;
            }
        },
        _ => {
            return None;
        },
    };
    match field {
        None => Some(HostConfig { data_root: None }),
        Some(Json::Null) => Some(HostConfig { data_root: None }),
        Some(Json::Text(root)) => Some(HostConfig { data_root: Some(root.clone()) }),
        _ => None,
    }
}

/// The fields of a configuration.
pub open spec fn config_rows() -> Seq<RowV> {
    seq![RowV::Any, RowV::Record(seq![("dataRoot"@, 0)])]
}

fn parse_config(text: &str) -> (r: Result<Json, String>)
    ensures
        value_outcome(r) == record_parsed(text@, config_rows(), 1),
{
    let fields = vec![("dataRoot", 0usize)];
    assert(fields_view(fields@) =~= config_rows()[1]->Record_0);
    let rows = vec![Row::Any, Row::Record(fields)];
    assert(rows_view(rows@) =~= config_rows());
    parse_record(text, &rows, 1)
}

/// The configuration that was stored. `None` stands for no stored
/// configuration.
pub open spec fn stored_config(stored: Option<Result<Seq<char>, Seq<char>>>) -> Result<
    Option<Seq<char>>,
    Seq<char>,
> {
    match stored {
        None => Ok(None),
        Some(Err(message)) => Err(message),
        Some(Ok(text)) => match record_parsed(text, config_rows(), 1) {
            Err(message) => Err(message),
            Ok(value) => match config_from(value) {
                Some(root) => Ok(root),
                None => Err("host.json 的字段类型无效。"@),
            },
        },
    }
}

/// The text that was read, or the complaint.
pub open spec fn stored_text(stored: Option<Result<String, String>>) -> Option<
    Result<Seq<char>, Seq<char>>,
> {
    match stored {
        None => None,
        Some(Ok(text)) => Some(Ok(text@)),
        Some(Err(message)) => Some(Err(message@)),
    }
}

/// Reads the configuration, given the text of its file where there is one.
pub fn load_host_config(stored: Option<Result<String, String>>) -> (r: Result<HostConfig, String>)
    ensures
        (match r {
            Ok(config) => Ok(opt_view(config.data_root)),
            Err(message) => Err(message@),
        }) == stored_config(stored_text(stored)),
{
    match stored {
        None => Ok(HostConfig { data_root: None }),
        Some(Err(message)) => Err(message),
        Some(Ok(text)) => match parse_config(text.as_str()) {
            Err(message) => Err(message),
            Ok(value) => match read_config(&value) {
                Some(config) => Ok(config),
                None => Err("host.json 的字段类型无效。".to_string()),
            },
        },
    }
}

pub open spec fn config_json(root: Option<Seq<char>>) -> JsonV {
    JsonV::Object(
        collected(
            match root {
                Some(path) => seq![("dataRoot"@, JsonV::Text(path))],
                None => Seq::empty(),
            },
        ),
    )
}

/// The stored form of a configuration.
fn config_value(config: &HostConfig) -> (r: Json)
    ensures
        r@ == config_json(opt_view(config.data_root)),
{
    let mut pairs: Vec<(&str, Json)> = Vec::new();
    if let Some(root) = &config.data_root {
        pairs.push(("dataRoot", text_json(root.as_str())));
    }
    assert(pairs_view(pairs@) =~= (match opt_view(config.data_root) {
        Some(path) => seq![("dataRoot"@, JsonV::Text(path))],
        None => Seq::empty(),
    }));
    object_of(pairs)
}

/// A stored configuration is read back as it was.
pub proof fn stored_config_reads_back(root: Option<Seq<char>>)
    ensures
        config_from(config_json(root)) == Some(root),
{
    let pairs = match root {
        Some(path) => seq![("dataRoot"@, JsonV::Text(path))],
        None => Seq::empty(),
    };
    crate::json::lemma_collected_member(pairs, "dataRoot"@);
}

/// The text of the file that keeps the configuration. Reading it gives the
/// configuration back.
pub fn save_host_config(config: &HostConfig) -> (r: String)
    ensures
        r@ == json_pretty(config_json(opt_view(config.data_root))),
        stored_config(Some(Ok(r@))) == Ok::<Option<Seq<char>>, Seq<char>>(
            opt_view(config.data_root),
        ),
{
    proof {
        let root = opt_view(config.data_root);
        let pairs = match root {
            Some(path) => seq![("dataRoot"@, JsonV::Text(path))],
            None => Seq::empty(),
        };
        lemma_collected_survives(pairs, 125);
        stored_config_reads_back(root);
        assert forall|i: int| 0 <= i < pairs.len() implies has_field(
            config_rows()[1]->Record_0,
            (#[trigger] pairs[i]).0,
        ) by {
            assert(config_rows()[1]->Record_0[0].0 == pairs[i].0);
        }
        lemma_record_fits(pairs, config_rows(), 1);
    }
    let text = write_pretty(&config_value(config));
    proof {
        laid_out_text_is_read(
            text@,
            config_json(opt_view(config.data_root)),
            config_rows(),
            1,
            MAX_PART_NESTING as nat,
        );
    }
    text
}

/// The directory that a configuration asks for; a blank one does not count.
pub open spec fn wanted_root(root: Option<Seq<char>>) -> Option<Seq<char>> {
    match root {
        Some(path) => if trimmed(path).len() > 0 {
            Some(trimmed(path))
        } else {
            None
        },
        None => None,
    }
}

/// The directory that a configuration asks for, where it asks for another than
/// the default.
pub fn resolve_data_directory(config: &HostConfig) -> (r: Option<String>)
    ensures
        opt_view(r) == wanted_root(opt_view(config.data_root)),
{
    match &config.data_root {
        Some(path) => {
            let root = trim(path.as_str());
            if root.as_str().is_empty() {
                None
            } else {
                Some(root)
            }
        },
        None => None,
    }
}

/// The configuration with another directory.
pub fn set_data_root(config: HostConfig, canonical: String) -> (r: HostConfig)
    ensures
        opt_view(r.data_root) == Some(canonical@),
{
    HostConfig { data_root: Some(canonical) }
}

/// The file of the configuration, below the program's own directory.
pub fn host_config_path() -> (r: Vec<String>)
    ensures
        list_view(r@) == seq!["BackgroundStudio"@, "host.json"@],
{
    let r: Vec<String> = vec!["BackgroundStudio".to_string(), "host.json".to_string()];
    assert(list_view(r@) =~= seq!["BackgroundStudio"@, "host.json"@]);
    r
}

// ---------------------------------------------------------------------------
// Moving the data
// ---------------------------------------------------------------------------

/// The files of the data directory that go along when it moves.
pub fn data_files() -> (r: Vec<String>)
    ensures
        list_view(r@) == seq![
            "plugins.json"@,
            "library.json"@,
            "migration-standalone-v1.marker"@,
        ],
{
    let r: Vec<String> = vec![
        "plugins.json".to_string(),
        "library.json".to_string(),
        "migration-standalone-v1.marker".to_string(),
    ];
    assert(list_view(r@) =~= seq![
        "plugins.json"@,
        "library.json"@,
        "migration-standalone-v1.marker"@,
    ]);
    r
}

/// The directories of the data directory that go along when it moves.
pub fn data_directories() -> (r: Vec<String>)
    ensures
        list_view(r@) == seq!["plugins"@, "icons"@, "media"@, "temporary"@, "profiles"@],
{
    let r: Vec<String> = vec![
        "plugins".to_string(),
        "icons".to_string(),
        "media".to_string(),
        "temporary".to_string(),
        "profiles".to_string(),
    ];
    assert(list_view(r@) =~= seq!["plugins"@, "icons"@, "media"@, "temporary"@, "profiles"@]);
    r
}

/// Whether a file of the data directory is copied when it moves: one that is
/// already there stays.
pub fn takes_along(is_here: bool, is_there: bool) -> (r: bool)
    ensures
        r == (is_here && !is_there),
{
    is_here && !is_there
}

} // verus!
