//! The media catalogue's records.
use vstd::prelude::*;

use crate::records::{
    fields_view, fits, laid_out_text_is_read, lemma_record_fits, parse_record, record_parsed,
    rows_view, Row, RowV, MAX_PART_NESTING,
};
use crate::json::{
    check_record, collected, get_record_field, int_json, is_record, json_pretty,
    lemma_collected_member, lemma_collected_survives, lemma_pair_found, lemma_pair_missing,
    lemma_values_view, member, names_differ, object_of, pairs_view, record_field, survives,
    text_json, values_view, write_pretty, Json, JsonV, Num,
};
use crate::text::{copy_opt, opt_view, same};

verus! {

#[derive(Clone, Copy, Debug, PartialEq, Eq, Structural)]
pub enum FitMode {
    Cover,
    Contain,
    Fill,
    Tile,
}

impl Default for FitMode {
    fn default() -> (r: FitMode)
        ensures
            r == FitMode::Cover,
    {
        FitMode::Cover
    }
}

#[derive(Clone, Copy, Debug, PartialEq, Eq, Structural)]
pub enum SlideshowOrder {
    Sequential,
    Random,
}

impl Default for SlideshowOrder {
    fn default() -> (r: SlideshowOrder)
        ensures
            r == SlideshowOrder::Sequential,
    {
        SlideshowOrder::Sequential
    }
}

/// The order that a stored profile names.
pub open spec fn order_named(name: Seq<char>) -> Option<SlideshowOrder> {
    if name == "sequential"@ {
        Some(SlideshowOrder::Sequential)
    } else if name == "random"@ {
        Some(SlideshowOrder::Random)
    } else {
        None
    }
}

pub fn slideshow_order(name: &str) -> (r: Option<SlideshowOrder>)
    ensures
        r == order_named(name@),
{
    if same(name, "sequential") {
        Some(SlideshowOrder::Sequential)
    } else if same(name, "random") {
        Some(SlideshowOrder::Random)
    } else {
        None
    }
}

#[derive(Clone, Copy, Debug, PartialEq, Eq, Structural)]
pub enum MediaKind {
    Image,
    Video,
}

#[derive(Clone, Copy, Debug, PartialEq, Eq, Structural)]
pub enum MediaOrigin {
    Local,
    Remote,
    Api,
    Folder,
}

/// One item of the media library.
#[derive(Clone, Debug)]
pub struct MediaItem {
    pub id: String,
    pub name: String,
    pub kind: MediaKind,
    pub origin: MediaOrigin,
    pub file_name: String,
    pub mime_type: String,
    pub byte_size: u64,
    pub sha256: String,
    pub source_url: Option<String>,
    pub file_count: Option<u64>,
    pub created_at: String,
    pub preview_url: Option<String>,
}

/// The model of a media item.
pub struct ItemV {
    pub id: Seq<char>,
    pub name: Seq<char>,
    pub kind: MediaKind,
    pub origin: MediaOrigin,
    pub file_name: Seq<char>,
    pub mime_type: Seq<char>,
    pub byte_size: u64,
    pub sha256: Seq<char>,
    pub source_url: Option<Seq<char>>,
    pub file_count: Option<u64>,
    pub created_at: Seq<char>,
    pub preview_url: Option<Seq<char>>,
}

impl View for MediaItem {
    type V = ItemV;

    open spec fn view(&self) -> ItemV {
        ItemV {
            id: self.id@,
            name: self.name@,
            kind: self.kind,
            origin: self.origin,
            file_name: self.file_name@,
            mime_type: self.mime_type@,
            byte_size: self.byte_size,
            sha256: self.sha256@,
            source_url: opt_view(self.source_url),
            file_count: self.file_count,
            created_at: self.created_at@,
            preview_url: opt_view(self.preview_url),
        }
    }
}

/// The items of a list.
pub open spec fn items_view(s: Seq<MediaItem>) -> Seq<ItemV> {
    s.map_values(|item: MediaItem| item@)
}

impl MediaItem {
    pub fn copy(&self) -> (r: MediaItem)
        ensures
            r@ == self@,
    {
        MediaItem {
            id: self.id.clone(),
            name: self.name.clone(),
            kind: self.kind,
            origin: self.origin,
            file_name: self.file_name.clone(),
            mime_type: self.mime_type.clone(),
            byte_size: self.byte_size,
            sha256: self.sha256.clone(),
            source_url: copy_opt(&self.source_url),
            file_count: self.file_count,
            created_at: self.created_at.clone(),
            preview_url: copy_opt(&self.preview_url),
        }
    }
}

/// What an import did: the items that were added, and the paths that were
/// left out with the reason.
#[derive(Clone, Debug)]
pub struct ImportResult {
    pub added: Vec<MediaItem>,
    pub skipped: Vec<SkippedImport>,
}

impl Default for ImportResult {
    fn default() -> (r: ImportResult)
        ensures
            r.added@.len() == 0,
            r.skipped@.len() == 0,
    {
        ImportResult { added: Vec::new(), skipped: Vec::new() }
    }
}

#[derive(Clone, Debug)]
pub struct SkippedImport {
    pub path: String,
    pub reason: String,
}

/// The model of a skipped path: the path and the reason.
pub open spec fn skipped_view(s: Seq<SkippedImport>) -> Seq<(Seq<char>, Seq<char>)> {
    s.map_values(|item: SkippedImport| (item.path@, item.reason@))
}

impl ImportResult {
    /// The items that were added and the paths that were skipped.
    pub open spec fn model(self) -> (Seq<ItemV>, Seq<(Seq<char>, Seq<char>)>) {
        (items_view(self.added@), skipped_view(self.skipped@))
    }
}

pub fn copy_items(items: &Vec<MediaItem>) -> (r: Vec<MediaItem>)
    ensures
        items_view(r@) == items_view(items@),
{
    let mut out: Vec<MediaItem> = Vec::new();
    let mut i: usize = 0;
    while i < items.len()
        invariant
            i <= items.len(),
            items_view(out@) == items_view(items@).take(i as int),
        decreases items.len() - i,
    {
        let ghost before = out@;
        out.push(items[i].copy());
        assert(items_view(out@) == items_view(before).push(items@[i as int]@));
        i += 1;
    }
    assert(items_view(items@).take(i as int) == items_view(items@));
    out
}

// ---------------------------------------------------------------------------
// The stored form
// ---------------------------------------------------------------------------

pub open spec fn kind_name(kind: MediaKind) -> Seq<char> {
    match kind {
        MediaKind::Image => "image"@,
        MediaKind::Video => "video"@,
    }
}

pub open spec fn kind_named(name: Seq<char>) -> Option<MediaKind> {
    if name == "image"@ {
        Some(MediaKind::Image)
    } else if name == "video"@ {
        Some(MediaKind::Video)
    } else {
        None
    }
}

pub open spec fn origin_name(origin: MediaOrigin) -> Seq<char> {
    match origin {
        MediaOrigin::Local => "local"@,
        MediaOrigin::Remote => "remote"@,
        MediaOrigin::Api => "api"@,
        MediaOrigin::Folder => "folder"@,
    }
}

pub open spec fn origin_named(name: Seq<char>) -> Option<MediaOrigin> {
    if name == "local"@ {
        Some(MediaOrigin::Local)
    } else if name == "remote"@ {
        Some(MediaOrigin::Remote)
    } else if name == "api"@ {
        Some(MediaOrigin::Api)
    } else if name == "folder"@ {
        Some(MediaOrigin::Folder)
    } else {
        None
    }
}

/// The name of a kind of media.
pub fn kind_text(kind: MediaKind) -> (r: &'static str)
    ensures
        r@ == kind_name(kind),
{
    match kind {
        MediaKind::Image => "image",
        MediaKind::Video => "video",
    }
}

fn origin_text(origin: MediaOrigin) -> (r: &'static str)
    ensures
        r@ == origin_name(origin),
{
    match origin {
        MediaOrigin::Local => "local",
        MediaOrigin::Remote => "remote",
        MediaOrigin::Api => "api",
        MediaOrigin::Folder => "folder",
    }
}

/// The name of a choice: a string, or an object whose only member, of that
/// name, is null.
pub open spec fn choice_name(value: JsonV) -> Option<Seq<char>> {
    match value {
        JsonV::Text(name) => Some(name),
        JsonV::Object(members) => if members.len() == 1 && members[0].1 == JsonV::Null {
            Some(members[0].0)
        } else {
            None
        },
        _ => None,
    }
}

/// Reads the name of a choice.
pub fn read_choice(value: &Json) -> (r: Option<&String>)
    ensures
        match r {
            Some(name) => choice_name(value@) == Some(name@),
            None => choice_name(value@) is None,
        },
{
    match value {
        Json::Text(name) => Some(name),
        Json::Object(members) => if members.len() == 1 && matches!(members.value(0), Json::Null) {
            Some(members.key(0))
        } else {
            None
        },
        _ => None,
    }
}

/// A text field of a stored item.
pub open spec fn item_text(value: JsonV, key: Seq<char>, at: int) -> Option<Seq<char>> {
    match record_field(value, key, at) {
        Some(field) => field.as_str(),
        None => None,
    }
}

fn get_item_text<'a>(value: &'a Json, key: &str, at: usize) -> (r: Option<&'a String>)
    ensures
        match r {
            Some(text) => item_text(value@, key@, at as int) == Some(text@),
            None => item_text(value@, key@, at as int) is None,
        },
{
    match get_record_field(value, key, at) {
        Some(field) => field.as_str(),
        None => None,
    }
}

/// A text that may be missing or null; the outer option is `None` where
/// something else stands.
pub open spec fn item_opt_text(value: JsonV, key: Seq<char>, at: int) -> Option<Option<Seq<char>>> {
    match record_field(value, key, at) {
        None => Some(None),
        Some(JsonV::Null) => Some(None),
        Some(JsonV::Text(text)) => Some(Some(text)),
        _ => None,
    }
}

fn get_item_opt_text(value: &Json, key: &str, at: usize) -> (r: Option<Option<String>>)
    ensures
        match r {
            Some(text) => item_opt_text(value@, key@, at as int) == Some(opt_view(text)),
            None => item_opt_text(value@, key@, at as int) is None,
        },
{
    match get_record_field(value, key, at) {
        None => Some(None),
        Some(Json::Null) => Some(None),
        Some(Json::Text(text)) => Some(Some(text.clone())),
        _ => None,
    }
}

/// An unsigned number that may be missing or null.
pub open spec fn item_opt_number(value: JsonV, key: Seq<char>, at: int) -> Option<Option<u64>> {
    match record_field(value, key, at) {
        None => Some(None),
        Some(JsonV::Null) => Some(None),
        Some(field) => match field.as_u64() {
            Some(n) => Some(Some(n)),
            None => None,
        },
    }
}

fn get_item_opt_number(value: &Json, key: &str, at: usize) -> (r: Option<Option<u64>>)
    ensures
        r == item_opt_number(value@, key@, at as int),
{
    match get_record_field(value, key, at) {
        None => Some(None),
        Some(Json::Null) => Some(None),
        Some(field) => match field.as_u64() {
            Some(n) => Some(Some(n)),
            None => None,
        },
    }
}

pub open spec fn item_kind(value: JsonV) -> Option<MediaKind> {
    match record_field(value, "kind"@, 2) {
        Some(field) => match choice_name(field) {
            Some(name) => kind_named(name),
            None => None,
        },
        None => None,
    }
}

fn get_item_kind(value: &Json) -> (r: Option<MediaKind>)
    ensures
        r == item_kind(value@),
{
    let field = get_record_field(value, "kind", 2)?;
    let name = read_choice(field)?;
    if same(name.as_str(), "image") {
        Some(MediaKind::Image)
    } else if same(name.as_str(), "video") {
        Some(MediaKind::Video)
    } else {
        None
    }
}

pub open spec fn item_origin(value: JsonV) -> Option<MediaOrigin> {
    match record_field(value, "origin"@, 3) {
        Some(field) => match choice_name(field) {
            Some(name) => origin_named(name),
            None => None,
        },
        None => None,
    }
}

fn get_item_origin(value: &Json) -> (r: Option<MediaOrigin>)
    ensures
        r == item_origin(value@),
{
    let field = get_record_field(value, "origin", 3)?;
    let name = read_choice(field)?;
    if same(name.as_str(), "local") {
        Some(MediaOrigin::Local)
    } else if same(name.as_str(), "remote") {
        Some(MediaOrigin::Remote)
    } else if same(name.as_str(), "api") {
        Some(MediaOrigin::Api)
    } else if same(name.as_str(), "folder") {
        Some(MediaOrigin::Folder)
    } else {
        None
    }
}

pub open spec fn item_size(value: JsonV) -> Option<u64> {
    match record_field(value, "byteSize"@, 6) {
        Some(field) => field.as_u64(),
        None => None,
    }
}

fn get_item_size(value: &Json) -> (r: Option<u64>)
    ensures
        r == item_size(value@),
{
    match get_record_field(value, "byteSize", 6) {
        Some(field) => field.as_u64(),
        None => None,
    }
}

/// The item that a stored value is.
pub open spec fn item_from(value: JsonV) -> Option<ItemV> {
    let id = item_text(value, "id"@, 0);
    let name = item_text(value, "name"@, 1);
    let kind = item_kind(value);
    let origin = item_origin(value);
    let file_name = item_text(value, "fileName"@, 4);
    let mime_type = item_text(value, "mimeType"@, 5);
    let byte_size = item_size(value);
    let sha256 = item_text(value, "sha256"@, 7);
    let source_url = item_opt_text(value, "sourceUrl"@, 8);
    let file_count = item_opt_number(value, "fileCount"@, 9);
    let created_at = item_text(value, "createdAt"@, 10);
    let preview_url = item_opt_text(value, "previewUrl"@, 11);
    if is_record(value, 11, 12) && id is Some && name is Some && kind is Some && origin is Some
        && file_name is Some && mime_type is Some && byte_size is Some && sha256 is Some
        && source_url is Some && file_count is Some && created_at is Some && preview_url is Some {
        Some(
            ItemV {
                id: id->0,
                name: name->0,
                kind: kind->0,
                origin: origin->0,
                file_name: file_name->0,
                mime_type: mime_type->0,
                byte_size: byte_size->0,
                sha256: sha256->0,
                source_url: source_url->0,
                file_count: file_count->0,
                created_at: created_at->0,
                preview_url: preview_url->0,
            },
        )
    } else {
        None
    }
}

/// Reads a stored item.
pub fn read_item(value: &Json) -> (r: Option<MediaItem>)
    ensures
        match r {
            Some(item) => item_from(value@) == Some(item@),
            None => item_from(value@) is None,
        },
{
    if !check_record(value, 11, 12) {
        return None;
    }
    let id = get_item_text(value, "id", 0)?;
    let name = get_item_text(value, "name", 1)?;
    let kind = get_item_kind(value)?;
    let origin = get_item_origin(value)?;
    let file_name = get_item_text(value, "fileName", 4)?;
    let mime_type = get_item_text(value, "mimeType", 5)?;
    let byte_size: u64 = get_item_size(value)?;
    let sha256 = get_item_text(value, "sha256", 7)?;
    let source_url = get_item_opt_text(value, "sourceUrl", 8)?;
    let file_count = get_item_opt_number(value, "fileCount", 9)?;
    let created_at = get_item_text(value, "createdAt", 10)?;
    let preview_url = get_item_opt_text(value, "previewUrl", 11)?;
    Some(
        MediaItem {
            id: id.clone(),
            name: name.clone(),
            kind,
            origin,
            file_name: file_name.clone(),
            mime_type: mime_type.clone(),
            byte_size,
            sha256: sha256.clone(),
            source_url,
            file_count,
            created_at: created_at.clone(),
            preview_url,
        },
    )
}

/// The items of a stored list, where every entry is one.
pub open spec fn items_from_values(values: Seq<JsonV>) -> Option<Seq<ItemV>>
    decreases values.len(),
{
    if values.len() == 0 {
        Some(Seq::empty())
    } else {
        match (items_from_values(values.drop_last()), item_from(values.last())) {
            (Some(items), Some(item)) => Some(items.push(item)),
            _ => None,
        }
    }
}

/// The items of a stored catalogue.
pub open spec fn items_from(value: JsonV) -> Option<Seq<ItemV>> {
    match value {
        JsonV::Array(values) => items_from_values(values),
        _ => None,
    }
}

proof fn lemma_items_prefix(values: Seq<JsonV>, n: int)
    requires
        0 <= n <= values.len(),
        items_from_values(values) is Some,
    ensures
        items_from_values(values.take(n)) is Some,
    decreases values.len() - n,
{
    if n < values.len() {
        lemma_items_prefix(values, n + 1);
        assert(values.take(n + 1).drop_last() == values.take(n));
    } else {
        assert(values.take(n) == values);
    }
}

/// Reads a stored catalogue.
pub fn read_items(value: &Json) -> (r: Option<Vec<MediaItem>>)
    ensures
        match r {
            Some(items) => items_from(value@) == Some(items_view(items@)),
            None => items_from(value@) is None,
        },
{
    let values = match value {
        Json::Array(values) => values,
        _ => {
            return None;
        },
    };
    let ghost model = values_view(values@);
    proof {
        lemma_values_view(values@);
        assert(model.take(0).len() == 0);
    }
    let mut out: Vec<MediaItem> = Vec::new();
    assert(items_view(out@) =~= Seq::empty());
    let mut i: usize = 0;
    while i < values.len()
        invariant
            i <= values.len(),
            value@ == JsonV::Array(model),
            model.len() == values.len(),
            forall|k: int| 0 <= k < values.len() ==> #[trigger] model[k] == values@[k]@,
            items_from_values(model.take(i as int)) == Some(items_view(out@)),
        decreases values.len() - i,
    {
        proof {
            assert(model.take(i + 1).drop_last() == model.take(i as int));
            assert(model.take(i + 1).last() == values@[i as int]@);
            if items_from_values(model) is Some {
                lemma_items_prefix(model, i + 1);
            }
        }
        match read_item(&values[i]) {
            None => {
                return None;
            },
            Some(item) => {
                let ghost before = out@;
                out.push(item);
                assert(items_view(out@) =~= items_view(before).push(item@));
            },
        }
        i += 1;
    }
    assert(model.take(i as int) == model);
    Some(out)
}

/// The fields of a stored item; what is `None` is left out.
pub open spec fn item_pairs(item: ItemV) -> Seq<(Seq<char>, JsonV)> {
    seq![
        ("id"@, JsonV::Text(item.id)),
        ("name"@, JsonV::Text(item.name)),
        ("kind"@, JsonV::Text(kind_name(item.kind))),
        ("origin"@, JsonV::Text(origin_name(item.origin))),
        ("fileName"@, JsonV::Text(item.file_name)),
        ("mimeType"@, JsonV::Text(item.mime_type)),
        ("byteSize"@, JsonV::Num(Num::PosInt(item.byte_size))),
        ("sha256"@, JsonV::Text(item.sha256)),
        ("createdAt"@, JsonV::Text(item.created_at)),
    ] + (match item.source_url {
        Some(url) => seq![("sourceUrl"@, JsonV::Text(url))],
        None => Seq::empty(),
    }) + (match item.file_count {
        Some(count) => seq![("fileCount"@, JsonV::Num(Num::PosInt(count)))],
        None => Seq::empty(),
    }) + (match item.preview_url {
        Some(url) => seq![("previewUrl"@, JsonV::Text(url))],
        None => Seq::empty(),
    })
}

pub open spec fn item_json(item: ItemV) -> JsonV {
    JsonV::Object(collected(item_pairs(item)))
}

/// The stored form of an item.
pub fn item_value(item: &MediaItem) -> (r: Json)
    ensures
        r@ == item_json(item@),
{
    let mut pairs: Vec<(&str, Json)> = vec![
        ("id", text_json(item.id.as_str())),
        ("name", text_json(item.name.as_str())),
        ("kind", text_json(kind_text(item.kind))),
        ("origin", text_json(origin_text(item.origin))),
        ("fileName", text_json(item.file_name.as_str())),
        ("mimeType", text_json(item.mime_type.as_str())),
        ("byteSize", int_json(item.byte_size)),
        ("sha256", text_json(item.sha256.as_str())),
        ("createdAt", text_json(item.created_at.as_str())),
    ];
    if let Some(url) = &item.source_url {
        pairs.push(("sourceUrl", text_json(url.as_str())));
    }
    if let Some(count) = item.file_count {
        pairs.push(("fileCount", int_json(count)));
    }
    if let Some(url) = &item.preview_url {
        pairs.push(("previewUrl", text_json(url.as_str())));
    }
    assert(pairs_view(pairs@) =~= item_pairs(item@));
    object_of(pairs)
}

/// An item as it is stored: without the address of its preview.
pub open spec fn stored_item(item: ItemV) -> ItemV {
    ItemV { preview_url: None, ..item }
}

/// The stored form of a catalogue.
pub open spec fn catalog_json(items: Seq<ItemV>) -> JsonV {
    JsonV::Array(items.map_values(|item: ItemV| item_json(stored_item(item))))
}

/// The stored form of a catalogue.
fn catalog_value(items: &Vec<MediaItem>) -> (r: Json)
    ensures
        r@ == catalog_json(items_view(items@)),
{
    let mut out: Vec<Json> = Vec::new();
    let mut i: usize = 0;
    while i < items.len()
        invariant
            i <= items.len(),
            out.len() == i,
            forall|k: int|
                0 <= k < i ==> (#[trigger] out@[k])@ == item_json(stored_item(items@[k]@)),
        decreases items.len() - i,
    {
        let mut item = items[i].copy();
        item.preview_url = None;
        assert(item@ == stored_item(items@[i as int]@));
        out.push(item_value(&item));
        i += 1;
    }
    proof {
        lemma_values_view(out@);
        assert(values_view(out@) =~= items_view(items@).map_values(
            |item: ItemV| item_json(stored_item(item)),
        ));
    }
    Json::Array(out)
}

/// The fields of an item.
pub open spec fn item_fields() -> Seq<(Seq<char>, nat)> {
    seq![
        ("id"@, 0),
        ("name"@, 0),
        ("kind"@, 1),
        ("origin"@, 1),
        ("fileName"@, 0),
        ("mimeType"@, 0),
        ("byteSize"@, 0),
        ("sha256"@, 0),
        ("sourceUrl"@, 0),
        ("fileCount"@, 0),
        ("createdAt"@, 0),
        ("previewUrl"@, 0),
    ]
}

/// The shape of a catalogue: a list of items.
pub open spec fn items_rows() -> Seq<RowV> {
    seq![RowV::Any, RowV::Choice, RowV::Record(item_fields()), RowV::List(2)]
}

/// The items that the text of a catalogue lists.
pub open spec fn items_parsed(text: Seq<char>) -> Option<Seq<ItemV>> {
    match record_parsed(text, items_rows(), 3) {
        Ok(value) => items_from(value),
        Err(_) => None,
    }
}

/// Reads the text of a catalogue.
pub fn parse_items(text: &str) -> (r: Option<Vec<MediaItem>>)
    ensures
        (match r {
            Some(items) => Some(items_view(items@)),
            None => None,
        }) == items_parsed(text@),
{
    let fields = vec![
        ("id", 0usize),
        ("name", 0),
        ("kind", 1),
        ("origin", 1),
        ("fileName", 0),
        ("mimeType", 0),
        ("byteSize", 0),
        ("sha256", 0),
        ("sourceUrl", 0),
        ("fileCount", 0),
        ("createdAt", 0),
        ("previewUrl", 0),
    ];
    assert(fields_view(fields@) =~= item_fields());
    let rows = vec![Row::Any, Row::Choice, Row::Record(fields), Row::List(2)];
    assert(rows_view(rows@) =~= items_rows());
    match parse_record(text, &rows, 3) {
        Ok(value) => read_items(&value),
        Err(_) => None,
    }
}

proof fn lemma_item_fits(item: ItemV)
    ensures
        fits(item_json(item), items_rows(), 2),
{
    let fields = item_fields();
    let pairs = item_pairs(item);
    assert(items_rows()[2]->Record_0 == fields);
    assert(fields[0].0 == "id"@ && fields[1].0 == "name"@);
    assert(fields[2].0 == "kind"@ && fields[3].0 == "origin"@);
    assert(fields[4].0 == "fileName"@ && fields[5].0 == "mimeType"@);
    assert(fields[6].0 == "byteSize"@ && fields[7].0 == "sha256"@);
    assert(fields[8].0 == "sourceUrl"@ && fields[9].0 == "fileCount"@);
    assert(fields[10].0 == "createdAt"@ && fields[11].0 == "previewUrl"@);
    lemma_record_fits(pairs, items_rows(), 2);
}

/// The text of the file that keeps a catalogue, which is read as its stored
/// form.
pub fn catalog_text(items: &Vec<MediaItem>) -> (r: String)
    ensures
        r@ == json_pretty(catalog_json(items_view(items@))),
        record_parsed(r@, items_rows(), 3) == Ok::<JsonV, Seq<char>>(
            catalog_json(items_view(items@)),
        ),
{
    proof {
        let model = items_view(items@);
        let values = model.map_values(|item: ItemV| item_json(stored_item(item)));
        assert forall|i: int| 0 <= i < values.len() implies survives(#[trigger] values[i], 125)
            && fits(values[i], items_rows(), 2) by {
            lemma_collected_survives(item_pairs(stored_item(model[i])), 124);
            lemma_item_fits(stored_item(model[i]));
        }
    }
    let text = write_pretty(&catalog_value(items));
    proof {
        laid_out_text_is_read(
            text@,
            catalog_json(items_view(items@)),
            items_rows(),
            3,
            MAX_PART_NESTING as nat,
        );
    }
    text
}

proof fn lemma_item_names()
    ensures
        "id"@.len() == 2,
        "name"@.len() == 4 && "name"@[0] == 'n',
        "kind"@.len() == 4 && "kind"@[0] == 'k',
        "origin"@.len() == 6 && "origin"@[0] == 'o',
        "fileName"@.len() == 8 && "fileName"@[0] == 'f',
        "mimeType"@.len() == 8 && "mimeType"@[0] == 'm',
        "byteSize"@.len() == 8 && "byteSize"@[0] == 'b',
        "sha256"@.len() == 6 && "sha256"@[0] == 's',
        "sourceUrl"@.len() == 9 && "sourceUrl"@[0] == 's',
        "fileCount"@.len() == 9 && "fileCount"@[0] == 'f',
        "createdAt"@.len() == 9 && "createdAt"@[0] == 'c',
        "previewUrl"@.len() == 10,
{
    reveal_strlit("id");
    reveal_strlit("name");
    reveal_strlit("kind");
    reveal_strlit("origin");
    reveal_strlit("fileName");
    reveal_strlit("mimeType");
    reveal_strlit("byteSize");
    reveal_strlit("sha256");
    reveal_strlit("sourceUrl");
    reveal_strlit("fileCount");
    reveal_strlit("createdAt");
    reveal_strlit("previewUrl");
}

proof fn lemma_choice_names(item: ItemV)
    ensures
        kind_named(kind_name(item.kind)) == Some(item.kind),
        origin_named(origin_name(item.origin)) == Some(item.origin),
{
    reveal_strlit("image");
    reveal_strlit("video");
    reveal_strlit("local");
    reveal_strlit("remote");
    reveal_strlit("api");
    reveal_strlit("folder");
    assert("image"@[0] == 'i' && "video"@[0] == 'v');
    assert("local"@.len() == 5 && "api"@.len() == 3);
    assert("remote"@.len() == 6 && "remote"@[0] == 'r');
    assert("folder"@.len() == 6 && "folder"@[0] == 'f');
}

/// A stored item is read back as it was.
pub proof fn stored_item_reads_back(item: ItemV)
    ensures
        item_from(item_json(item)) == Some(item),
{
    lemma_item_names();
    lemma_choice_names(item);
    let pairs = item_pairs(item);
    assert(names_differ(pairs));
    let value = item_json(item);
    assert forall|i: int| 0 <= i < pairs.len() implies value.get((#[trigger] pairs[i]).0) == Some(
        pairs[i].1,
    ) by {
        lemma_pair_found(pairs, i);
        lemma_collected_member(pairs, pairs[i].0);
    }
    assert(value.get(pairs[0].0) == Some(pairs[0].1));
    assert(value.get(pairs[1].0) == Some(pairs[1].1));
    assert(value.get(pairs[2].0) == Some(pairs[2].1));
    assert(value.get(pairs[3].0) == Some(pairs[3].1));
    assert(value.get(pairs[4].0) == Some(pairs[4].1));
    assert(value.get(pairs[5].0) == Some(pairs[5].1));
    assert(value.get(pairs[6].0) == Some(pairs[6].1));
    assert(value.get(pairs[7].0) == Some(pairs[7].1));
    assert(value.get(pairs[8].0) == Some(pairs[8].1));
    lemma_optional_field(item, "sourceUrl"@);
    lemma_optional_field(item, "fileCount"@);
    lemma_optional_field(item, "previewUrl"@);
    if item.source_url is Some {
        assert(pairs[9].0 == "sourceUrl"@);
        assert(value.get(pairs[9].0) == Some(pairs[9].1));
    }
    if item.file_count is Some {
        let at = if item.source_url is Some {
            10int
        } else {
            9int
        };
        assert(pairs[at].0 == "fileCount"@);
        assert(value.get(pairs[at].0) == Some(pairs[at].1));
    }
    if item.preview_url is Some {
        let at = pairs.len() - 1;
        assert(pairs[at].0 == "previewUrl"@);
        assert(value.get(pairs[at].0) == Some(pairs[at].1));
    }
}

/// A field that is left out is not found.
proof fn lemma_optional_field(item: ItemV, key: Seq<char>)
    ensures
        key == "sourceUrl"@ && item.source_url is None ==> item_json(item).get(key) is None,
        key == "fileCount"@ && item.file_count is None ==> item_json(item).get(key) is None,
        key == "previewUrl"@ && item.preview_url is None ==> item_json(item).get(key) is None,
{
    lemma_item_names();
    let pairs = item_pairs(item);
    lemma_collected_member(pairs, key);
    if forall|i: int| 0 <= i < pairs.len() ==> (#[trigger] pairs[i]).0 != key {
        lemma_pair_missing(pairs, key);
    }
}

/// A stored catalogue is read back as it was, but for the addresses of the
/// previews.
pub proof fn stored_catalog_reads_back(items: Seq<ItemV>)
    ensures
        items_from(catalog_json(items)) == Some(
            items.map_values(|item: ItemV| stored_item(item)),
        ),
    decreases items.len(),
{
    let stored = items.map_values(|item: ItemV| stored_item(item));
    let values = items.map_values(|item: ItemV| item_json(stored_item(item)));
    if items.len() == 0 {
        assert(stored =~= Seq::empty());
    } else {
        let rest = items.drop_last();
        stored_catalog_reads_back(rest);
        assert(values.drop_last() =~= rest.map_values(|item: ItemV| item_json(stored_item(item))));
        stored_item_reads_back(stored_item(items.last()));
        assert(stored =~= rest.map_values(|item: ItemV| stored_item(item)).push(
            stored_item(items.last()),
        ));
    }
}

} // verus!
