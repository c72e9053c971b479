//! The media library: which files it takes, what it keeps of them, and how
//! one of them is chosen to be shown.
use vstd::prelude::*;

use crate::address::{parse_url, url_parsed, UrlV};
use crate::digest::{is_digest, sha256, sha256_of, sha256_text};
use crate::json::json_pretty;
use crate::models::{
    catalog_json, catalog_text, copy_items, items_parsed, items_view, parse_items, skipped_view,
    stored_catalog_reads_back, stored_item, ImportResult, ItemV, MediaItem, MediaKind, MediaOrigin,
    SkippedImport, SlideshowOrder,
};
use crate::paths::{
    extension, extension_in, extension_of, file_name, file_name_of, in_path_order, is_plain_name,
    name_extension, plain_name, sort_paths,
};
use crate::stamp::{is_uuid, new_id, now_text};
use crate::table::Table;
use crate::text::{
    chars_of, copy_list, copy_opt, decimal, decimal_text, is_control, list_view, lower, lower_text,
    opt_view, outcome, same, same_opt, text_of, trim, trimmed,
};

verus! {

pub const MAX_IMAGE_BYTES: u64 = 52428800;

pub const MAX_VIDEO_BYTES: u64 = 1073741824;

/// How long the listing of a folder is taken for fresh, in milliseconds.
pub const FOLDER_LISTING_TTL: u64 = 2000;

// ---------------------------------------------------------------------------
// Kinds of files
// ---------------------------------------------------------------------------

/// What is known of the files with some extension.
#[derive(Clone, Copy, Debug)]
pub struct MediaType {
    pub kind: MediaKind,
    pub mime_type: &'static str,
    pub maximum: u64,
}

/// The model of a media type: its kind, its MIME type and the largest size.
pub open spec fn type_view(t: MediaType) -> (MediaKind, Seq<char>, u64) {
    (t.kind, t.mime_type@, t.maximum)
}

/// The media type that an extension stands for.
pub open spec fn media_type_of(extension: Seq<char>) -> Option<(MediaKind, Seq<char>, u64)> {
    if extension == ".png"@ {
        Some((MediaKind::Image, "image/png"@, MAX_IMAGE_BYTES))
    } else if extension == ".jpg"@ || extension == ".jpeg"@ {
        Some((MediaKind::Image, "image/jpeg"@, MAX_IMAGE_BYTES))
    } else if extension == ".webp"@ {
        Some((MediaKind::Image, "image/webp"@, MAX_IMAGE_BYTES))
    } else if extension == ".gif"@ {
        Some((MediaKind::Image, "image/gif"@, MAX_IMAGE_BYTES))
    } else if extension == ".avif"@ {
        Some((MediaKind::Image, "image/avif"@, MAX_IMAGE_BYTES))
    } else if extension == ".mp4"@ {
        Some((MediaKind::Video, "video/mp4"@, MAX_VIDEO_BYTES))
    } else if extension == ".webm"@ {
        Some((MediaKind::Video, "video/webm"@, MAX_VIDEO_BYTES))
    } else if extension == ".ogv"@ {
        Some((MediaKind::Video, "video/ogg"@, MAX_VIDEO_BYTES))
    } else if extension == ".mov"@ {
        Some((MediaKind::Video, "video/quicktime"@, MAX_VIDEO_BYTES))
    } else {
        None
    }
}

/// The view of an optional media type.
pub open spec fn opt_type_view(t: Option<MediaType>) -> Option<(MediaKind, Seq<char>, u64)> {
    match t {
        Some(value) => Some(type_view(value)),
        None => None,
    }
}

fn image_type(mime_type: &'static str) -> (r: MediaType)
    ensures
        type_view(r) == (MediaKind::Image, mime_type@, MAX_IMAGE_BYTES),
{
    MediaType { kind: MediaKind::Image, mime_type, maximum: MAX_IMAGE_BYTES }
}

fn video_type(mime_type: &'static str) -> (r: MediaType)
    ensures
        type_view(r) == (MediaKind::Video, mime_type@, MAX_VIDEO_BYTES),
{
    MediaType { kind: MediaKind::Video, mime_type, maximum: MAX_VIDEO_BYTES }
}

/// The media type that an extension stands for.
pub fn media_type(extension: &str) -> (r: Option<MediaType>)
    ensures
        opt_type_view(r) == media_type_of(extension@),
{
    if same(extension, ".png") {
        Some(image_type("image/png"))
    } else if same(extension, ".jpg") || same(extension, ".jpeg") {
        Some(image_type("image/jpeg"))
    } else if same(extension, ".webp") {
        Some(image_type("image/webp"))
    } else if same(extension, ".gif") {
        Some(image_type("image/gif"))
    } else if same(extension, ".avif") {
        Some(image_type("image/avif"))
    } else if same(extension, ".mp4") {
        Some(video_type("video/mp4"))
    } else if same(extension, ".webm") {
        Some(video_type("video/webm"))
    } else if same(extension, ".ogv") {
        Some(video_type("video/ogg"))
    } else if same(extension, ".mov") {
        Some(video_type("video/quicktime"))
    } else {
        None
    }
}

/// A character that the name of a file must not have.
pub open spec fn is_unsafe_char(c: char) -> bool {
    ||| c == '<'
    ||| c == '>'
    ||| c == ':'
    ||| c == '"'
    ||| c == '/'
    ||| c == '\\'
    ||| c == '|'
    ||| c == '?'
    ||| c == '*'
    ||| is_control(c)
}

fn unsafe_char(c: char) -> (r: bool)
    ensures
        r == is_unsafe_char(c),
{
    c == '<' || c == '>' || c == ':' || c == '"' || c == '/' || c == '\\' || c == '|' || c == '?'
        || c == '*' || crate::text::control(c)
}

pub open spec fn masked(name: Seq<char>) -> Seq<char> {
    name.map_values(|c: char| if is_unsafe_char(c) { '_' } else { c })
}

/// The name under which an item is shown: without unsafe characters and outer
/// white space, of 180 characters at most.
pub open spec fn display_name(name: Seq<char>) -> Seq<char> {
    let value = trimmed(masked(name));
    if value.len() == 0 {
        "未命名媒体"@
    } else if value.len() <= 180 {
        value
    } else {
        value.take(180)
    }
}

fn mask(name: &str) -> (r: String)
    ensures
        r@ == masked(name@),
{
    let mut out = String::new();
    for c in it: name.chars()
        invariant
            it.seq() == name@,
            out@ == masked(name@.take(it.index() as int)),
    {
        let ghost at = it.index() as int;
        proof {
            assert(name@.take(at + 1) =~= name@.take(at).push(name@[at]));
            assert(masked(name@.take(at + 1)) =~= masked(name@.take(at)).push(
                if is_unsafe_char(c) {
                    '_'
                } else {
                    c
                },
            ));
        }
        if unsafe_char(c) {
            out.push('_');
        } else {
            out.push(c);
        }
    }
    assert(name@.take(name@.len() as int) =~= name@);
    out
}

/// The name under which an item is shown.
pub fn safe_display_name(name: &str) -> (r: String)
    ensures
        r@ == display_name(name@),
{
    let value = trim(mask(name).as_str());
    let chars = chars_of(value.as_str());
    if chars.len() == 0 {
        return "未命名媒体".to_string();
    }
    if chars.len() <= 180 {
        return value;
    }
    let r = text_of(&chars, 0, 180);
    assert(r@ =~= value@.take(180));
    r
}

// ---------------------------------------------------------------------------
// What a file holds
// ---------------------------------------------------------------------------

/// `magic` stands in `data` at `at`.
pub open spec fn bytes_at(data: Seq<u8>, at: int, magic: Seq<u8>) -> bool {
    &&& 0 <= at
    &&& at + magic.len() <= data.len()
    &&& data.subrange(at, at + magic.len()) == magic
}

fn has_bytes(data: &Vec<u8>, at: usize, magic: &Vec<u8>) -> (r: bool)
    ensures
        r == bytes_at(data@, at as int, magic@),
{
    if at > data.len() || magic.len() > data.len() - at {
        return false;
    }
    let mut i: usize = 0;
    while i < magic.len()
        invariant
            i <= magic.len(),
            at + magic.len() <= data.len(),
            forall|k: int| 0 <= k < i ==> data@[at + k] == #[trigger] magic@[k],
        decreases magic.len() - i,
    {
        if data[at + i] != magic[i] {
            assert(data@.subrange(at as int, at + magic@.len())[i as int] != magic@[i as int]);
            return false;
        }
        i += 1;
    }
    assert(data@.subrange(at as int, at + magic@.len()) =~= magic@);
    true
}

pub open spec fn png_magic() -> Seq<u8> {
    seq![0x89u8, 0x50u8, 0x4eu8, 0x47u8, 0x0du8, 0x0au8, 0x1au8, 0x0au8]
}

/// The letters `ftyp`.
pub open spec fn ftyp_magic() -> Seq<u8> {
    seq![0x66u8, 0x74u8, 0x79u8, 0x70u8]
}

/// The brand `avif` or `avis`.
pub open spec fn avif_brand_at(header: Seq<u8>, at: int) -> bool {
    bytes_at(header, at, seq![0x61u8, 0x76u8, 0x69u8, 0x66u8]) || bytes_at(
        header,
        at,
        seq![0x61u8, 0x76u8, 0x69u8, 0x73u8],
    )
}

/// The first bytes of a file are those that its extension promises.
pub open spec fn header_matches(extension: Seq<char>, header: Seq<u8>) -> bool {
    if extension == ".png"@ {
        bytes_at(header, 0, png_magic())
    } else if extension == ".jpg"@ || extension == ".jpeg"@ {
        bytes_at(header, 0, seq![0xffu8, 0xd8u8, 0xffu8])
    } else if extension == ".webp"@ {
        bytes_at(header, 0, seq![0x52u8, 0x49u8, 0x46u8, 0x46u8]) && bytes_at(
            header,
            8,
            seq![0x57u8, 0x45u8, 0x42u8, 0x50u8],
        )
    } else if extension == ".gif"@ {
        bytes_at(header, 0, seq![0x47u8, 0x49u8, 0x46u8, 0x38u8, 0x37u8, 0x61u8]) || bytes_at(
            header,
            0,
            seq![0x47u8, 0x49u8, 0x46u8, 0x38u8, 0x39u8, 0x61u8],
        )
    } else if extension == ".avif"@ {
        header.len() >= 12 && bytes_at(header, 4, ftyp_magic()) && exists|at: int|
            8 <= at && #[trigger] avif_brand_at(header, at)
    } else if extension == ".webm"@ {
        bytes_at(header, 0, seq![0x1au8, 0x45u8, 0xdfu8, 0xa3u8])
    } else if extension == ".ogv"@ {
        bytes_at(header, 0, seq![0x4fu8, 0x67u8, 0x67u8, 0x53u8])
    } else if extension == ".mp4"@ || extension == ".mov"@ {
        header.len() >= 12 && bytes_at(header, 4, ftyp_magic())
    } else {
        false
    }
}

/// The first 64 bytes of a file, or fewer where it is shorter.
pub open spec fn header_of(content: Seq<u8>) -> Seq<u8> {
    if content.len() <= 64 {
        content
    } else {
        content.take(64)
    }
}

fn take_header(content: &Vec<u8>) -> (r: Vec<u8>)
    ensures
        r@ == header_of(content@),
{
    let mut out: Vec<u8> = Vec::new();
    let mut i: usize = 0;
    while i < content.len() && i < 64
        invariant
            i <= content.len(),
            i <= 64,
            out@ == content@.take(i as int),
        decreases content.len() - i,
    {
        out.push(content[i]);
        assert(content@.take(i + 1) =~= content@.take(i as int).push(content@[i as int]));
        i += 1;
    }
    assert(content@.take(content@.len() as int) =~= content@);
    out
}

fn has_avif_brand(header: &Vec<u8>) -> (r: bool)
    ensures
        r == exists|at: int| 8 <= at && #[trigger] avif_brand_at(header@, at),
{
    let avif: Vec<u8> = vec![0x61, 0x76, 0x69, 0x66];
    let avis: Vec<u8> = vec![0x61, 0x76, 0x69, 0x73];
    assert(avif@ =~= seq![0x61u8, 0x76u8, 0x69u8, 0x66u8]);
    assert(avis@ =~= seq![0x61u8, 0x76u8, 0x69u8, 0x73u8]);
    let mut at: usize = 8;
    while at < header.len()
        invariant
            8 <= at,
            avif@ == seq![0x61u8, 0x76u8, 0x69u8, 0x66u8],
            avis@ == seq![0x61u8, 0x76u8, 0x69u8, 0x73u8],
            forall|k: int| 8 <= k < at ==> !(#[trigger] avif_brand_at(header@, k)),
        decreases header.len() - at,
    {
        if has_bytes(header, at, &avif) || has_bytes(header, at, &avis) {
            assert(avif_brand_at(header@, at as int));
            return true;
        }
        at += 1;
    }
    false
}

fn check_header(extension: &str, header: &Vec<u8>) -> (r: bool)
    ensures
        r == header_matches(extension@, header@),
{
    let ftyp: Vec<u8> = vec![0x66, 0x74, 0x79, 0x70];
    assert(ftyp@ =~= ftyp_magic());
    if same(extension, ".png") {
        let magic: Vec<u8> = vec![0x89, 0x50, 0x4e, 0x47, 0x0d, 0x0a, 0x1a, 0x0a];
        assert(magic@ =~= png_magic());
        has_bytes(header, 0, &magic)
    } else if same(extension, ".jpg") || same(extension, ".jpeg") {
        let magic: Vec<u8> = vec![0xff, 0xd8, 0xff];
        assert(magic@ =~= seq![0xffu8, 0xd8u8, 0xffu8]);
        has_bytes(header, 0, &magic)
    } else if same(extension, ".webp") {
        let riff: Vec<u8> = vec![0x52, 0x49, 0x46, 0x46];
        let webp: Vec<u8> = vec![0x57, 0x45, 0x42, 0x50];
        assert(riff@ =~= seq![0x52u8, 0x49u8, 0x46u8, 0x46u8]);
        assert(webp@ =~= seq![0x57u8, 0x45u8, 0x42u8, 0x50u8]);
        has_bytes(header, 0, &riff) && has_bytes(header, 8, &webp)
    } else if same(extension, ".gif") {
        let old_magic: Vec<u8> = vec![0x47, 0x49, 0x46, 0x38, 0x37, 0x61];
        let new_magic: Vec<u8> = vec![0x47, 0x49, 0x46, 0x38, 0x39, 0x61];
        assert(old_magic@ =~= seq![0x47u8, 0x49u8, 0x46u8, 0x38u8, 0x37u8, 0x61u8]);
        assert(new_magic@ =~= seq![0x47u8, 0x49u8, 0x46u8, 0x38u8, 0x39u8, 0x61u8]);
        has_bytes(header, 0, &old_magic) || has_bytes(header, 0, &new_magic)
    } else if same(extension, ".avif") {
        header.len() >= 12 && has_bytes(header, 4, &ftyp) && has_avif_brand(header)
    } else if same(extension, ".webm") {
        let magic: Vec<u8> = vec![0x1a, 0x45, 0xdf, 0xa3];
        assert(magic@ =~= seq![0x1au8, 0x45u8, 0xdfu8, 0xa3u8]);
        has_bytes(header, 0, &magic)
    } else if same(extension, ".ogv") {
        let magic: Vec<u8> = vec![0x4f, 0x67, 0x67, 0x53];
        assert(magic@ =~= seq![0x4fu8, 0x67u8, 0x67u8, 0x53u8]);
        has_bytes(header, 0, &magic)
    } else if same(extension, ".mp4") || same(extension, ".mov") {
        header.len() >= 12 && has_bytes(header, 4, &ftyp)
    } else {
        false
    }
}

/// Width and height that `imagesize::blob_size` reads from the bytes of an
/// image, where it can.
pub uninterp spec fn image_dimensions(content: Seq<u8>) -> Option<(u64, u64)>;

/// Outside function: `imagesize::blob_size`, which reads width and height from
/// the head of an image. Below eight gibibytes its counter of nested JPEG
/// images stays in range.
#[verifier::external_body]
fn image_size(content: &Vec<u8>) -> (r: Option<(u64, u64)>)
    requires
        is_in_reach(content@),
    ensures
        r == image_dimensions(content@),
{
    imagesize::blob_size(content).ok().map(|size| (size.width as u64, size.height as u64))
}

/// The dimensions of an image are within the limits.
pub open spec fn dimensions_check(dimensions: Option<(u64, u64)>) -> Result<(), Seq<char>> {
    match dimensions {
        None => Err("图片内容损坏或格式与扩展名不匹配。"@),
        Some((width, height)) => if width < 1 || height < 1 || width > 16384 || height > 16384
            || width * height > 50000000 {
            Err("图片尺寸超过 16384 像素或 5000 万总像素上限。"@)
        } else {
            Ok(())
        },
    }
}

/// Checks the dimensions of an image.
pub fn check_dimensions(dimensions: Option<(u64, u64)>) -> (r: Result<(), String>)
    ensures
        outcome(r) == dimensions_check(dimensions),
{
    match dimensions {
        None => Err("图片内容损坏或格式与扩展名不匹配。".to_string()),
        Some((width, height)) => {
            if width < 1 || height < 1 || width > 16384 || height > 16384 {
                return Err("图片尺寸超过 16384 像素或 5000 万总像素上限。".to_string());
            }
            assert(width * height <= 16384 * 16384) by (nonlinear_arith)
                requires
                    width <= 16384,
                    height <= 16384,
            ;
            if width * height > 50000000 {
                return Err("图片尺寸超过 16384 像素或 5000 万总像素上限。".to_string());
            }
            Ok(())
        },
    }
}

/// The content is short enough for the dimensions of an image to be read: a
/// longer one may take the reader's counter of nested images out of its range.
pub open spec fn is_in_reach(content: Seq<u8>) -> bool {
    content.len() < 0x2_0000_0000
}

/// The content of a file is what its extension promises, and an image is not
/// too large.
pub open spec fn content_check(
    kind: MediaKind,
    extension: Seq<char>,
    content: Seq<u8>,
    dimensions: Option<(u64, u64)>,
) -> Result<(), Seq<char>> {
    if !header_matches(extension, header_of(content)) {
        match kind {
            MediaKind::Image => Err("图片内容损坏或格式与扩展名不匹配。"@),
            MediaKind::Video => Err("视频内容损坏或格式与扩展名不匹配。"@),
        }
    } else if kind == MediaKind::Image {
        dimensions_check(dimensions)
    } else {
        Ok(())
    }
}

/// Checks the content of a file.
pub fn validate_media(content: &Vec<u8>, media_type: MediaType, extension: &str) -> (r: Result<
    (),
    String,
>)
    requires
        is_in_reach(content@),
    ensures
        outcome(r) == content_check(
            media_type.kind,
            extension@,
            content@,
            image_dimensions(content@),
        ),
{
    let header = take_header(content);
    if !check_header(extension, &header) {
        return match media_type.kind {
            MediaKind::Image => Err("图片内容损坏或格式与扩展名不匹配。".to_string()),
            MediaKind::Video => Err("视频内容损坏或格式与扩展名不匹配。".to_string()),
        };
    }
    match media_type.kind {
        MediaKind::Image => check_dimensions(image_size(content)),
        MediaKind::Video => Ok(()),
    }
}

// ---------------------------------------------------------------------------
// Sources
// ---------------------------------------------------------------------------

/// What the file system says of a file.
#[derive(Clone, Copy, Debug, PartialEq, Eq, Structural)]
pub struct FileMeta {
    pub is_file: bool,
    pub byte_size: u64,
}

/// A file that may become an item: its name and what could be read of it, or
/// why it could not.
pub struct SourceFile {
    pub file_name: Option<String>,
    pub metadata: Result<FileMeta, String>,
    pub content: Result<Vec<u8>, String>,
}

/// The model of a source.
pub struct SourceV {
    pub file_name: Option<Seq<char>>,
    pub metadata: Result<FileMeta, Seq<char>>,
    pub content: Result<Seq<u8>, Seq<char>>,
}

impl View for SourceFile {
    type V = SourceV;

    open spec fn view(&self) -> SourceV {
        SourceV {
            file_name: opt_view(self.file_name),
            metadata: match self.metadata {
                Ok(meta) => Ok(meta),
                Err(message) => Err(message@),
            },
            content: match self.content {
                Ok(bytes) => Ok(bytes@),
                Err(message) => Err(message@),
            },
        }
    }
}

/// What is known of a file that passed all checks.
pub struct CheckedFile {
    pub kind: MediaKind,
    pub mime_type: String,
    pub byte_size: u64,
    pub sha256: String,
}

/// The model of a checked file.
pub struct CheckedV {
    pub kind: MediaKind,
    pub mime_type: Seq<char>,
    pub byte_size: u64,
    pub sha256: Seq<char>,
}

impl View for CheckedFile {
    type V = CheckedV;

    open spec fn view(&self) -> CheckedV {
        CheckedV {
            kind: self.kind,
            mime_type: self.mime_type@,
            byte_size: self.byte_size,
            sha256: self.sha256@,
        }
    }
}

impl SourceV {
    /// What was read of the file is in reach. A file that is far over the limits
    /// on its size need not be read at all: its size is refused first.
    pub open spec fn is_in_reach(self) -> bool {
        self.content matches Ok(content) ==> is_in_reach(content)
    }
}

pub open spec fn size_check(meta: FileMeta, maximum: u64) -> Result<(), Seq<char>> {
    if !meta.is_file || meta.byte_size < 1 {
        Err("媒体文件为空或不可读取。"@)
    } else if meta.byte_size > maximum {
        Err("媒体文件超过 "@ + decimal((maximum / 1024 / 1024) as nat) + " MB 上限。"@)
    } else {
        Ok(())
    }
}

fn check_size(meta: FileMeta, maximum: u64) -> (r: Result<(), String>)
    ensures
        outcome(r) == size_check(meta, maximum),
{
    if !meta.is_file || meta.byte_size < 1 {
        return Err("媒体文件为空或不可读取。".to_string());
    }
    if meta.byte_size > maximum {
        return Err(
            "媒体文件超过 ".to_string().concat(
                decimal_text(maximum / 1024 / 1024).as_str(),
            ).concat(" MB 上限。"),
        );
    }
    Ok(())
}

/// The file with this extension as the library can take it, or the first
/// complaint about it.
pub open spec fn checked(extension: Seq<char>, source: SourceV) -> Result<CheckedV, Seq<char>> {
    match media_type_of(extension) {
        None => Err("不支持此图片或视频格式。"@),
        Some((kind, mime_type, maximum)) => match source.metadata {
            Err(message) => Err(message),
            Ok(meta) => match size_check(meta, maximum) {
                Err(message) => Err(message),
                Ok(_) => match source.content {
                    Err(message) => Err(message),
                    Ok(content) => match content_check(
                        kind,
                        extension,
                        content,
                        image_dimensions(content),
                    ) {
                        Err(message) => Err(message),
                        Ok(_) => Ok(
                            CheckedV {
                                kind,
                                mime_type,
                                byte_size: meta.byte_size,
                                sha256: sha256_of(content),
                            },
                        ),
                    },
                },
            },
        },
    }
}

/// The model of a checked file, or of the complaint.
pub open spec fn checked_outcome(r: Result<CheckedFile, String>) -> Result<CheckedV, Seq<char>> {
    match r {
        Ok(file) => Ok(file@),
        Err(message) => Err(message@),
    }
}

/// Checks a file with this extension.
pub fn check_source(extension: &str, source: &SourceFile) -> (r: Result<CheckedFile, String>)
    requires
        source@.is_in_reach(),
    ensures
        checked_outcome(r) == checked(extension@, source@),
{
    let found = match media_type(extension) {
        Some(found) => found,
        None => {
            return Err("不支持此图片或视频格式。".to_string());
        },
    };
    let meta = match &source.metadata {
        Ok(meta) => *meta,
        Err(message) => {
            return Err(message.clone());
        },
    };
    if let Err(message) = check_size(meta, found.maximum) {
        return Err(message);
    }
    match &source.content {
        Err(message) => Err(message.clone()),
        Ok(content) => {
            if let Err(message) = validate_media(content, found, extension) {
                return Err(message);
            }
            Ok(
                CheckedFile {
                    kind: found.kind,
                    mime_type: found.mime_type.to_string(),
                    byte_size: meta.byte_size,
                    sha256: sha256(content),
                },
            )
        },
    }
}

// ---------------------------------------------------------------------------
// Chosen files
// ---------------------------------------------------------------------------

/// Where a file lies: in the library's own directory, under a name, or
/// elsewhere, at a path.
pub enum MediaPath {
    Managed(String),
    Listed(String),
}

/// The model of a place.
pub enum PathV {
    Managed(Seq<char>),
    Listed(Seq<char>),
}

impl View for MediaPath {
    type V = PathV;

    open spec fn view(&self) -> PathV {
        match self {
            MediaPath::Managed(name) => PathV::Managed(name@),
            MediaPath::Listed(path) => PathV::Listed(path@),
        }
    }
}

/// A file that can be shown.
pub struct ResolvedMedia {
    pub path: MediaPath,
    pub mime_type: String,
    pub byte_size: u64,
    pub kind: MediaKind,
    pub sha256: String,
}

/// The model of a file that can be shown.
pub struct ResolvedV {
    pub path: PathV,
    pub mime_type: Seq<char>,
    pub byte_size: u64,
    pub kind: MediaKind,
    pub sha256: Seq<char>,
}

impl View for ResolvedMedia {
    type V = ResolvedV;

    open spec fn view(&self) -> ResolvedV {
        ResolvedV {
            path: self.path@,
            mime_type: self.mime_type@,
            byte_size: self.byte_size,
            kind: self.kind,
            sha256: self.sha256@,
        }
    }
}

impl ResolvedMedia {
    pub fn copy(&self) -> (r: ResolvedMedia)
        ensures
            r@ == self@,
    {
        ResolvedMedia {
            path: match &self.path {
                MediaPath::Managed(name) => MediaPath::Managed(name.clone()),
                MediaPath::Listed(path) => MediaPath::Listed(path.clone()),
            },
            mime_type: self.mime_type.clone(),
            byte_size: self.byte_size,
            kind: self.kind,
            sha256: self.sha256.clone(),
        }
    }
}

/// The model of a file that was resolved, or of the complaint.
pub open spec fn resolved_outcome(r: Result<ResolvedMedia, String>) -> Result<
    ResolvedV,
    Seq<char>,
> {
    match r {
        Ok(media) => Ok(media@),
        Err(message) => Err(message@),
    }
}

/// A file of a folder as it can be shown.
pub open spec fn folder_file(path: Seq<char>, source: SourceV) -> Result<ResolvedV, Seq<char>> {
    match checked(extension_of(path), source) {
        Err(message) => Err(message),
        Ok(file) => Ok(
            ResolvedV {
                path: PathV::Listed(path),
                mime_type: file.mime_type,
                byte_size: file.byte_size,
                kind: file.kind,
                sha256: file.sha256,
            },
        ),
    }
}

/// Checks a file of a folder, given what could be read of it.
pub fn resolve_folder_file(path: &str, source: &SourceFile) -> (r: Result<ResolvedMedia, String>)
    requires
        source@.is_in_reach(),
    ensures
        resolved_outcome(r) == folder_file(path@, source@),
{
    match check_source(extension(path).as_str(), source) {
        Err(message) => Err(message),
        Ok(file) => Ok(
            ResolvedMedia {
                path: MediaPath::Listed(path.to_string()),
                mime_type: file.mime_type,
                byte_size: file.byte_size,
                kind: file.kind,
                sha256: file.sha256,
            },
        ),
    }
}

// ---------------------------------------------------------------------------
// Listing a folder
// ---------------------------------------------------------------------------

/// What an entry of a directory is.
#[derive(Clone, Copy, Debug, PartialEq, Eq, Structural)]
pub enum EntryKind {
    Link,
    Directory,
    File,
    Other,
}

/// A walk through a folder: the directories still to be read, and the media
/// files found so far.
pub struct FolderScan {
    pending: Vec<String>,
    files: Vec<String>,
}

/// The model of a walk.
pub struct ScanV {
    pub pending: Seq<Seq<char>>,
    pub files: Seq<Seq<char>>,
}

impl View for FolderScan {
    type V = ScanV;

    closed spec fn view(&self) -> ScanV {
        ScanV { pending: list_view(self.pending@), files: list_view(self.files@) }
    }
}

/// The file is of a kind that the library takes.
pub open spec fn is_media_path(path: Seq<char>) -> bool {
    media_type_of(extension_of(path)) is Some
}

/// The walk after one more entry. Links are passed by.
pub open spec fn scanned(scan: ScanV, path: Seq<char>, kind: EntryKind) -> ScanV {
    if kind == EntryKind::Directory {
        ScanV { pending: scan.pending.push(path), ..scan }
    } else if kind == EntryKind::File && is_media_path(path) {
        ScanV { files: scan.files.push(path), ..scan }
    } else {
        scan
    }
}

/// The walk through a folder may go on after an entry, or why not.
pub open spec fn scan_verdict(scan: ScanV, path: Seq<char>, kind: EntryKind) -> Result<
    (),
    Seq<char>,
> {
    let after = scanned(scan, path, kind);
    if kind != EntryKind::Link && after.files.len() + after.pending.len() > 10000 {
        Err("文件夹内容过多，请选择更具体的目录。"@)
    } else {
        Ok(())
    }
}

impl FolderScan {
    /// A walk that starts at `root`.
    pub fn new(root: String) -> (r: FolderScan)
        ensures
            r@.pending == seq![root@],
            r@.files.len() == 0,
    {
        let mut pending: Vec<String> = Vec::new();
        pending.push(root);
        let r = FolderScan { pending, files: Vec::new() };
        assert(r@.pending =~= seq![root@]);
        r
    }

    /// The directory to be read next, which came first of those that wait.
    pub fn next_directory(&mut self) -> (r: Option<String>)
        ensures
            final(self)@.files == old(self)@.files,
            match r {
                None => old(self)@.pending.len() == 0 && final(self)@ == old(self)@,
                Some(path) => old(self)@.pending.len() > 0 && path@ == old(self)@.pending[0]
                    && final(self)@.pending == old(self)@.pending.drop_first(),
            },
    {
        if self.pending.len() == 0 {
            return None;
        }
        let ghost start = self.pending@;
        let path = self.pending.remove(0);
        assert(list_view(self.pending@) =~= list_view(start).drop_first());
        Some(path)
    }

    /// Takes one entry of a directory. A folder with too much in it is refused.
    pub fn add_entry(&mut self, path: String, kind: EntryKind) -> (r: Result<(), String>)
        requires
            old(self)@.pending.len() + old(self)@.files.len() <= 10000,
        ensures
            final(self)@ == scanned(old(self)@, path@, kind),
            outcome(r) == scan_verdict(old(self)@, path@, kind),
    {
        match kind {
            EntryKind::Link => {
                return Ok(());
            },
            EntryKind::Directory => {
                let ghost before = self.pending@;
                self.pending.push(path);
                assert(list_view(self.pending@) =~= list_view(before).push(path@));
            },
            EntryKind::File => {
                if media_type(extension(path.as_str()).as_str()).is_some() {
                    let ghost before = self.files@;
                    self.files.push(path);
                    assert(list_view(self.files@) =~= list_view(before).push(path@));
                }
            },
            EntryKind::Other => {},
        }
        if self.files.len() + self.pending.len() > 10000 {
            return Err("文件夹内容过多，请选择更具体的目录。".to_string());
        }
        Ok(())
    }

    /// The files that were found, in the order of their paths.
    pub fn finish(self) -> (r: Vec<String>)
        ensures
            in_path_order(list_view(r@)),
            list_view(r@).to_multiset() == self@.files.to_multiset(),
    {
        sort_paths(self.files)
    }
}

/// A walk finds only files of a kind that the library takes.
pub proof fn scan_finds_only_media(scan: ScanV, path: Seq<char>, kind: EntryKind)
    requires
        forall|i: int| 0 <= i < scan.files.len() ==> is_media_path(#[trigger] scan.files[i]),
    ensures
        forall|i: int|
            0 <= i < scanned(scan, path, kind).files.len() ==> is_media_path(
                #[trigger] scanned(scan, path, kind).files[i],
            ),
{
}

// ---------------------------------------------------------------------------
// The library
// ---------------------------------------------------------------------------

/// The files of a folder, and when they were listed, in milliseconds.
pub struct CachedListing {
    pub files: Vec<String>,
    pub scanned_at: u64,
}

/// The model of a listing.
pub struct ListingV {
    pub files: Seq<Seq<char>>,
    pub scanned_at: u64,
}

impl View for CachedListing {
    type V = ListingV;

    open spec fn view(&self) -> ListingV {
        ListingV { files: list_view(self.files@), scanned_at: self.scanned_at }
    }
}

/// The places at which folders stand. Each is the remainder of a division by the
/// number of a folder's files.
struct Cursors {
    places: Table<usize>,
}

impl Cursors {
    #[verifier::type_invariant]
    spec fn are_remainders(self) -> bool {
        cursors_fit(self.places@)
    }

    spec fn view(&self) -> Map<Seq<char>, usize> {
        self.places@
    }

    fn new() -> (r: Cursors)
        ensures
            r@ == Map::<Seq<char>, usize>::empty(),
    {
        Cursors { places: Table::new() }
    }

    fn get(&self, id: &str) -> (r: usize)
        ensures
            r == (if self@.contains_key(id@) {
                self@[id@]
            } else {
                0
            }),
            cursors_fit(self@),
    {
        proof {
            use_type_invariant(self);
        }
        match self.places.get(id) {
            Some(at) => *at,
            None => 0,
        }
    }

    fn insert(&mut self, id: String, place: usize)
        requires
            place < usize::MAX,
        ensures
            final(self)@ == old(self)@.insert(id@, place),
    {
        proof {
            use_type_invariant(&*self);
        }
        let mut places: Table<usize> = Table::new();
        std::mem::swap(&mut places, &mut self.places);
        places.insert(id, place);
        self.places = places;
    }

    fn remove(&mut self, id: &str)
        ensures
            final(self)@ == old(self)@.remove(id@),
    {
        proof {
            use_type_invariant(&*self);
        }
        let mut places: Table<usize> = Table::new();
        std::mem::swap(&mut places, &mut self.places);
        places.remove(id);
        self.places = places;
    }
}

/// Each place has a next one.
pub open spec fn cursors_fit(cursors: Map<Seq<char>, usize>) -> bool {
    forall|id: Seq<char>| #[trigger] cursors.contains_key(id) ==> cursors[id] < usize::MAX
}

/// The media library.
pub struct MediaLibrary {
    items: Vec<MediaItem>,
    cursors: Cursors,
    selections: Table<ResolvedMedia>,
    listings: Table<CachedListing>,
}

/// The model of the library.
pub struct LibraryV {
    pub items: Seq<ItemV>,
    pub cursors: Map<Seq<char>, usize>,
    pub selections: Map<Seq<char>, ResolvedV>,
    pub listings: Map<Seq<char>, ListingV>,
}

impl View for MediaLibrary {
    type V = LibraryV;

    closed spec fn view(&self) -> LibraryV {
        LibraryV {
            items: items_view(self.items@),
            cursors: self.cursors@,
            selections: self.selections@.map_values(|m: ResolvedMedia| m@),
            listings: self.listings@.map_values(|m: CachedListing| m@),
        }
    }
}

/// A library with these items.
pub open spec fn library_of(items: Seq<ItemV>) -> LibraryV {
    LibraryV {
        items,
        cursors: Map::empty(),
        selections: Map::empty(),
        listings: Map::empty(),
    }
}

/// The place of the first item that satisfies `p`.
pub open spec fn first_where(items: Seq<ItemV>, p: spec_fn(ItemV) -> bool) -> Option<int>
    decreases items.len(),
{
    if items.len() == 0 {
        None
    } else if p(items[0]) {
        Some(0)
    } else {
        match first_where(items.drop_first(), p) {
            Some(i) => Some(i + 1),
            None => None,
        }
    }
}

/// What `first_where` finds is the first item of its kind.
pub proof fn lemma_first_where(items: Seq<ItemV>, p: spec_fn(ItemV) -> bool)
    ensures
        match first_where(items, p) {
            Some(i) => 0 <= i < items.len() && p(items[i]) && forall|k: int|
                0 <= k < i ==> !p(#[trigger] items[k]),
            None => forall|k: int| 0 <= k < items.len() ==> !p(#[trigger] items[k]),
        },
    decreases items.len(),
{
    if items.len() > 0 && !p(items[0]) {
        let rest = items.drop_first();
        lemma_first_where(rest, p);
        match first_where(rest, p) {
            Some(i) => {
                assert(items[i + 1] == rest[i]);
                assert forall|k: int| 0 <= k < i + 1 implies !p(#[trigger] items[k]) by {
                    if k > 0 {
                        assert(items[k] == rest[k - 1]);
                    }
                }
            },
            None => {
                assert forall|k: int| 0 <= k < items.len() implies !p(#[trigger] items[k]) by {
                    if k > 0 {
                        assert(items[k] == rest[k - 1]);
                    }
                }
            },
        }
    }
}

/// What an item is looked for by.
pub enum Wanted<'a> {
    Id(&'a str),
    Digest(&'a str),
    ManagedDigest(&'a str),
    FolderAt(&'a Option<String>),
}

/// The item is one that is looked for.
pub open spec fn is_wanted(item: ItemV, wanted: Wanted) -> bool {
    match wanted {
        Wanted::Id(id) => item.id == id@,
        Wanted::Digest(digest) => item.sha256 == digest@,
        Wanted::ManagedDigest(digest) => item.origin != MediaOrigin::Folder && item.sha256
            == digest@,
        Wanted::FolderAt(url) => item.origin == MediaOrigin::Folder && item.source_url == opt_view(
            *url,
        ),
    }
}

fn check_wanted(item: &MediaItem, wanted: &Wanted) -> (r: bool)
    ensures
        r == is_wanted(item@, *wanted),
{
    match wanted {
        Wanted::Id(id) => same(item.id.as_str(), id),
        Wanted::Digest(digest) => same(item.sha256.as_str(), digest),
        Wanted::ManagedDigest(digest) => !matches!(item.origin, MediaOrigin::Folder) && same(
            item.sha256.as_str(),
            digest,
        ),
        Wanted::FolderAt(url) => matches!(item.origin, MediaOrigin::Folder) && same_opt(
            &item.source_url,
            url,
        ),
    }
}

/// The place of the item with this identifier.
pub open spec fn index_of_id(items: Seq<ItemV>, id: Seq<char>) -> Option<int> {
    first_where(items, |item: ItemV| item.id == id)
}

/// The item with this identifier.
pub open spec fn item_with_id(items: Seq<ItemV>, id: Seq<char>) -> Option<ItemV> {
    match index_of_id(items, id) {
        Some(i) => Some(items[i]),
        None => None,
    }
}

/// The item that some file was taken from, which is no folder.
pub open spec fn item_with_digest(items: Seq<ItemV>, digest: Seq<char>) -> Option<ItemV> {
    match first_where(
        items,
        |item: ItemV| item.origin != MediaOrigin::Folder && item.sha256 == digest,
    ) {
        Some(i) => Some(items[i]),
        None => None,
    }
}

/// The model of an optional item.
pub open spec fn opt_item(item: Option<MediaItem>) -> Option<ItemV> {
    match item {
        Some(value) => Some(value@),
        None => None,
    }
}

/// The items without those of this identifier.
pub open spec fn without_id(items: Seq<ItemV>, id: Seq<char>) -> Seq<ItemV>
    decreases items.len(),
{
    if items.len() == 0 {
        Seq::empty()
    } else if items.last().id == id {
        without_id(items.drop_last(), id)
    } else {
        without_id(items.drop_last(), id).push(items.last())
    }
}

/// Nothing is taken out where no item has the identifier.
pub proof fn lemma_without_absent(items: Seq<ItemV>, id: Seq<char>)
    requires
        index_of_id(items, id) is None,
    ensures
        without_id(items, id) == items,
    decreases items.len(),
{
    lemma_first_where(items, |item: ItemV| item.id == id);
    if items.len() > 0 {
        let rest = items.drop_last();
        lemma_first_where(rest, |item: ItemV| item.id == id);
        assert forall|k: int| 0 <= k < rest.len() implies (#[trigger] rest[k]).id != id by {
            assert(rest[k] == items[k]);
        }
        assert(items[items.len() - 1].id != id);
        lemma_without_absent(rest, id);
        assert(rest.push(items.last()) =~= items);
    }
}

/// What was found where the catalogue is stored.
pub enum CatalogRead {
    Text(String),
    Missing,
    Unreadable,
}

/// The items as a stored catalogue keeps them.
pub open spec fn kept_items(items: Seq<ItemV>) -> Seq<ItemV> {
    items.map_values(|item: ItemV| stored_item(item))
}

/// The items that a stored catalogue gives.
pub open spec fn catalog_items(read: CatalogRead) -> Option<Seq<ItemV>> {
    match read {
        CatalogRead::Missing => Some(Seq::empty()),
        CatalogRead::Unreadable => None,
        CatalogRead::Text(text) => items_parsed(text@),
    }
}

impl MediaLibrary {
    fn of_items(items: Vec<MediaItem>) -> (r: MediaLibrary)
        ensures
            r@ == library_of(items_view(items@)),
    {
        let r = MediaLibrary {
            items,
            cursors: Cursors::new(),
            selections: Table::new(),
            listings: Table::new(),
        };
        assert(r@.selections =~= Map::empty());
        assert(r@.listings =~= Map::empty());
        r
    }

    /// The library of a stored catalogue. The flag says that the catalogue
    /// could not be used and is to be set aside; the library is then empty.
    pub fn load(read: CatalogRead) -> (r: (MediaLibrary, bool))
        ensures
            r.0@ == library_of(
                match catalog_items(read) {
                    Some(items) => items,
                    None => Seq::empty(),
                },
            ),
            r.1 == (catalog_items(read) is None),
    {
        let none: Vec<MediaItem> = Vec::new();
        assert(items_view(none@) =~= Seq::empty());
        match read {
            CatalogRead::Missing => (MediaLibrary::of_items(none), false),
            CatalogRead::Unreadable => (MediaLibrary::of_items(none), true),
            CatalogRead::Text(text) => match parse_items(text.as_str()) {
                Some(items) => (MediaLibrary::of_items(items), false),
                None => (MediaLibrary::of_items(none), true),
            },
        }
    }

    pub fn items(&self) -> (r: Vec<MediaItem>)
        ensures
            items_view(r@) == self@.items,
    {
        copy_items(&self.items)
    }

    fn find(&self, wanted: Wanted) -> (r: Option<usize>)
        ensures
            match first_where(self@.items, |item: ItemV| is_wanted(item, wanted)) {
                Some(i) => r == Some(i as usize) && 0 <= i < self.items.len(),
                None => r is None,
            },
    {
        let ghost p = |item: ItemV| is_wanted(item, wanted);
        proof {
            lemma_first_where(self@.items, p);
        }
        let mut i: usize = 0;
        while i < self.items.len()
            invariant
                i <= self.items.len(),
                p == |item: ItemV| is_wanted(item, wanted),
                forall|k: int| 0 <= k < i ==> !is_wanted(#[trigger] self@.items[k], wanted),
            decreases self.items.len() - i,
        {
            assert(self@.items[i as int] == self.items@[i as int]@);
            if check_wanted(&self.items[i], &wanted) {
                proof {
                    lemma_first_where(self@.items, p);
                    assert(p(self@.items[i as int]));
                }
                return Some(i);
            }
            i += 1;
        }
        None
    }

    fn find_id(&self, id: &str) -> (r: Option<usize>)
        ensures
            match index_of_id(self@.items, id@) {
                Some(i) => r == Some(i as usize) && 0 <= i < self.items.len(),
                None => r is None,
            },
    {
        let ghost wanted = Wanted::Id(id);
        assert((|item: ItemV| is_wanted(item, wanted)) =~= (|item: ItemV| item.id == id@));
        self.find(Wanted::Id(id))
    }

    pub fn get_by_id(&self, id: &str) -> (r: Option<MediaItem>)
        ensures
            opt_item(r) == item_with_id(self@.items, id@),
    {
        match self.find_id(id) {
            Some(i) => Some(self.items[i].copy()),
            None => None,
        }
    }

    /// The item that a file with this digest was taken from.
    pub fn find_by_sha256(&self, digest: &str) -> (r: Option<MediaItem>)
        ensures
            opt_item(r) == item_with_digest(self@.items, digest@),
    {
        let ghost wanted = Wanted::ManagedDigest(digest);
        assert((|item: ItemV| is_wanted(item, wanted)) =~= (|item: ItemV|
            item.origin != MediaOrigin::Folder && item.sha256 == digest@));
        match self.find(Wanted::ManagedDigest(digest)) {
            Some(i) => Some(self.items[i].copy()),
            None => None,
        }
    }

    /// The item of the folder at this path.
    pub fn folder_item_at(&self, path: &str) -> (r: Option<MediaItem>)
        ensures
            opt_item(r) == folder_at(self@.items, path@),
    {
        let key = Some(path.to_string());
        assert((|item: ItemV| is_wanted(item, Wanted::FolderAt(&key))) =~= (|item: ItemV|
            item.origin == MediaOrigin::Folder && item.source_url == Some(path@)));
        match self.find(Wanted::FolderAt(&key)) {
            Some(i) => Some(self.items[i].copy()),
            None => None,
        }
    }

    /// The stored form of the catalogue.
    pub fn catalog(&self) -> (r: String)
        ensures
            r@ == json_pretty(catalog_json(self@.items)),
            catalog_items(CatalogRead::Text(r)) == Some(kept_items(self@.items)),
    {
        proof {
            stored_catalog_reads_back(self@.items);
        }
        catalog_text(&self.items)
    }
}

/// The name of the file of an item in the library's directory.
pub open spec fn managed_file(item: ItemV) -> Result<Seq<char>, Seq<char>> {
    if item.origin == MediaOrigin::Folder {
        Err("文件夹源没有受管媒体文件路径，请使用 resolve_playback。"@)
    } else if !is_plain_name(item.file_name) {
        Err("媒体目录校验失败。"@)
    } else {
        Ok(item.file_name)
    }
}

/// The model of a text, or of the complaint.
pub open spec fn text_result(r: Result<String, String>) -> Result<Seq<char>, Seq<char>> {
    match r {
        Ok(text) => Ok(text@),
        Err(message) => Err(message@),
    }
}

/// An item that is no folder, as it can be shown.
pub open spec fn managed_media(item: ItemV) -> Result<ResolvedV, Seq<char>> {
    match managed_file(item) {
        Err(message) => Err(message),
        Ok(name) => Ok(
            ResolvedV {
                path: PathV::Managed(name),
                mime_type: item.mime_type,
                byte_size: item.byte_size,
                kind: item.kind,
                sha256: item.sha256,
            },
        ),
    }
}

impl MediaLibrary {
    /// The name of the file of an item in the library's directory.
    pub fn path_for(&self, item: &MediaItem) -> (r: Result<String, String>)
        ensures
            text_result(r) == managed_file(item@),
    {
        if matches!(item.origin, MediaOrigin::Folder) {
            return Err(
                "文件夹源没有受管媒体文件路径，请使用 resolve_playback。".to_string(),
            );
        }
        if !plain_name(item.file_name.as_str()) {
            return Err("媒体目录校验失败。".to_string());
        }
        Ok(item.file_name.clone())
    }

    /// Resolves an item, or gives `None` where it is a folder, of which a file
    /// has to be chosen first.
    pub fn resolve_playback(&self, item: &MediaItem) -> (r: Option<Result<ResolvedMedia, String>>)
        ensures
            r is None <==> item@.origin == MediaOrigin::Folder,
            r matches Some(result) ==> resolved_outcome(result) == managed_media(item@),
    {
        if matches!(item.origin, MediaOrigin::Folder) {
            return None;
        }
        Some(
            match self.path_for(item) {
                Err(message) => Err(message),
                Ok(name) => Ok(
                    ResolvedMedia {
                        path: MediaPath::Managed(name),
                        mime_type: item.mime_type.clone(),
                        byte_size: item.byte_size,
                        kind: item.kind,
                        sha256: item.sha256.clone(),
                    },
                ),
            },
        )
    }
}

// ---------------------------------------------------------------------------
// Taking a file in
// ---------------------------------------------------------------------------

/// How a file is to be taken in.
pub struct IngestOptions {
    pub name: Option<String>,
    pub origin: MediaOrigin,
    pub source_url: Option<String>,
    pub remove_source: bool,
    pub allow_duplicate: bool,
    pub extension: Option<String>,
}

/// The model of the options.
pub struct OptionsV {
    pub name: Option<Seq<char>>,
    pub origin: MediaOrigin,
    pub source_url: Option<Seq<char>>,
    pub remove_source: bool,
    pub allow_duplicate: bool,
    pub extension: Option<Seq<char>>,
}

impl View for IngestOptions {
    type V = OptionsV;

    open spec fn view(&self) -> OptionsV {
        OptionsV {
            name: opt_view(self.name),
            origin: self.origin,
            source_url: opt_view(self.source_url),
            remove_source: self.remove_source,
            allow_duplicate: self.allow_duplicate,
            extension: opt_view(self.extension),
        }
    }
}

/// What is to be done with a file: it is there already, or it is to be stored
/// as an item.
pub enum IngestPlan {
    Duplicate(MediaItem),
    Store(MediaItem),
}

/// The model of a plan.
pub enum PlanV {
    Duplicate(ItemV),
    Store(ItemV),
}

impl View for IngestPlan {
    type V = PlanV;

    open spec fn view(&self) -> PlanV {
        match self {
            IngestPlan::Duplicate(item) => PlanV::Duplicate(item@),
            IngestPlan::Store(item) => PlanV::Store(item@),
        }
    }
}

/// The model of a plan, or of the complaint.
pub open spec fn plan_outcome(r: Result<IngestPlan, String>) -> Result<PlanV, Seq<char>> {
    match r {
        Ok(plan) => Ok(plan@),
        Err(message) => Err(message@),
    }
}

/// The extension by which a file is taken: the one that is given, or that of
/// the given name, or that of the file itself.
pub open spec fn chosen_extension(options: OptionsV, source: SourceV) -> Seq<char> {
    lower(
        match options.extension {
            Some(extension) => extension,
            None => match options.name {
                Some(name) => extension_of(name),
                None => extension_in(source.file_name),
            },
        },
    )
}

/// The item with this digest, of whatever origin.
pub open spec fn any_with_digest(items: Seq<ItemV>, digest: Seq<char>) -> Option<ItemV> {
    match first_where(items, |item: ItemV| item.sha256 == digest) {
        Some(i) => Some(items[i]),
        None => None,
    }
}

/// The item that a file becomes.
pub open spec fn new_item(
    file: CheckedV,
    source: SourceV,
    options: OptionsV,
    id: Seq<char>,
    created_at: Seq<char>,
) -> ItemV {
    ItemV {
        id,
        name: display_name(
            match options.name {
                Some(name) => name,
                None => match source.file_name {
                    Some(name) => name,
                    None => "未命名媒体"@,
                },
            },
        ),
        kind: file.kind,
        origin: options.origin,
        file_name: id + chosen_extension(options, source),
        mime_type: file.mime_type,
        byte_size: file.byte_size,
        sha256: file.sha256,
        source_url: options.source_url,
        file_count: None,
        created_at,
        preview_url: None,
    }
}

/// What is to be done with a file, or the first complaint about it.
pub open spec fn ingest_plan(
    items: Seq<ItemV>,
    source: SourceV,
    options: OptionsV,
    id: Seq<char>,
    created_at: Seq<char>,
) -> Result<PlanV, Seq<char>> {
    match checked(chosen_extension(options, source), source) {
        Err(message) => Err(message),
        Ok(file) => match any_with_digest(items, file.sha256) {
            Some(item) => if options.allow_duplicate {
                Ok(PlanV::Store(new_item(file, source, options, id, created_at)))
            } else {
                Ok(PlanV::Duplicate(item))
            },
            None => Ok(PlanV::Store(new_item(file, source, options, id, created_at))),
        },
    }
}

fn choose_extension(options: &IngestOptions, source: &SourceFile) -> (r: String)
    ensures
        r@ == chosen_extension(options@, source@),
{
    match &options.extension {
        Some(given) => lower_text(given.as_str()),
        None => match &options.name {
            Some(name) => lower_text(extension(name.as_str()).as_str()),
            None => lower_text(name_extension(&source.file_name).as_str()),
        },
    }
}

fn make_item(
    file: CheckedFile,
    source: &SourceFile,
    options: &IngestOptions,
    id: String,
    created_at: String,
) -> (r: MediaItem)
    ensures
        r@ == new_item(file@, source@, options@, id@, created_at@),
{
    let stored_name = id.clone().concat(choose_extension(options, source).as_str());
    let name = match &options.name {
        Some(name) => safe_display_name(name.as_str()),
        None => match &source.file_name {
            Some(name) => safe_display_name(name.as_str()),
            None => safe_display_name("未命名媒体"),
        },
    };
    MediaItem {
        id,
        name,
        kind: file.kind,
        origin: options.origin,
        file_name: stored_name,
        mime_type: file.mime_type,
        byte_size: file.byte_size,
        sha256: file.sha256,
        source_url: copy_opt(&options.source_url),
        file_count: None,
        created_at,
        preview_url: None,
    }
}

/// What taking a file in gave: the item, and whether it was there already; or
/// the complaint.
pub open spec fn ingest_outcome(r: Result<(MediaItem, bool), String>) -> Result<
    (ItemV, bool),
    Seq<char>,
> {
    match r {
        Ok((item, known)) => Ok((item@, known)),
        Err(message) => Err(message@),
    }
}

/// The library with one more item, in front.
pub open spec fn with_item(library: LibraryV, item: ItemV) -> LibraryV {
    LibraryV { items: seq![item] + library.items, ..library }
}

/// The library without the items of this identifier.
pub open spec fn without_item(library: LibraryV, id: Seq<char>) -> LibraryV {
    LibraryV { items: without_id(library.items, id), ..library }
}

/// The copy of a file is as long as the file.
pub open spec fn copy_check(item: ItemV, copied: Result<u64, Seq<char>>) -> Result<(), Seq<char>> {
    match copied {
        Err(message) => Err(message),
        Ok(size) => if size != item.byte_size {
            Err("媒体复制校验失败。"@)
        } else {
            Ok(())
        },
    }
}

/// The size of a copy, or why it could not be made.
pub open spec fn size_result(r: Result<u64, String>) -> Result<u64, Seq<char>> {
    match r {
        Ok(size) => Ok(size),
        Err(message) => Err(message@),
    }
}

/// Checks the copy of a file that is to be stored.
pub fn check_copy(item: &MediaItem, copied: Result<u64, String>) -> (r: Result<(), String>)
    ensures
        outcome(r) == copy_check(item@, size_result(copied)),
{
    match copied {
        Err(message) => Err(message),
        Ok(size) => if size != item.byte_size {
            Err("媒体复制校验失败。".to_string())
        } else {
            Ok(())
        },
    }
}

impl MediaLibrary {
    /// Decides what is to be done with a file. `id` and `created_at` are those
    /// of the item that it may become.
    pub fn plan_ingest(
        &self,
        source: &SourceFile,
        options: &IngestOptions,
        id: String,
        created_at: String,
    ) -> (r: Result<IngestPlan, String>)
        requires
            source@.is_in_reach(),
        ensures
            plan_outcome(r) == ingest_plan(self@.items, source@, options@, id@, created_at@),
    {
        let chosen = choose_extension(options, source);
        let file = match check_source(chosen.as_str(), source) {
            Ok(file) => file,
            Err(message) => {
                return Err(message);
            },
        };
        let digest = file.sha256.as_str();
        assert((|item: ItemV| is_wanted(item, Wanted::Digest(digest))) =~= (|item: ItemV|
            item.sha256 == digest@));
        let known = self.find(Wanted::Digest(digest));
        if !options.allow_duplicate {
            if let Some(i) = known {
                return Ok(IngestPlan::Duplicate(self.items[i].copy()));
            }
        }
        Ok(IngestPlan::Store(make_item(file, source, options, id, created_at)))
    }

    /// Decides what is to be done with a file, with a fresh identifier and the
    /// present time for the item that it may become.
    pub fn begin_ingest(&self, source: &SourceFile, options: &IngestOptions) -> (r: Result<
        IngestPlan,
        String,
    >)
        requires
            source@.is_in_reach(),
        ensures
            exists|id: Seq<char>, created_at: Seq<char>|
                is_uuid(id) && plan_outcome(r) == #[trigger] ingest_plan(
                    self@.items,
                    source@,
                    options@,
                    id,
                    created_at,
                ),
    {
        let id = new_id();
        let created_at = now_text();
        let ghost witness = (id@, created_at@);
        let r = self.plan_ingest(source, options, id, created_at);
        assert(plan_outcome(r) == ingest_plan(
            self@.items,
            source@,
            options@,
            witness.0,
            witness.1,
        ));
        r
    }

    fn push_front(&mut self, item: MediaItem)
        ensures
            final(self)@ == with_item(old(self)@, item@),
    {
        let ghost start = self.items@;
        self.items.insert(0, item);
        assert(items_view(self.items@) =~= seq![item@] + items_view(start));
    }

    fn drop_id(&mut self, id: &str)
        ensures
            final(self)@ == without_item(old(self)@, id@),
    {
        let ghost start = items_view(self.items@);
        let mut kept: Vec<MediaItem> = Vec::new();
        let mut i: usize = 0;
        assert(items_view(kept@) =~= without_id(start.take(0), id@));
        while i < self.items.len()
            invariant
                i <= self.items.len(),
                start == items_view(self.items@),
                items_view(kept@) == without_id(start.take(i as int), id@),
            decreases self.items.len() - i,
        {
            let ghost before = kept@;
            assert(start.take(i + 1).drop_last() =~= start.take(i as int));
            assert(start.take(i + 1).last() == self.items@[i as int]@);
            if !same(self.items[i].id.as_str(), id) {
                kept.push(self.items[i].copy());
                assert(items_view(kept@) =~= items_view(before).push(self.items@[i as int]@));
            }
            i += 1;
        }
        assert(start.take(i as int) =~= start);
        self.items = kept;
    }

    /// The catalogue as it is stored once `item` is in front.
    pub fn catalog_with(&self, item: &MediaItem) -> (r: String)
        ensures
            r@ == json_pretty(catalog_json(seq![item@] + self@.items)),
            catalog_items(CatalogRead::Text(r)) == Some(kept_items(seq![item@] + self@.items)),
    {
        let mut items = copy_items(&self.items);
        let ghost start = items@;
        items.insert(0, item.copy());
        assert(items_view(items@) =~= seq![item@] + items_view(start));
        proof {
            stored_catalog_reads_back(items_view(items@));
        }
        catalog_text(&items)
    }

    /// Carries out a plan. `stored` says whether the file was stored and the
    /// catalogue written; where one of them failed, nothing of the item stays.
    pub fn finish_ingest(&mut self, plan: IngestPlan, stored: Result<(), String>) -> (r: Result<
        (MediaItem, bool),
        String,
    >)
        ensures
            ingest_outcome(r) == attempt_of(Ok(plan@), outcome(stored)),
            final(self)@ == taken_in(old(self)@, Ok(plan@), outcome(stored)),
    {
        match plan {
            IngestPlan::Duplicate(item) => Ok((item, true)),
            IngestPlan::Store(item) => match stored {
                Ok(_) => {
                    self.push_front(item.copy());
                    Ok((item, false))
                },
                Err(message) => {
                    self.drop_id(item.id.as_str());
                    Err(message)
                },
            },
        }
    }
}

/// A file that is there already is not stored again.
pub proof fn known_file_is_not_stored_twice(
    items: Seq<ItemV>,
    source: SourceV,
    options: OptionsV,
    id: Seq<char>,
    created_at: Seq<char>,
)
    requires
        !options.allow_duplicate,
        source.content is Ok,
        any_with_digest(items, sha256_of(source.content->Ok_0)) is Some,
    ensures
        !(ingest_plan(items, source, options, id, created_at) matches Ok(PlanV::Store(_))),
{
}

/// A file that was stored is recognised the next time.
pub proof fn stored_file_is_recognised(
    items: Seq<ItemV>,
    source: SourceV,
    options: OptionsV,
    id: Seq<char>,
    created_at: Seq<char>,
    later_id: Seq<char>,
    later: Seq<char>,
)
    requires
        !options.allow_duplicate,
        ingest_plan(items, source, options, id, created_at) matches Ok(PlanV::Store(_)),
    ensures
        ({
            let item = ingest_plan(items, source, options, id, created_at)->Ok_0->Store_0;
            ingest_plan(seq![item] + items, source, options, later_id, later) == Ok::<
                PlanV,
                Seq<char>,
            >(PlanV::Duplicate(item))
        }),
{
    let item = ingest_plan(items, source, options, id, created_at)->Ok_0->Store_0;
    assert((seq![item] + items)[0] == item);
}

/// A file that could not be stored leaves the library as it was.
pub proof fn failed_store_leaves_no_trace(library: LibraryV, id: Seq<char>)
    requires
        index_of_id(library.items, id) is None,
    ensures
        without_item(library, id) == library,
{
    lemma_without_absent(library.items, id);
}

// ---------------------------------------------------------------------------
// Import results
// ---------------------------------------------------------------------------

/// The result of an import with one more attempt.
pub open spec fn recorded(
    result: (Seq<ItemV>, Seq<(Seq<char>, Seq<char>)>),
    path: Seq<char>,
    attempt: Result<(ItemV, bool), Seq<char>>,
) -> (Seq<ItemV>, Seq<(Seq<char>, Seq<char>)>) {
    match attempt {
        Ok((item, known)) => if known {
            (result.0, result.1.push((path, "媒体已存在"@)))
        } else {
            (result.0.push(item), result.1)
        },
        Err(message) => (result.0, result.1.push((path, message))),
    }
}

/// Notes what became of one path of an import.
pub fn record_import(
    result: &mut ImportResult,
    path: &str,
    attempt: Result<(MediaItem, bool), String>,
)
    ensures
        final(result).model() == recorded(old(result).model(), path@, ingest_outcome(attempt)),
{
    let ghost added = result.added@;
    let ghost skipped = result.skipped@;
    match attempt {
        Ok((item, known)) => {
            if known {
                result.skipped.push(
                    SkippedImport { path: path.to_string(), reason: "媒体已存在".to_string() },
                );
            } else {
                result.added.push(item);
            }
        },
        Err(message) => {
            result.skipped.push(SkippedImport { path: path.to_string(), reason: message });
        },
    }
    proof {
        let (items, left) = recorded(
            (items_view(added), skipped_view(skipped)),
            path@,
            ingest_outcome(attempt),
        );
        assert(items_view(result.added@) =~= items);
        assert(skipped_view(result.skipped@) =~= left);
    }
}

/// An import that took one item in.
pub fn import_of(item: MediaItem) -> (r: ImportResult)
    ensures
        r.model() == (seq![item@], Seq::<(Seq<char>, Seq<char>)>::empty()),
{
    let r = ImportResult { added: vec![item], skipped: Vec::new() };
    assert(items_view(r.added@) =~= seq![item@]);
    assert(skipped_view(r.skipped@) =~= Seq::empty());
    r
}

/// An import that left one path out.
pub fn import_without(path: &str, reason: String) -> (r: ImportResult)
    ensures
        r.model() == (Seq::<ItemV>::empty(), seq![(path@, reason@)]),
{
    let r = ImportResult {
        added: Vec::new(),
        skipped: vec![SkippedImport { path: path.to_string(), reason }],
    };
    assert(items_view(r.added@) =~= Seq::empty());
    assert(skipped_view(r.skipped@) =~= seq![(path@, reason@)]);
    r
}

/// The library once a plan was carried out: a file that is to be stored is in it
/// where that succeeded.
pub open spec fn taken_in(
    library: LibraryV,
    plan: Result<PlanV, Seq<char>>,
    stored: Result<(), Seq<char>>,
) -> LibraryV {
    match plan {
        Ok(PlanV::Store(item)) => if stored is Ok {
            with_item(library, item)
        } else {
            without_item(library, item.id)
        },
        _ => library,
    }
}

/// What became of a file: the item, and whether it was there already.
pub open spec fn attempt_of(
    plan: Result<PlanV, Seq<char>>,
    stored: Result<(), Seq<char>>,
) -> Result<(ItemV, bool), Seq<char>> {
    match plan {
        Ok(PlanV::Duplicate(item)) => Ok((item, true)),
        Ok(PlanV::Store(item)) => match stored {
            Ok(_) => Ok((item, false)),
            Err(message) => Err(message),
        },
        Err(message) => Err(message),
    }
}

/// A file that is to be imported: its path, and what was read of it.
pub struct ImportFileV {
    pub path: Seq<char>,
    pub source: SourceV,
}

/// What a whole import makes of a library, and what it tells of it, where every
/// file that is to be stored could be. `stamps` are the identifier and the time
/// that each file gets.
pub open spec fn imported(
    library: LibraryV,
    files: Seq<ImportFileV>,
    options: OptionsV,
    stamps: Seq<(Seq<char>, Seq<char>)>,
) -> (LibraryV, (Seq<ItemV>, Seq<(Seq<char>, Seq<char>)>))
    decreases files.len(),
{
    if files.len() == 0 {
        (library, (Seq::empty(), Seq::empty()))
    } else {
        let (before, result) = imported(library, files.drop_last(), options, stamps);
        let stamp = stamps[files.len() - 1];
        let plan = ingest_plan(before.items, files.last().source, options, stamp.0, stamp.1);
        (
            taken_in(before, plan, Ok(())),
            recorded(result, files.last().path, attempt_of(plan, Ok(()))),
        )
    }
}

/// Why a file is left out that was imported before.
pub open spec fn reason_again(file: ImportFileV, options: OptionsV) -> Seq<char> {
    match checked(chosen_extension(options, file.source), file.source) {
        Err(message) => message,
        Ok(_) => "媒体已存在"@,
    }
}

/// The file is refused, or the items hold its content.
spec fn is_settled(items: Seq<ItemV>, file: ImportFileV, options: OptionsV) -> bool {
    match checked(chosen_extension(options, file.source), file.source) {
        Err(_) => true,
        Ok(found) => any_with_digest(items, found.sha256) is Some,
    }
}

proof fn lemma_digest_stays(items: Seq<ItemV>, item: ItemV, digest: Seq<char>)
    ensures
        any_with_digest(items, digest) is Some ==> any_with_digest(
            seq![item] + items,
            digest,
        ) is Some,
        item.sha256 == digest ==> any_with_digest(seq![item] + items, digest) is Some,
{
    let more = seq![item] + items;
    assert(more[0] == item);
    assert(more.drop_first() =~= items);
}

/// After an import each of its files is refused or there.
proof fn lemma_imported_is_settled(
    library: LibraryV,
    files: Seq<ImportFileV>,
    options: OptionsV,
    stamps: Seq<(Seq<char>, Seq<char>)>,
)
    ensures
        forall|i: int|
            0 <= i < files.len() ==> is_settled(
                imported(library, files, options, stamps).0.items,
                #[trigger] files[i],
                options,
            ),
    decreases files.len(),
{
    if files.len() > 0 {
        let rest = files.drop_last();
        lemma_imported_is_settled(library, rest, options, stamps);
        let before = imported(library, rest, options, stamps).0;
        let after = imported(library, files, options, stamps).0;
        let stamp = stamps[files.len() - 1];
        let plan = ingest_plan(before.items, files.last().source, options, stamp.0, stamp.1);
        assert forall|i: int| 0 <= i < files.len() implies is_settled(
            after.items,
            #[trigger] files[i],
            options,
        ) by {
            if i < rest.len() {
                assert(is_settled(before.items, rest[i], options));
            }
            let found = checked(
                chosen_extension(options, files[i].source),
                files[i].source,
            );
            if found is Ok && plan matches Ok(PlanV::Store(_)) {
                lemma_digest_stays(before.items, plan->Ok_0->Store_0, found->Ok_0.sha256);
            }
        }
    }
}

proof fn lemma_nothing_new(
    library: LibraryV,
    files: Seq<ImportFileV>,
    options: OptionsV,
    stamps: Seq<(Seq<char>, Seq<char>)>,
)
    requires
        !options.allow_duplicate,
        forall|i: int|
            0 <= i < files.len() ==> is_settled(library.items, #[trigger] files[i], options),
    ensures
        imported(library, files, options, stamps) == (
            library,
            (
                Seq::<ItemV>::empty(),
                files.map_values(
                    |file: ImportFileV| (file.path, reason_again(file, options)),
                ),
            ),
        ),
    decreases files.len(),
{
    let told = files.map_values(|file: ImportFileV| (file.path, reason_again(file, options)));
    if files.len() > 0 {
        let rest = files.drop_last();
        assert forall|i: int| 0 <= i < rest.len() implies is_settled(
            library.items,
            #[trigger] rest[i],
            options,
        ) by {
            assert(is_settled(library.items, files[i], options));
        }
        lemma_nothing_new(library, rest, options, stamps);
        assert(is_settled(library.items, files[files.len() - 1], options));
        assert(told =~= rest.map_values(
            |file: ImportFileV| (file.path, reason_again(file, options)),
        ).push((files.last().path, reason_again(files.last(), options))));
    } else {
        assert(told =~= Seq::empty());
    }
}

/// Importing the same files once more adds nothing and leaves the library as it
/// is: each file that was taken in is left out because it is there, and each
/// that was refused is refused for the same reason.
pub proof fn second_import_adds_nothing(
    library: LibraryV,
    files: Seq<ImportFileV>,
    options: OptionsV,
    stamps: Seq<(Seq<char>, Seq<char>)>,
    later: Seq<(Seq<char>, Seq<char>)>,
)
    requires
        !options.allow_duplicate,
    ensures
        ({
            let once = imported(library, files, options, stamps).0;
            imported(once, files, options, later) == (
                once,
                (
                    Seq::<ItemV>::empty(),
                    files.map_values(
                        |file: ImportFileV| (file.path, reason_again(file, options)),
                    ),
                ),
            )
        }),
{
    lemma_imported_is_settled(library, files, options, stamps);
    lemma_nothing_new(imported(library, files, options, stamps).0, files, options, later);
}

impl MediaLibrary {
    /// Carries out the import of the next file and notes what became of it.
    pub fn import_files(
        &mut self,
        result: &mut ImportResult,
        path: &str,
        plan: Result<IngestPlan, String>,
        stored: Result<(), String>,
    )
        ensures
            final(self)@ == taken_in(old(self)@, plan_outcome(plan), outcome(stored)),
            final(result).model() == recorded(
                old(result).model(),
                path@,
                attempt_of(plan_outcome(plan), outcome(stored)),
            ),
    {
        let attempt = match plan {
            Ok(chosen) => self.finish_ingest(chosen, stored),
            Err(message) => Err(message),
        };
        record_import(result, path, attempt);
    }
}

/// How a single file is taken in from this machine.
pub fn local_options() -> (r: IngestOptions)
    ensures
        r@ == (OptionsV {
            name: None,
            origin: MediaOrigin::Local,
            source_url: None,
            remove_source: false,
            allow_duplicate: false,
            extension: None,
        }),
{
    IngestOptions {
        name: None,
        origin: MediaOrigin::Local,
        source_url: None,
        remove_source: false,
        allow_duplicate: false,
        extension: None,
    }
}

// ---------------------------------------------------------------------------
// Downloads
// ---------------------------------------------------------------------------

/// A file that was downloaded.
pub struct RemoteDownload {
    pub original_name: String,
    pub source_url: String,
    pub mime_type: String,
    pub kind: MediaKind,
    pub byte_size: u64,
}

/// The model of a download.
pub struct DownloadV {
    pub original_name: Seq<char>,
    pub source_url: Seq<char>,
    pub mime_type: Seq<char>,
    pub kind: MediaKind,
    pub byte_size: u64,
}

impl View for RemoteDownload {
    type V = DownloadV;

    open spec fn view(&self) -> DownloadV {
        DownloadV {
            original_name: self.original_name@,
            source_url: self.source_url@,
            mime_type: self.mime_type@,
            kind: self.kind,
            byte_size: self.byte_size,
        }
    }
}

/// The host of an address, given the parts that were read from it.
pub open spec fn host_or_unknown(parsed: Option<UrlV>) -> Seq<char> {
    match parsed {
        Some(parts) => match parts.host {
            Some(host) => host,
            None => "unknown"@,
        },
        None => "unknown"@,
    }
}

/// How a download is taken in. One from an address that gives another file
/// each time keeps the address and may repeat what is there.
pub open spec fn download_ingest(
    input_url: Seq<char>,
    dynamic: bool,
    download: DownloadV,
    host: Seq<char>,
) -> OptionsV {
    OptionsV {
        name: Some(
            if dynamic {
                "随机 API · "@ + host
            } else {
                download.original_name
            },
        ),
        origin: if dynamic {
            MediaOrigin::Api
        } else {
            MediaOrigin::Remote
        },
        source_url: Some(
            if dynamic {
                input_url
            } else {
                download.source_url
            },
        ),
        remove_source: true,
        allow_duplicate: dynamic,
        extension: Some(extension_of(download.original_name)),
    }
}

/// How a download from a given host is taken in.
pub fn options_for_host(
    input_url: &str,
    dynamic: bool,
    download: &RemoteDownload,
    host: &str,
) -> (r: IngestOptions)
    ensures
        r@ == download_ingest(input_url@, dynamic, download@, host@),
{
    IngestOptions {
        name: Some(
            if dynamic {
                "随机 API · ".to_string().concat(host)
            } else {
                download.original_name.clone()
            },
        ),
        origin: if dynamic {
            MediaOrigin::Api
        } else {
            MediaOrigin::Remote
        },
        source_url: Some(
            if dynamic {
                input_url.to_string()
            } else {
                download.source_url.clone()
            },
        ),
        remove_source: true,
        allow_duplicate: dynamic,
        extension: Some(extension(download.original_name.as_str())),
    }
}

/// How a download is taken in.
pub fn download_options(input_url: &str, dynamic: bool, download: &RemoteDownload) -> (r:
    IngestOptions)
    ensures
        r@ == download_ingest(
            input_url@,
            dynamic,
            download@,
            host_or_unknown(url_parsed(input_url@)),
        ),
{
    match parse_url(input_url) {
        Some(parts) => match parts.host {
            Some(host) => options_for_host(input_url, dynamic, download, host.as_str()),
            None => options_for_host(input_url, dynamic, download, "unknown"),
        },
        None => options_for_host(input_url, dynamic, download, "unknown"),
    }
}

impl MediaLibrary {
    /// Carries out the import of a download.
    pub fn import_download(
        &mut self,
        input_url: &str,
        plan: Result<IngestPlan, String>,
        stored: Result<(), String>,
    ) -> (r: ImportResult)
        ensures
            final(self)@ == taken_in(old(self)@, plan_outcome(plan), outcome(stored)),
            r.model() == recorded(
                (Seq::empty(), Seq::empty()),
                input_url@,
                attempt_of(plan_outcome(plan), outcome(stored)),
            ),
    {
        let attempt = match plan {
            Ok(chosen) => self.finish_ingest(chosen, stored),
            Err(message) => Err(message),
        };
        match attempt {
            Ok((item, known)) => if known {
                import_without(input_url, "媒体已存在".to_string())
            } else {
                import_of(item)
            },
            Err(message) => import_without(input_url, message),
        }
    }
}

/// What is to be done with a fresh download of an item: nothing, or its file
/// is to be replaced. `previous` names the file that it had.
pub enum RefreshPlan {
    Unchanged(MediaItem),
    Replace { updated: MediaItem, previous: String },
}

/// The model of a plan.
pub enum RefreshV {
    Unchanged(ItemV),
    Replace { updated: ItemV, previous: Seq<char> },
}

impl View for RefreshPlan {
    type V = RefreshV;

    open spec fn view(&self) -> RefreshV {
        match self {
            RefreshPlan::Unchanged(item) => RefreshV::Unchanged(item@),
            RefreshPlan::Replace { updated, previous } => RefreshV::Replace {
                updated: updated@,
                previous: previous@,
            },
        }
    }
}

/// The model of a plan, or of the complaint.
pub open spec fn refresh_outcome(r: Result<RefreshPlan, String>) -> Result<RefreshV, Seq<char>> {
    match r {
        Ok(plan) => Ok(plan@),
        Err(message) => Err(message@),
    }
}

/// An item with the file of a fresh download.
pub open spec fn refreshed_item(
    item: ItemV,
    download: DownloadV,
    digest: Seq<char>,
) -> ItemV {
    ItemV {
        file_name: item.id + "-"@ + digest.take(12) + extension_of(download.original_name),
        mime_type: download.mime_type,
        kind: download.kind,
        byte_size: download.byte_size,
        sha256: digest,
        preview_url: None,
        ..item
    }
}

/// What is to be done with a fresh download of an item, or the first complaint
/// about it.
pub open spec fn refresh_plan(
    items: Seq<ItemV>,
    id: Seq<char>,
    download: DownloadV,
    source: SourceV,
) -> Result<RefreshV, Seq<char>> {
    let extension = extension_of(download.original_name);
    match item_with_id(items, id) {
        None => Err("媒体项目不存在。"@),
        Some(item) => if item.origin != MediaOrigin::Api || item.source_url is None {
            Err("该媒体不是随机 API 来源。"@)
        } else {
            match media_type_of(extension) {
                None => Err("不支持此图片或视频格式。"@),
                Some((kind, _, _)) => match source.content {
                    Err(message) => Err(message),
                    Ok(content) => match content_check(
                        kind,
                        extension,
                        content,
                        image_dimensions(content),
                    ) {
                        Err(message) => Err(message),
                        Ok(_) => if sha256_of(content) == item.sha256 {
                            Ok(RefreshV::Unchanged(item))
                        } else {
                            match managed_file(item) {
                                Err(message) => Err(message),
                                Ok(previous) => Ok(
                                    RefreshV::Replace {
                                        updated: refreshed_item(
                                            item,
                                            download,
                                            sha256_of(content),
                                        ),
                                        previous,
                                    },
                                ),
                            }
                        },
                    },
                },
            }
        },
    }
}

/// The library with the item of this identifier replaced.
pub open spec fn with_replaced(library: LibraryV, id: Seq<char>, item: ItemV) -> LibraryV {
    match index_of_id(library.items, id) {
        Some(i) => LibraryV { items: library.items.update(i, item), ..library },
        None => library,
    }
}

/// The model of an item, or of the complaint.
pub open spec fn item_outcome(r: Result<MediaItem, String>) -> Result<ItemV, Seq<char>> {
    match r {
        Ok(item) => Ok(item@),
        Err(message) => Err(message@),
    }
}

fn refreshed(item: &MediaItem, download: &RemoteDownload, digest: String) -> (r: MediaItem)
    requires
        is_digest(digest@),
    ensures
        r@ == refreshed_item(item@, download@, digest@),
{
    let chars = chars_of(digest.as_str());
    let short = text_of(&chars, 0, 12);
    assert(short@ =~= digest@.take(12));
    MediaItem {
        id: item.id.clone(),
        name: item.name.clone(),
        kind: download.kind,
        origin: item.origin,
        file_name: item.id.clone().concat("-").concat(short.as_str()).concat(
            extension(download.original_name.as_str()).as_str(),
        ),
        mime_type: download.mime_type.clone(),
        byte_size: download.byte_size,
        sha256: digest,
        source_url: copy_opt(&item.source_url),
        file_count: item.file_count,
        created_at: item.created_at.clone(),
        preview_url: None,
    }
}

/// What comes of a refresh: what is returned, and the library after it.
pub open spec fn refreshed_by(
    library: LibraryV,
    plan: RefreshV,
    moved: Result<(), Seq<char>>,
    saved: Result<(), Seq<char>>,
) -> (Result<ItemV, Seq<char>>, LibraryV) {
    match plan {
        RefreshV::Unchanged(item) => (Ok(item), library),
        RefreshV::Replace { updated, previous } => match moved {
            Err(message) => (Err(message), library),
            Ok(_) => (
                match saved {
                    Ok(_) => Ok(updated),
                    Err(message) => Err(message),
                },
                with_replaced(library, updated.id, updated),
            ),
        },
    }
}

impl MediaLibrary {
    /// Decides what is to be done with a fresh download of an item.
    pub fn plan_refresh(
        &self,
        id: &str,
        download: &RemoteDownload,
        source: &SourceFile,
    ) -> (r: Result<RefreshPlan, String>)
        requires
            source@.is_in_reach(),
        ensures
            refresh_outcome(r) == refresh_plan(self@.items, id@, download@, source@),
    {
        let item = match self.get_by_id(id) {
            Some(item) => item,
            None => {
                return Err("媒体项目不存在。".to_string());
            },
        };
        if !matches!(item.origin, MediaOrigin::Api) || item.source_url.is_none() {
            return Err("该媒体不是随机 API 来源。".to_string());
        }
        let chosen = extension(download.original_name.as_str());
        let found = match media_type(chosen.as_str()) {
            Some(found) => found,
            None => {
                return Err("不支持此图片或视频格式。".to_string());
            },
        };
        let content = match &source.content {
            Ok(content) => content,
            Err(message) => {
                return Err(message.clone());
            },
        };
        if let Err(message) = validate_media(content, found, chosen.as_str()) {
            return Err(message);
        }
        let digest = sha256(content);
        if same(digest.as_str(), item.sha256.as_str()) {
            return Ok(RefreshPlan::Unchanged(item));
        }
        let previous = match self.path_for(&item) {
            Ok(previous) => previous,
            Err(message) => {
                return Err(message);
            },
        };
        Ok(RefreshPlan::Replace { updated: refreshed(&item, download, digest), previous })
    }

    fn replace(&mut self, id: &str, item: &MediaItem)
        ensures
            final(self)@ == with_replaced(old(self)@, id@, item@),
    {
        if let Some(i) = self.find_id(id) {
            let ghost start = self.items@;
            self.items.set(i, item.copy());
            assert(items_view(self.items@) =~= items_view(start).update(i as int, item@));
        }
    }

    /// The catalogue as it is stored once the item of this identifier is
    /// replaced.
    pub fn catalog_replacing(&self, id: &str, item: &MediaItem) -> (r: String)
        ensures
            r@ == json_pretty(catalog_json(with_replaced(self@, id@, item@).items)),
            catalog_items(CatalogRead::Text(r)) == Some(kept_items(with_replaced(self@, id@, item@).items)),
    {
        let mut items = copy_items(&self.items);
        if let Some(i) = self.find_id(id) {
            let ghost start = items@;
            items.set(i, item.copy());
            assert(items_view(items@) =~= items_view(start).update(i as int, item@));
        }
        proof {
            stored_catalog_reads_back(items_view(items@));
        }
        catalog_text(&items)
    }

    /// Carries out a refresh. `moved` says whether the new file is in its
    /// place, `saved` whether the catalogue was written. The item changes as
    /// soon as its file did.
    pub fn refresh_with_download(
        &mut self,
        plan: RefreshPlan,
        moved: Result<(), String>,
        saved: Result<(), String>,
    ) -> (r: Result<MediaItem, String>)
        ensures
            item_outcome(r) == refreshed_by(old(self)@, plan@, outcome(moved), outcome(saved)).0,
            final(self)@ == refreshed_by(old(self)@, plan@, outcome(moved), outcome(saved)).1,
    {
        match plan {
            RefreshPlan::Unchanged(item) => Ok(item),
            RefreshPlan::Replace { updated, previous } => match moved {
                Err(message) => Err(message),
                Ok(_) => {
                    self.replace(updated.id.as_str(), &updated);
                    match saved {
                        Ok(_) => Ok(updated),
                        Err(message) => Err(message),
                    }
                },
            },
        }
    }
}

/// A refresh changes the file of one item and neither its identifier nor the
/// other items.
pub proof fn refresh_keeps_identity(
    library: LibraryV,
    id: Seq<char>,
    download: DownloadV,
    source: SourceV,
)
    requires
        refresh_plan(library.items, id, download, source) matches Ok(RefreshV::Replace { .. }),
    ensures
        ({
            let updated = refresh_plan(library.items, id, download, source)->Ok_0->updated;
            let after = with_replaced(library, updated.id, updated);
            &&& updated.id == id
            &&& after.items.len() == library.items.len()
            &&& item_with_id(after.items, id) == Some(updated)
            &&& forall|i: int|
                0 <= i < library.items.len() && (#[trigger] library.items[i]).id != id
                    ==> after.items[i] == library.items[i]
        }),
{
    let updated = refresh_plan(library.items, id, download, source)->Ok_0->updated;
    let p = |item: ItemV| item.id == id;
    lemma_first_where(library.items, p);
    let i = index_of_id(library.items, id)->0;
    let after = with_replaced(library, updated.id, updated);
    lemma_first_where(after.items, p);
    assert(p(after.items[i]));
    assert forall|k: int| 0 <= k < i implies !p(#[trigger] after.items[k]) by {
        assert(!p(library.items[k]));
    }
    let j = first_where(after.items, p)->0;
    if j < i {
        assert(!p(after.items[j]));
    }
    if i < j {
        assert(!p(after.items[i]));
    }
}

// ---------------------------------------------------------------------------
// Taking an item out
// ---------------------------------------------------------------------------

/// The library without the item of this identifier and what was kept for it.
pub open spec fn removed(library: LibraryV, id: Seq<char>) -> LibraryV {
    match index_of_id(library.items, id) {
        None => library,
        Some(i) => LibraryV {
            items: library.items.remove(i),
            cursors: library.cursors.remove(id),
            selections: library.selections.remove(id),
            listings: library.listings.remove(id),
        },
    }
}

/// The file that goes with an item; `None` where there is no such item, and
/// inside where it has no file of its own.
pub open spec fn removal_file(items: Seq<ItemV>, id: Seq<char>) -> Result<
    Option<Option<Seq<char>>>,
    Seq<char>,
> {
    match item_with_id(items, id) {
        None => Ok(None),
        Some(item) => if item.origin == MediaOrigin::Folder {
            Ok(Some(None))
        } else {
            match managed_file(item) {
                Ok(name) => Ok(Some(Some(name))),
                Err(message) => Err(message),
            }
        },
    }
}

/// What comes of a removal: whether there was something to remove, and the library
/// after it.
pub open spec fn removal(library: LibraryV, id: Seq<char>, saved: Result<(), Seq<char>>) -> (
    Result<bool, Seq<char>>,
    LibraryV,
) {
    match index_of_id(library.items, id) {
        None => (Ok(false), library),
        Some(_) => match saved {
            Ok(_) => (Ok(true), removed(library, id)),
            Err(message) => (Err(message), library),
        },
    }
}

impl MediaLibrary {
    /// The file that has to go before an item can be taken out.
    pub fn plan_removal(&self, id: &str) -> (r: Result<Option<Option<String>>, String>)
        ensures
            (match r {
                Ok(None) => Ok(None),
                Ok(Some(file)) => Ok(Some(opt_view(file))),
                Err(message) => Err(message@),
            }) == removal_file(self@.items, id@),
    {
        match self.get_by_id(id) {
            None => Ok(None),
            Some(item) => if matches!(item.origin, MediaOrigin::Folder) {
                Ok(Some(None))
            } else {
                match self.path_for(&item) {
                    Ok(name) => Ok(Some(Some(name))),
                    Err(message) => Err(message),
                }
            },
        }
    }

    /// The catalogue as it is stored once the item of this identifier is out.
    pub fn catalog_without(&self, id: &str) -> (r: String)
        ensures
            r@ == json_pretty(catalog_json(removed(self@, id@).items)),
            catalog_items(CatalogRead::Text(r)) == Some(kept_items(removed(self@, id@).items)),
    {
        let mut items = copy_items(&self.items);
        if let Some(i) = self.find_id(id) {
            let ghost start = items@;
            items.remove(i);
            assert(items_view(items@) =~= items_view(start).remove(i as int));
        }
        proof {
            stored_catalog_reads_back(items_view(items@));
        }
        catalog_text(&items)
    }

    fn forget_selection(&mut self, id: &str)
        ensures
            final(self)@ == (LibraryV {
                selections: old(self)@.selections.remove(id@),
                ..old(self)@
            }),
    {
        let ghost start = self.selections@;
        self.selections.remove(id);
        assert(start.remove(id@).map_values(|m: ResolvedMedia| m@) =~= start.map_values(
            |m: ResolvedMedia| m@,
        ).remove(id@));
    }

    fn keep_selection(&mut self, id: &str, media: ResolvedMedia)
        ensures
            final(self)@ == (LibraryV {
                selections: old(self)@.selections.insert(id@, media@),
                ..old(self)@
            }),
    {
        let ghost start = self.selections@;
        self.selections.insert(id.to_string(), media);
        assert(start.insert(id@, media).map_values(|m: ResolvedMedia| m@) =~= start.map_values(
            |m: ResolvedMedia| m@,
        ).insert(id@, media@));
    }

    fn forget_listing(&mut self, id: &str)
        ensures
            final(self)@ == (LibraryV {
                listings: old(self)@.listings.remove(id@),
                ..old(self)@
            }),
    {
        let ghost start = self.listings@;
        self.listings.remove(id);
        assert(start.remove(id@).map_values(|m: CachedListing| m@) =~= start.map_values(
            |m: CachedListing| m@,
        ).remove(id@));
    }

    fn keep_listing(&mut self, id: &str, files: Vec<String>, now: u64)
        ensures
            final(self)@ == (LibraryV {
                listings: old(self)@.listings.insert(
                    id@,
                    ListingV { files: list_view(files@), scanned_at: now },
                ),
                ..old(self)@
            }),
    {
        let ghost start = self.listings@;
        let listing = CachedListing { files, scanned_at: now };
        self.listings.insert(id.to_string(), listing);
        assert(start.insert(id@, listing).map_values(|m: CachedListing| m@) =~= start.map_values(
            |m: CachedListing| m@,
        ).insert(id@, listing@));
    }

    /// Takes an item out, once its file is set aside. `saved` says whether the
    /// catalogue was written; where it was not, the item stays.
    pub fn remove(&mut self, id: &str, saved: Result<(), String>) -> (r: Result<bool, String>)
        ensures
            outcome(r) == removal(old(self)@, id@, outcome(saved)).0,
            final(self)@ == removal(old(self)@, id@, outcome(saved)).1,
    {
        match self.find_id(id) {
            None => Ok(false),
            Some(i) => match saved {
                Err(message) => Err(message),
                Ok(_) => {
                    let ghost start = self.items@;
                    self.items.remove(i);
                    assert(items_view(self.items@) =~= items_view(start).remove(i as int));
                    self.cursors.remove(id);
                    self.forget_selection(id);
                    self.forget_listing(id);
                    Ok(true)
                },
            },
        }
    }
}

/// Taking out an item that was just taken in gives the items from before.
pub proof fn removal_undoes_import(library: LibraryV, item: ItemV)
    ensures
        removed(with_item(library, item), item.id).items == library.items,
{
    let items = seq![item] + library.items;
    assert(items[0] == item);
    assert(index_of_id(items, item.id) == Some(0int));
    assert(items.remove(0) =~= library.items);
}

// ---------------------------------------------------------------------------
// Folders
// ---------------------------------------------------------------------------

/// The name under which a folder is shown: its own, and how many files it has.
pub open spec fn folder_label(name: Option<Seq<char>>, count: u64) -> Seq<char> {
    display_name(
        (match name {
            Some(text) => text,
            None => "未命名文件夹"@,
        }) + "（"@ + decimal(count as nat) + "）"@,
    )
}

/// The name under which a folder is shown.
pub fn folder_display_name(name: &Option<String>, count: u64) -> (r: String)
    ensures
        r@ == folder_label(opt_view(*name), count),
{
    let front = match name {
        Some(text) => text.clone(),
        None => "未命名文件夹".to_string(),
    };
    safe_display_name(
        front.concat("（").concat(decimal_text(count).as_str()).concat("）").as_str(),
    )
}

/// What the file system says of a folder that is to be imported.
pub struct FolderRoot {
    pub path: String,
    pub is_dir: bool,
    pub name: Option<String>,
}

/// The model of a folder.
pub struct RootV {
    pub path: Seq<char>,
    pub is_dir: bool,
    pub name: Option<Seq<char>>,
}

impl View for FolderRoot {
    type V = RootV;

    open spec fn view(&self) -> RootV {
        RootV { path: self.path@, is_dir: self.is_dir, name: opt_view(self.name) }
    }
}

/// The model of a folder, or of why it could not be found.
pub open spec fn root_result(r: Result<FolderRoot, String>) -> Result<RootV, Seq<char>> {
    match r {
        Ok(root) => Ok(root@),
        Err(message) => Err(message@),
    }
}

/// The model of a listing, or of why it could not be made.
pub open spec fn list_result(r: Result<Vec<String>, String>) -> Result<Seq<Seq<char>>, Seq<char>> {
    match r {
        Ok(files) => Ok(list_view(files@)),
        Err(message) => Err(message@),
    }
}

/// The item of a folder that is already there.
pub open spec fn folder_at(items: Seq<ItemV>, path: Seq<char>) -> Option<ItemV> {
    match first_where(
        items,
        |item: ItemV| item.origin == MediaOrigin::Folder && item.source_url == Some(path),
    ) {
        Some(i) => Some(items[i]),
        None => None,
    }
}

/// The item that a folder becomes. It refers to the folder; nothing is copied.
pub open spec fn folder_item(
    root: RootV,
    count: u64,
    id: Seq<char>,
    created_at: Seq<char>,
) -> ItemV {
    ItemV {
        id,
        name: folder_label(root.name, count),
        kind: MediaKind::Image,
        origin: MediaOrigin::Folder,
        file_name: "__folder__"@,
        mime_type: "application/x-directory"@,
        byte_size: 0,
        sha256: sha256_of(vstd::utf8::encode_utf8(root.path)),
        source_url: Some(root.path),
        file_count: Some(count),
        created_at,
        preview_url: None,
    }
}

/// The item that a folder becomes, or the path that is left out and why.
pub open spec fn folder_plan(
    items: Seq<ItemV>,
    folder: Seq<char>,
    root: Result<RootV, Seq<char>>,
    listing: Result<Seq<Seq<char>>, Seq<char>>,
    id: Seq<char>,
    created_at: Seq<char>,
) -> Result<ItemV, (Seq<char>, Seq<char>)> {
    match root {
        Err(message) => Err((folder, message)),
        Ok(root) => if !root.is_dir {
            Err((root.path, "请选择一个文件夹。"@))
        } else {
            match folder_at(items, root.path) {
                Some(existing) => Err((root.path, "文件夹源已存在："@ + existing.name)),
                None => match listing {
                    Err(message) => Err((root.path, message)),
                    Ok(files) => if files.len() == 0 {
                        Err((root.path, "文件夹中没有支持的图片或视频。"@))
                    } else {
                        Ok(folder_item(root, files.len() as u64, id, created_at))
                    },
                },
            }
        },
    }
}

/// The model of a plan for a folder.
pub open spec fn folder_outcome(r: Result<MediaItem, SkippedImport>) -> Result<
    ItemV,
    (Seq<char>, Seq<char>),
> {
    match r {
        Ok(item) => Ok(item@),
        Err(skipped) => Err((skipped.path@, skipped.reason@)),
    }
}

/// The library once the import of a folder was carried out.
pub open spec fn folder_taken(
    library: LibraryV,
    plan: Result<ItemV, (Seq<char>, Seq<char>)>,
    listing: ListingV,
    saved: Result<(), Seq<char>>,
) -> LibraryV {
    match plan {
        Err(_) => library,
        Ok(item) => if saved is Ok {
            LibraryV {
                listings: library.listings.insert(item.id, listing),
                ..with_item(library, item)
            }
        } else {
            without_item(library, item.id)
        },
    }
}

/// What is said of the import of a folder.
pub open spec fn folder_record(
    plan: Result<ItemV, (Seq<char>, Seq<char>)>,
    saved: Result<(), Seq<char>>,
) -> (Seq<ItemV>, Seq<(Seq<char>, Seq<char>)>) {
    match plan {
        Err(skipped) => (Seq::empty(), seq![skipped]),
        Ok(item) => match saved {
            Ok(_) => (seq![item], Seq::empty()),
            Err(message) => (
                Seq::empty(),
                seq![
                    (
                        match item.source_url {
                            Some(path) => path,
                            None => Seq::empty(),
                        },
                        message,
                    ),
                ],
            ),
        },
    }
}

impl MediaLibrary {
    /// Decides what is to be done with a folder. `id` and `created_at` are
    /// those of the item that it may become.
    pub fn plan_folder(
        &self,
        folder: &str,
        root: &Result<FolderRoot, String>,
        listing: &Result<Vec<String>, String>,
        id: String,
        created_at: String,
    ) -> (r: Result<MediaItem, SkippedImport>)
        ensures
            folder_outcome(r) == folder_plan(
                self@.items,
                folder@,
                root_result(*root),
                list_result(*listing),
                id@,
                created_at@,
            ),
    {
        let root = match root {
            Ok(root) => root,
            Err(message) => {
                return Err(SkippedImport { path: folder.to_string(), reason: message.clone() });
            },
        };
        if !root.is_dir {
            return Err(
                SkippedImport {
                    path: root.path.clone(),
                    reason: "请选择一个文件夹。".to_string(),
                },
            );
        }
        if let Some(existing) = self.folder_item_at(root.path.as_str()) {
            return Err(
                SkippedImport {
                    path: root.path.clone(),
                    reason: "文件夹源已存在：".to_string().concat(existing.name.as_str()),
                },
            );
        }
        match listing {
            Err(message) => Err(
                SkippedImport { path: root.path.clone(), reason: message.clone() },
            ),
            Ok(files) => {
                if files.len() == 0 {
                    return Err(
                        SkippedImport {
                            path: root.path.clone(),
                            reason: "文件夹中没有支持的图片或视频。".to_string(),
                        },
                    );
                }
                let count: u64 = files.len() as u64;
                Ok(
                    MediaItem {
                        id,
                        name: folder_display_name(&root.name, count),
                        kind: MediaKind::Image,
                        origin: MediaOrigin::Folder,
                        file_name: "__folder__".to_string(),
                        mime_type: "application/x-directory".to_string(),
                        byte_size: 0,
                        sha256: sha256_text(root.path.as_str()),
                        source_url: Some(root.path.clone()),
                        file_count: Some(count),
                        created_at,
                        preview_url: None,
                    },
                )
            },
        }
    }

    /// Decides what is to be done with a folder, with a fresh identifier and
    /// the present time for the item that it may become.
    pub fn begin_folder(
        &self,
        folder: &str,
        root: &Result<FolderRoot, String>,
        listing: &Result<Vec<String>, String>,
    ) -> (r: Result<MediaItem, SkippedImport>)
        ensures
            exists|id: Seq<char>, created_at: Seq<char>|
                is_uuid(id) && folder_outcome(r) == #[trigger] folder_plan(
                    self@.items,
                    folder@,
                    root_result(*root),
                    list_result(*listing),
                    id,
                    created_at,
                ),
    {
        let id = new_id();
        let created_at = now_text();
        let ghost witness = (id@, created_at@);
        let r = self.plan_folder(folder, root, listing, id, created_at);
        assert(folder_outcome(r) == folder_plan(
            self@.items,
            folder@,
            root_result(*root),
            list_result(*listing),
            witness.0,
            witness.1,
        ));
        r
    }

    /// Carries out the import of a folder whose files were listed at `now`.
    /// `saved` says whether the catalogue was written.
    pub fn import_folder(
        &mut self,
        plan: Result<MediaItem, SkippedImport>,
        files: Vec<String>,
        now: u64,
        saved: Result<(), String>,
    ) -> (r: ImportResult)
        ensures
            final(self)@ == folder_taken(
                old(self)@,
                folder_outcome(plan),
                ListingV { files: list_view(files@), scanned_at: now },
                outcome(saved),
            ),
            r.model() == folder_record(folder_outcome(plan), outcome(saved)),
    {
        match plan {
            Err(skipped) => import_without(skipped.path.as_str(), skipped.reason),
            Ok(item) => match saved {
                Err(message) => {
                    self.drop_id(item.id.as_str());
                    match &item.source_url {
                        Some(path) => import_without(path.as_str(), message),
                        None => {
                            let none = String::new();
                            import_without(none.as_str(), message)
                        },
                    }
                },
                Ok(_) => {
                    self.push_front(item.copy());
                    self.keep_listing(item.id.as_str(), files, now);
                    import_of(item)
                },
            },
        }
    }
}

/// A folder that is there already is not taken in again.
pub proof fn known_folder_is_not_imported_twice(
    items: Seq<ItemV>,
    folder: Seq<char>,
    root: RootV,
    listing: Result<Seq<Seq<char>>, Seq<char>>,
    id: Seq<char>,
    created_at: Seq<char>,
)
    requires
        folder_at(items, root.path) is Some,
    ensures
        folder_plan(items, folder, Ok(root), listing, id, created_at) is Err,
{
}

// ---------------------------------------------------------------------------
// Showing a folder
// ---------------------------------------------------------------------------

/// The files of a folder, where they were listed less than two seconds ago.
pub open spec fn fresh_files(library: LibraryV, id: Seq<char>, now: u64) -> Option<Seq<Seq<char>>> {
    if library.listings.contains_key(id) && now - library.listings[id].scanned_at
        < FOLDER_LISTING_TTL {
        Some(library.listings[id].files)
    } else {
        None
    }
}

/// The path of a folder item.
pub open spec fn folder_source(item: ItemV) -> Result<Seq<char>, Seq<char>> {
    match item.source_url {
        Some(path) => Ok(path),
        None => Err("文件夹源缺少路径。"@),
    }
}

/// The path of a folder item.
pub fn folder_path_for(item: &MediaItem) -> (r: Result<String, String>)
    ensures
        text_result(r) == folder_source(item@),
{
    match &item.source_url {
        Some(path) => Ok(path.clone()),
        None => Err("文件夹源缺少路径。".to_string()),
    }
}

/// The files of a folder after it was listed anew, or the complaint.
pub open spec fn rescan_result(
    item: ItemV,
    is_dir: bool,
    listing: Result<Seq<Seq<char>>, Seq<char>>,
) -> Result<Seq<Seq<char>>, Seq<char>> {
    match folder_source(item) {
        Err(message) => Err(message),
        Ok(_) => if !is_dir {
            Err("文件夹源已不存在或不可访问。"@)
        } else {
            listing
        },
    }
}

/// The number of files that the library has noted for an item.
pub open spec fn noted_count(items: Seq<ItemV>, id: Seq<char>) -> Option<u64> {
    match item_with_id(items, id) {
        Some(item) => item.file_count,
        None => None,
    }
}

/// An item with another number of files, and the name that shows it.
pub open spec fn recounted_item(item: ItemV, name: Option<Seq<char>>, count: u64) -> ItemV {
    ItemV { file_count: Some(count), name: folder_label(name, count), ..item }
}

/// The library after a folder was listed anew.
pub open spec fn rescanned(
    library: LibraryV,
    id: Seq<char>,
    name: Option<Seq<char>>,
    files: Seq<Seq<char>>,
    now: u64,
) -> LibraryV {
    let count = files.len() as u64;
    let listed = LibraryV {
        listings: library.listings.insert(id, ListingV { files, scanned_at: now }),
        ..library
    };
    if noted_count(library.items, id) == Some(count) {
        listed
    } else {
        match index_of_id(library.items, id) {
            Some(i) => LibraryV {
                items: library.items.update(i, recounted_item(library.items[i], name, count)),
                ..listed
            },
            None => listed,
        }
    }
}

/// The files of a folder, and whether the catalogue has changed.
pub open spec fn rescan_outcome(r: Result<(Vec<String>, bool), String>) -> Result<
    (Seq<Seq<char>>, bool),
    Seq<char>,
> {
    match r {
        Ok((files, changed)) => Ok((list_view(files@), changed)),
        Err(message) => Err(message@),
    }
}

/// What comes of listing a folder anew: the files and whether their number differs from
/// the one that was noted, and the library after it.
pub open spec fn listed_anew(
    library: LibraryV,
    item: ItemV,
    is_dir: bool,
    name: Option<Seq<char>>,
    listing: Result<Seq<Seq<char>>, Seq<char>>,
    now: u64,
) -> (Result<(Seq<Seq<char>>, bool), Seq<char>>, LibraryV) {
    match rescan_result(item, is_dir, listing) {
        Err(message) => (Err(message), library),
        Ok(files) => (
            Ok((files, noted_count(library.items, item.id) != Some(files.len() as u64))),
            rescanned(library, item.id, name, files, now),
        ),
    }
}

impl MediaLibrary {
    /// The files of a folder, where the listing of it is fresh.
    pub fn folder_files_cached(&self, id: &str, now: u64) -> (r: Option<Vec<String>>)
        ensures
            (match r {
                Some(files) => Some(list_view(files@)),
                None => None,
            }) == fresh_files(self@, id@, now),
    {
        match self.listings.get(id) {
            None => None,
            Some(listing) => {
                assert(self@.listings[id@] == listing@);
                if now < listing.scanned_at || now - listing.scanned_at < FOLDER_LISTING_TTL {
                    Some(copy_list(&listing.files))
                } else {
                    None
                }
            },
        }
    }

    fn recount(&mut self, id: &str, name: &Option<String>, count: u64)
        ensures
            final(self)@ == (match index_of_id(old(self)@.items, id@) {
                Some(i) => LibraryV {
                    items: old(self)@.items.update(
                        i,
                        recounted_item(old(self)@.items[i], opt_view(*name), count),
                    ),
                    ..old(self)@
                },
                None => old(self)@,
            }),
    {
        if let Some(i) = self.find_id(id) {
            let ghost start = self.items@;
            let mut item = self.items[i].copy();
            item.file_count = Some(count);
            item.name = folder_display_name(name, count);
            self.items.set(i, item);
            assert(items_view(self.items@) =~= items_view(start).update(
                i as int,
                recounted_item(start[i as int]@, opt_view(*name), count),
            ));
        }
    }

    /// Takes a fresh listing of a folder. The flag says that the catalogue has
    /// to be written.
    pub fn rescan_folder_listing(
        &mut self,
        item: &MediaItem,
        is_dir: bool,
        name: &Option<String>,
        listing: Result<Vec<String>, String>,
        now: u64,
    ) -> (r: Result<(Vec<String>, bool), String>)
        ensures
            rescan_outcome(r) == listed_anew(
                old(self)@,
                item@,
                is_dir,
                opt_view(*name),
                list_result(listing),
                now,
            ).0,
            final(self)@ == listed_anew(
                old(self)@,
                item@,
                is_dir,
                opt_view(*name),
                list_result(listing),
                now,
            ).1,
    {
        if item.source_url.is_none() {
            return Err("文件夹源缺少路径。".to_string());
        }
        if !is_dir {
            return Err("文件夹源已不存在或不可访问。".to_string());
        }
        match listing {
            Err(message) => Err(message),
            Ok(files) => {
                let count: u64 = files.len() as u64;
                let noted = match self.get_by_id(item.id.as_str()) {
                    Some(stored) => stored.file_count,
                    None => None,
                };
                self.keep_listing(item.id.as_str(), copy_list(&files), now);
                let unchanged = match noted {
                    Some(known) => known == count,
                    None => false,
                };
                if !unchanged {
                    self.recount(item.id.as_str(), name, count);
                }
                Ok((files, !unchanged))
            },
        }
    }
}

/// A file of a folder that is to be looked at. `kept` says that it was chosen
/// before.
pub struct FolderStep {
    pub path: String,
    pub kept: bool,
}

/// The path of a file that was chosen from a folder.
pub open spec fn listed_path(media: ResolvedV) -> Option<Seq<char>> {
    match media.path {
        PathV::Listed(path) => Some(path),
        PathV::Managed(_) => None,
    }
}

/// The file that was chosen at random before.
pub open spec fn selected_path(library: LibraryV, id: Seq<char>) -> Option<Seq<char>> {
    if library.selections.contains_key(id) {
        listed_path(library.selections[id])
    } else {
        None
    }
}

/// The place at which a folder stands; at first it is 0.
pub open spec fn cursor_of(library: LibraryV, id: Seq<char>) -> int {
    if library.cursors.contains_key(id) {
        library.cursors[id] as int
    } else {
        0
    }
}

/// The file at which a folder stands.
pub open spec fn cursor_path(library: LibraryV, id: Seq<char>, files: Seq<Seq<char>>) -> Seq<char> {
    files[cursor_of(library, id) % files.len() as int]
}

/// The file that a random number picks.
pub open spec fn picked_path(files: Seq<Seq<char>>, seed: u128) -> Seq<char> {
    files[seed as int % files.len() as int]
}

/// A file that was chosen at random stays chosen as long as it is listed.
pub open spec fn kept_choice(library: LibraryV, id: Seq<char>, files: Seq<Seq<char>>) -> Option<
    Seq<char>,
> {
    match selected_path(library, id) {
        Some(path) => if files.contains(path) {
            Some(path)
        } else {
            None
        },
        None => None,
    }
}

/// The file to be looked at first.
pub open spec fn first_choice(
    library: LibraryV,
    id: Seq<char>,
    order: SlideshowOrder,
    files: Seq<Seq<char>>,
    seed: u128,
) -> (Seq<char>, bool) {
    match order {
        SlideshowOrder::Sequential => (cursor_path(library, id, files), false),
        SlideshowOrder::Random => match kept_choice(library, id, files) {
            Some(path) => (path, true),
            None => (picked_path(files, seed), false),
        },
    }
}

/// The library once the first file is chosen: a choice that is no longer
/// listed is dropped.
pub open spec fn after_choice(
    library: LibraryV,
    id: Seq<char>,
    order: SlideshowOrder,
    files: Seq<Seq<char>>,
) -> LibraryV {
    if order == SlideshowOrder::Random && kept_choice(library, id, files) is None {
        LibraryV { selections: library.selections.remove(id), ..library }
    } else {
        library
    }
}

/// How a look at a file of a folder ends: with the file that is shown, or with
/// another file to be looked at.
pub enum FolderVerdict {
    Done(Result<ResolvedMedia, String>),
    Next(FolderStep),
}

/// The model of how the choice of a file goes on.
pub enum VerdictV {
    Done(Result<ResolvedV, Seq<char>>),
    Next(Seq<char>, bool),
}

impl View for FolderVerdict {
    type V = VerdictV;

    open spec fn view(&self) -> VerdictV {
        match self {
            FolderVerdict::Done(result) => VerdictV::Done(resolved_outcome(*result)),
            FolderVerdict::Next(step) => VerdictV::Next(step.path@, step.kept),
        }
    }
}

/// How the choice of a file goes on once it was looked at: one that was kept and
/// cannot be used is replaced by the one that was drawn.
pub open spec fn probe_verdict(
    files: Seq<Seq<char>>,
    seed: u128,
    kept: bool,
    probed: Result<ResolvedV, Seq<char>>,
) -> VerdictV {
    if probed is Err && kept {
        VerdictV::Next(picked_path(files, seed), false)
    } else {
        VerdictV::Done(probed)
    }
}

/// The library once a file was looked at: what is shown at random is kept.
pub open spec fn after_probe(
    library: LibraryV,
    id: Seq<char>,
    order: SlideshowOrder,
    kept: bool,
    probed: Result<ResolvedV, Seq<char>>,
) -> LibraryV {
    LibraryV {
        selections: match probed {
            Ok(media) => if kept || order == SlideshowOrder::Random {
                library.selections.insert(id, media)
            } else {
                library.selections.remove(id)
            },
            Err(_) => if kept {
                library.selections.remove(id)
            } else {
                library.selections
            },
        },
        ..library
    }
}

/// What comes of choosing the file of a folder: which one and whether it was kept, and
/// the library after it.
pub open spec fn choice(
    library: LibraryV,
    id: Seq<char>,
    order: SlideshowOrder,
    files: Seq<Seq<char>>,
    seed: u128,
) -> (Result<(Seq<char>, bool), Seq<char>>, LibraryV) {
    if files.len() == 0 {
        (Err("文件夹中没有支持的图片或视频。"@), library)
    } else {
        (
            Ok(first_choice(library, id, order, files, seed)),
            after_choice(library, id, order, files),
        )
    }
}

impl MediaLibrary {
    /// Chooses the file of a folder that is to be looked at first.
    pub fn begin_resolve(
        &mut self,
        id: &str,
        order: SlideshowOrder,
        files: &Vec<String>,
        seed: u128,
    ) -> (r: Result<FolderStep, String>)
        ensures
            (match r {
                Ok(step) => Ok((step.path@, step.kept)),
                Err(message) => Err(message@),
            }) == choice(old(self)@, id@, order, list_view(files@), seed).0,
            final(self)@ == choice(old(self)@, id@, order, list_view(files@), seed).1,
    {
        if files.len() == 0 {
            return Err("文件夹中没有支持的图片或视频。".to_string());
        }
        match order {
            SlideshowOrder::Sequential => {
                let cursor: usize = self.cursors.get(id);
                Ok(FolderStep { path: files[cursor % files.len()].clone(), kept: false })
            },
            SlideshowOrder::Random => {
                let chosen = match self.selections.get(id) {
                    Some(media) => {
                        assert(self@.selections[id@] == media@);
                        match &media.path {
                            MediaPath::Listed(path) => Some(path.clone()),
                            MediaPath::Managed(_) => None,
                        }
                    },
                    None => None,
                };
                if let Some(path) = chosen {
                    if crate::text::contains_item(files, path.as_str()) {
                        return Ok(FolderStep { path, kept: true });
                    }
                }
                self.forget_selection(id);
                let at: usize = (seed % (files.len() as u128)) as usize;
                Ok(FolderStep { path: files[at].clone(), kept: false })
            },
        }
    }

    /// Takes what a look at a file gave.
    pub fn continue_resolve(
        &mut self,
        id: &str,
        order: SlideshowOrder,
        files: &Vec<String>,
        seed: u128,
        kept: bool,
        probed: Result<ResolvedMedia, String>,
    ) -> (r: FolderVerdict)
        requires
            files.len() > 0,
        ensures
            r@ == probe_verdict(list_view(files@), seed, kept, resolved_outcome(probed)),
            final(self)@ == after_probe(old(self)@, id@, order, kept, resolved_outcome(probed)),
    {
        match probed {
            Ok(media) => {
                if kept || matches!(order, SlideshowOrder::Random) {
                    self.keep_selection(id, media.copy());
                } else {
                    self.forget_selection(id);
                }
                FolderVerdict::Done(Ok(media))
            },
            Err(message) => {
                if kept {
                    self.forget_selection(id);
                    let at: usize = (seed % (files.len() as u128)) as usize;
                    FolderVerdict::Next(FolderStep { path: files[at].clone(), kept: false })
                } else {
                    FolderVerdict::Done(Err(message))
                }
            },
        }
    }
}

/// The file that a folder goes on to at random: another one, where there is
/// one.
pub open spec fn random_index(
    current: Option<Seq<char>>,
    files: Seq<Seq<char>>,
    seed: u128,
) -> int {
    let index = seed as int % files.len() as int;
    if files.len() > 1 && current == Some(files[index]) {
        (index + 1) % files.len() as int
    } else {
        index
    }
}

/// The place that a folder goes on to in order.
pub open spec fn next_cursor(library: LibraryV, id: Seq<char>, count: nat) -> usize {
    ((cursor_of(library, id) + 1) % count as int) as usize
}

/// The library once a folder of so many files went on in order.
pub open spec fn moved_on(library: LibraryV, id: Seq<char>, count: nat) -> LibraryV {
    LibraryV {
        cursors: library.cursors.insert(id, next_cursor(library, id, count)),
        selections: library.selections.remove(id),
        ..library
    }
}

/// The library once a file of a folder was chosen at random.
pub open spec fn with_selection(library: LibraryV, id: Seq<char>, media: ResolvedV) -> LibraryV {
    LibraryV { selections: library.selections.insert(id, media), ..library }
}

/// What comes of having a folder go on: the file that is to be looked at, where one
/// is drawn, and the library after it.
pub open spec fn folder_advanced(
    library: LibraryV,
    item: ItemV,
    order: SlideshowOrder,
    files: Seq<Seq<char>>,
    seed: u128,
) -> (Result<Option<Seq<char>>, Seq<char>>, LibraryV) {
    if item.origin != MediaOrigin::Folder {
        (Ok(None), library)
    } else if files.len() == 0 {
        (Err("文件夹中没有支持的图片或视频。"@), library)
    } else {
        match order {
            SlideshowOrder::Sequential => (Ok(None), moved_on(library, item.id, files.len())),
            SlideshowOrder::Random => (
                Ok(Some(files[random_index(selected_path(library, item.id), files, seed)])),
                library,
            ),
        }
    }
}

/// What comes of the file that was drawn: it is kept where it can be used.
pub open spec fn drawn(
    library: LibraryV,
    id: Seq<char>,
    probed: Result<ResolvedV, Seq<char>>,
) -> (Result<(), Seq<char>>, LibraryV) {
    match probed {
        Ok(media) => (Ok(()), with_selection(library, id, media)),
        Err(message) => (Err(message), library),
    }
}

impl MediaLibrary {
    /// Moves a folder on. In order the next file is noted; at random the path
    /// that is given has to be looked at first.
    pub fn advance_folder_cursor(
        &mut self,
        item: &MediaItem,
        order: SlideshowOrder,
        files: &Vec<String>,
        seed: u128,
    ) -> (r: Result<Option<String>, String>)
        ensures
            (match r {
                Ok(path) => Ok(opt_view(path)),
                Err(message) => Err(message@),
            }) == folder_advanced(old(self)@, item@, order, list_view(files@), seed).0,
            final(self)@ == folder_advanced(old(self)@, item@, order, list_view(files@), seed).1,
    {
        if !matches!(item.origin, MediaOrigin::Folder) {
            return Ok(None);
        }
        if files.len() == 0 {
            return Err("文件夹中没有支持的图片或视频。".to_string());
        }
        let id = item.id.as_str();
        match order {
            SlideshowOrder::Sequential => {
                let next: usize = (self.cursors.get(id) + 1) % files.len();
                self.cursors.insert(item.id.clone(), next);
                self.forget_selection(id);
                Ok(None)
            },
            SlideshowOrder::Random => {
                let mut index: usize = (seed % (files.len() as u128)) as usize;
                let repeats = match self.selections.get(id) {
                    Some(media) => {
                        assert(self@.selections[id@] == media@);
                        match &media.path {
                            MediaPath::Listed(path) => same(path.as_str(), files[index].as_str()),
                            MediaPath::Managed(_) => false,
                        }
                    },
                    None => false,
                };
                if files.len() > 1 && repeats {
                    index = (index + 1) % files.len();
                }
                Ok(Some(files[index].clone()))
            },
        }
    }

    /// Notes the file that a folder went on to at random.
    pub fn finish_advance(&mut self, id: &str, probed: Result<ResolvedMedia, String>) -> (r: Result<
        (),
        String,
    >)
        ensures
            outcome(r) == drawn(old(self)@, id@, resolved_outcome(probed)).0,
            final(self)@ == drawn(old(self)@, id@, resolved_outcome(probed)).1,
    {
        match probed {
            Ok(media) => {
                self.keep_selection(id, media);
                Ok(())
            },
            Err(message) => Err(message),
        }
    }
}

/// At random a folder goes on to one of its files, and to another one than it
/// shows where it has one. That file stays the choice, whatever random number
/// comes, until the folder goes on again.
pub proof fn random_advance_changes_the_file(
    library: LibraryV,
    id: Seq<char>,
    files: Seq<Seq<char>>,
    seed: u128,
    media: ResolvedV,
    again: ResolvedV,
    later: u128,
)
    requires
        files.len() > 0,
        files.no_duplicates(),
        listed_path(media) == Some(files[random_index(selected_path(library, id), files, seed)]),
        listed_path(again) == listed_path(media),
    ensures
        ({
            let path = listed_path(media)->0;
            let moved = with_selection(library, id, media);
            &&& files.contains(path)
            &&& files.len() > 1 ==> selected_path(library, id) != Some(path)
            &&& first_choice(moved, id, SlideshowOrder::Random, files, later) == (path, true)
            &&& after_choice(moved, id, SlideshowOrder::Random, files) == moved
            &&& first_choice(
                with_selection(moved, id, again),
                id,
                SlideshowOrder::Random,
                files,
                later,
            ) == (path, true)
        }),
{
    let n = files.len() as int;
    let index = seed as int % n;
    let next = (index + 1) % n;
    assert(0 <= index < n && 0 <= next < n && (n > 1 ==> next != index)) by (nonlinear_arith)
        requires
            n >= 1,
            index == seed as int % n,
            next == (index + 1) % n,
    ;
    let at = random_index(selected_path(library, id), files, seed);
    assert(0 <= at < n);
    assert(files.contains(files[at]));
}

/// In order a folder goes on to the next of its files, and from the last one
/// back to the first.
pub proof fn sequential_advance_goes_round(
    library: LibraryV,
    id: Seq<char>,
    files: Seq<Seq<char>>,
    seed: u128,
)
    requires
        0 < files.len() <= usize::MAX,
    ensures
        next_cursor(library, id, files.len()) == (cursor_of(library, id) + 1) % files.len() as int,
        ({
            let place = cursor_of(library, id) % files.len() as int;
            let moved = moved_on(library, id, files.len());
            &&& 0 <= place < files.len()
            &&& first_choice(library, id, SlideshowOrder::Sequential, files, seed).0
                == files[place]
            &&& first_choice(moved, id, SlideshowOrder::Sequential, files, seed).0
                == files[if place + 1 < files.len() {
                place + 1
            } else {
                0
            }]
        }),
{
    lemma_next_cursor(library, id, files.len());
    lemma_next_place(cursor_of(library, id), files.len() as int);
}

proof fn lemma_next_cursor(library: LibraryV, id: Seq<char>, count: nat)
    requires
        0 < count <= usize::MAX,
    ensures
        0 <= next_cursor(library, id, count) < count,
        next_cursor(library, id, count) == (cursor_of(library, id) + 1) % count as int,
        cursor_of(moved_on(library, id, count), id) == (cursor_of(library, id) + 1) % count as int,
{
    let next = cursor_of(library, id) + 1;
    assert(0 <= next % count as int && (next % count as int) < count) by (nonlinear_arith)
        requires
            count > 0,
    ;
}

proof fn lemma_next_place(cursor: int, count: int)
    requires
        cursor >= 0,
        count > 0,
    ensures
        0 <= cursor % count < count,
        ((cursor + 1) % count) % count == (if cursor % count + 1 < count {
            cursor % count + 1
        } else {
            0
        }),
{
    let place = cursor % count;
    assert(0 <= place < count) by (nonlinear_arith)
        requires
            count > 0,
            place == cursor % count,
    ;
    vstd::arithmetic::div_mod::lemma_add_mod_noop(cursor, 1, count);
    vstd::arithmetic::div_mod::lemma_mod_twice(cursor + 1, count);
    vstd::arithmetic::div_mod::lemma_mod_twice(cursor, count);
    vstd::arithmetic::div_mod::lemma_add_mod_noop(place, 1, count);
    if place + 1 < count {
        vstd::arithmetic::div_mod::lemma_small_mod((place + 1) as nat, count as nat);
    } else {
        vstd::arithmetic::div_mod::lemma_mod_self_0(count);
    }
}

/// The library once a folder went on in order a number of times.
pub open spec fn moved_on_times(
    library: LibraryV,
    id: Seq<char>,
    count: nat,
    times: nat,
) -> LibraryV
    decreases times,
{
    if times == 0 {
        library
    } else {
        moved_on(moved_on_times(library, id, count, (times - 1) as nat), id, count)
    }
}

proof fn lemma_moved_on_times(library: LibraryV, id: Seq<char>, count: nat, times: nat)
    requires
        0 < count <= usize::MAX,
    ensures
        cursor_of(moved_on_times(library, id, count, times), id) % count as int == (cursor_of(
            library,
            id,
        ) + times) % count as int,
    decreases times,
{
    if times > 0 {
        let before = moved_on_times(library, id, count, (times - 1) as nat);
        lemma_moved_on_times(library, id, count, (times - 1) as nat);
        lemma_next_cursor(before, id, count);
        let start = cursor_of(library, id);
        let cursor = cursor_of(before, id);
        vstd::arithmetic::div_mod::lemma_mod_twice(cursor + 1, count as int);
        vstd::arithmetic::div_mod::lemma_add_mod_noop(cursor, 1, count as int);
        vstd::arithmetic::div_mod::lemma_add_mod_noop(start + times - 1, 1, count as int);
    }
}

/// A folder that went on in order once for each of its files is back at the
/// file at which it stood.
pub proof fn whole_round_comes_back(library: LibraryV, id: Seq<char>, files: Seq<Seq<char>>)
    requires
        0 < files.len() <= usize::MAX,
    ensures
        cursor_path(moved_on_times(library, id, files.len(), files.len()), id, files)
            == cursor_path(library, id, files),
{
    let n = files.len() as int;
    lemma_moved_on_times(library, id, files.len(), files.len());
    vstd::arithmetic::div_mod::lemma_mod_add_multiples_vanish(cursor_of(library, id), n);
}

// ---------------------------------------------------------------------------
// Items of another library
// ---------------------------------------------------------------------------

/// What is to be done with an item of another library.
pub enum ExistingPlan {
    /// It is there already; this is the item to be used.
    Known(MediaItem),
    /// It refers to a folder and has no file of its own.
    Refer(MediaItem),
    /// Its file is to be copied, unless one of that name is there.
    Copy(MediaItem),
}

/// The model of a plan.
pub enum ExistingV {
    Known(ItemV),
    Refer(ItemV),
    Copy(ItemV),
}

impl View for ExistingPlan {
    type V = ExistingV;

    open spec fn view(&self) -> ExistingV {
        match self {
            ExistingPlan::Known(item) => ExistingV::Known(item@),
            ExistingPlan::Refer(item) => ExistingV::Refer(item@),
            ExistingPlan::Copy(item) => ExistingV::Copy(item@),
        }
    }
}

/// The name of the file of an item of another library in this one. Where the
/// name is taken, the identifier makes another.
pub open spec fn adopted_name(item: ItemV, name_taken: bool) -> Seq<char> {
    if name_taken {
        item.id + extension_of(item.file_name)
    } else {
        match file_name_of(item.file_name) {
            Some(name) => name,
            None => item.file_name,
        }
    }
}

/// What is to be done with an item of another library.
pub open spec fn existing_plan(items: Seq<ItemV>, item: ItemV, name_taken: bool) -> ExistingV {
    match item_with_digest(items, item.sha256) {
        Some(known) => ExistingV::Known(known),
        None => if item.origin == MediaOrigin::Folder {
            if index_of_id(items, item.id) is Some {
                ExistingV::Known(item)
            } else {
                ExistingV::Refer(item)
            }
        } else {
            ExistingV::Copy(
                ItemV { file_name: adopted_name(item, name_taken), preview_url: None, ..item },
            )
        },
    }
}

/// The library after an item of another one was taken over.
pub open spec fn adopted(
    library: LibraryV,
    plan: ExistingV,
    copied: Result<(), Seq<char>>,
) -> LibraryV {
    match plan {
        ExistingV::Known(_) => library,
        ExistingV::Refer(item) => with_item(library, item),
        ExistingV::Copy(item) => if copied is Ok && index_of_id(library.items, item.id) is None {
            with_item(library, item)
        } else {
            library
        },
    }
}

/// What taking over an item of another library gives.
pub open spec fn adoption(
    library: LibraryV,
    plan: ExistingV,
    copied: Result<(), Seq<char>>,
    saved: Result<(), Seq<char>>,
) -> Result<ItemV, Seq<char>> {
    match plan {
        ExistingV::Known(item) => Ok(item),
        ExistingV::Refer(item) => match saved {
            Ok(_) => Ok(item),
            Err(message) => Err(message),
        },
        ExistingV::Copy(item) => match copied {
            Err(message) => Err(message),
            Ok(_) => if index_of_id(library.items, item.id) is Some {
                Ok(item)
            } else {
                match saved {
                    Ok(_) => Ok(item),
                    Err(message) => Err(message),
                }
            },
        },
    }
}

impl MediaLibrary {
    /// Decides what is to be done with an item of another library.
    /// `name_taken` says that its file name is in use here.
    pub fn plan_existing(&self, item: &MediaItem, name_taken: bool) -> (r: ExistingPlan)
        ensures
            r@ == existing_plan(self@.items, item@, name_taken),
    {
        if let Some(known) = self.find_by_sha256(item.sha256.as_str()) {
            return ExistingPlan::Known(known);
        }
        if matches!(item.origin, MediaOrigin::Folder) {
            if self.find_id(item.id.as_str()).is_some() {
                return ExistingPlan::Known(item.copy());
            }
            return ExistingPlan::Refer(item.copy());
        }
        let mut imported = item.copy();
        imported.preview_url = None;
        imported.file_name = if name_taken {
            item.id.clone().concat(extension(item.file_name.as_str()).as_str())
        } else {
            match file_name(item.file_name.as_str()) {
                Some(name) => name,
                None => item.file_name.clone(),
            }
        };
        ExistingPlan::Copy(imported)
    }

    /// Takes over an item of another library. `copied` says whether its file
    /// was copied, `saved` whether the catalogue was written.
    pub fn import_existing_file(
        &mut self,
        plan: ExistingPlan,
        copied: Result<(), String>,
        saved: Result<(), String>,
    ) -> (r: Result<MediaItem, String>)
        ensures
            item_outcome(r) == adoption(old(self)@, plan@, outcome(copied), outcome(saved)),
            final(self)@ == adopted(old(self)@, plan@, outcome(copied)),
    {
        match plan {
            ExistingPlan::Known(item) => Ok(item),
            ExistingPlan::Refer(item) => {
                self.push_front(item.copy());
                match saved {
                    Ok(_) => Ok(item),
                    Err(message) => Err(message),
                }
            },
            ExistingPlan::Copy(item) => match copied {
                Err(message) => Err(message),
                Ok(_) => {
                    if self.find_id(item.id.as_str()).is_some() {
                        return Ok(item);
                    }
                    self.push_front(item.copy());
                    match saved {
                        Ok(_) => Ok(item),
                        Err(message) => Err(message),
                    }
                },
            },
        }
    }
}

} // verus!
