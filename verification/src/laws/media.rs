//! Laws of the media library: which files are taken, what becomes of them, and
//! how folders are gone through.
use vstd::prelude::*;

use crate::address::UrlV;
use crate::digest::sha256_of;
use crate::media::{
    adopted, adoption, after_probe, any_with_digest, attempt_of, bytes_at, catalog_items, checked,
    choice, chosen_extension, copy_check, cursor_of, dimensions_check, display_name,
    download_ingest, drawn, existing_plan, first_choice, first_where, folder_advanced, folder_file,
    folder_plan, folder_record, folder_taken, fresh_files, header_matches, host_or_unknown,
    image_dimensions, imported, index_of_id, ingest_plan, is_unsafe_char, item_with_digest,
    item_with_id, lemma_first_where, library_of, listed_anew, managed_media, masked, media_type_of,
    probe_verdict, recorded, refresh_plan, refreshed_by, removal, removal_file, removed,
    rescan_result, rescanned, scan_verdict, scanned, size_check, taken_in, CatalogRead, DownloadV,
    EntryKind, ExistingV, FileMeta, ImportFileV, LibraryV, ListingV, OptionsV, PathV, PlanV,
    RefreshV, ResolvedV, RootV, ScanV, SourceV, VerdictV,
};
use crate::models::{ItemV, MediaKind, MediaOrigin, SlideshowOrder};
use crate::paths::{extension_in, extension_of, file_name_of, is_plain_name};
use crate::text::{decimal, lower, trimmed};

verus! {

// ---------------------------------------------------------------------------
// Finding items
// ---------------------------------------------------------------------------

/// An item has this identifier.
pub open spec fn names_item(items: Seq<ItemV>, id: Seq<char>) -> bool {
    exists|k: int| 0 <= k < items.len() && (#[trigger] items[k]).id == id
}

/// An item is found by its identifier, the first where several have it, and
/// nothing is found where none has.
pub proof fn first_with_id_is_found(items: Seq<ItemV>, id: Seq<char>)
    ensures
        item_with_id(items, id) is Some <==> names_item(items, id),
        index_of_id(items, id) is Some <==> names_item(items, id),
        item_with_id(items, id) matches Some(item) ==> item.id == id && exists|k: int|
            0 <= k < items.len() && #[trigger] items[k] == item && forall|j: int|
                0 <= j < k ==> (#[trigger] items[j]).id != id,
{
    let p = |item: ItemV| item.id == id;
    lemma_first_where(items, p);
    if names_item(items, id) {
        let k = choose|k: int| 0 <= k < items.len() && (#[trigger] items[k]).id == id;
        assert(p(items[k]));
    }
    if let Some(i) = first_where(items, p) {
        assert(p(items[i]));
        assert(items[i].id == id);
        assert forall|j: int| 0 <= j < i implies (#[trigger] items[j]).id != id by {
            assert(!p(items[j]));
        }
    }
}

/// The first item with a digest is found, and nothing where none has it.
pub proof fn first_with_digest_is_found(items: Seq<ItemV>, digest: Seq<char>)
    ensures
        any_with_digest(items, digest) is Some <==> exists|k: int|
            0 <= k < items.len() && (#[trigger] items[k]).sha256 == digest,
        any_with_digest(items, digest) matches Some(item) ==> item.sha256 == digest
            && items.contains(item),
        item_with_digest(items, digest) is Some <==> exists|k: int|
            0 <= k < items.len() && (#[trigger] items[k]).sha256 == digest && items[k].origin
                != MediaOrigin::Folder,
        item_with_digest(items, digest) matches Some(item) ==> item.sha256 == digest && item.origin
            != MediaOrigin::Folder && items.contains(item),
{
    let p = |item: ItemV| item.sha256 == digest;
    let q = |item: ItemV| item.origin != MediaOrigin::Folder && item.sha256 == digest;
    lemma_first_where(items, p);
    lemma_first_where(items, q);
    assert forall|k: int| 0 <= k < items.len() implies (p(#[trigger] items[k]) <==> items[k].sha256
        == digest) && (q(items[k]) <==> items[k].sha256 == digest && items[k].origin
        != MediaOrigin::Folder) by {}
    if let Some(i) = first_where(items, p) {
        assert(p(items[i]));
    }
    if let Some(i) = first_where(items, q) {
        assert(q(items[i]));
    }
}

// ---------------------------------------------------------------------------
// Which files are taken
// ---------------------------------------------------------------------------

/// An image is within the limits exactly where it is from 1 to 16384 pixels wide
/// and high and has no more than 50000000 of them; one whose dimensions cannot be
/// read is not.
pub proof fn dimensions_within_limits(dimensions: Option<(u64, u64)>)
    ensures
        dimensions_check(dimensions) is Ok <==> (dimensions matches Some((w, h)) && 1 <= w <= 16384
            && 1 <= h <= 16384 && w * h <= 50000000),
{
}

proof fn lemma_extensions_differ()
    ensures
        ".png"@.len() == 4 && ".png"@[1] == 'p',
        ".jpg"@.len() == 4 && ".jpg"@[1] == 'j',
        ".jpeg"@.len() == 5 && ".jpeg"@[1] == 'j',
        ".webp"@.len() == 5 && ".webp"@[1] == 'w' && ".webp"@[4] == 'p',
        ".gif"@.len() == 4 && ".gif"@[1] == 'g',
        ".avif"@.len() == 5 && ".avif"@[1] == 'a',
        ".mp4"@.len() == 4 && ".mp4"@[1] == 'm' && ".mp4"@[2] == 'p',
        ".webm"@.len() == 5 && ".webm"@[1] == 'w' && ".webm"@[4] == 'm',
        ".ogv"@.len() == 4 && ".ogv"@[1] == 'o',
        ".mov"@.len() == 4 && ".mov"@[1] == 'm' && ".mov"@[2] == 'o',
{
    reveal_strlit(".png");
    reveal_strlit(".jpg");
    reveal_strlit(".jpeg");
    reveal_strlit(".webp");
    reveal_strlit(".gif");
    reveal_strlit(".avif");
    reveal_strlit(".mp4");
    reveal_strlit(".webm");
    reveal_strlit(".ogv");
    reveal_strlit(".mov");
}

/// The extension is one of an image.
pub open spec fn is_image_extension(extension: Seq<char>) -> bool {
    extension == ".png"@ || extension == ".jpg"@ || extension == ".jpeg"@ || extension == ".webp"@
        || extension == ".gif"@ || extension == ".avif"@
}

/// The extension is one of a video.
pub open spec fn is_video_extension(extension: Seq<char>) -> bool {
    extension == ".mp4"@ || extension == ".webm"@ || extension == ".ogv"@ || extension == ".mov"@
}

/// Six extensions are those of images, of up to 52428800 bytes, and four those of
/// videos, of up to 1073741824 bytes; each has its type, and no other is taken.
pub proof fn extension_tells_the_type(extension: Seq<char>)
    ensures
        media_type_of(extension) is Some <==> is_image_extension(extension) || is_video_extension(
            extension,
        ),
        media_type_of(extension) matches Some((kind, mime_type, maximum)) ==> {
            &&& kind == MediaKind::Image <==> is_image_extension(extension)
            &&& kind == MediaKind::Video <==> is_video_extension(extension)
            &&& is_image_extension(extension) ==> maximum == 50 * 1024 * 1024
            &&& is_video_extension(extension) ==> maximum == 1024 * 1024 * 1024
            &&& extension == ".png"@ ==> mime_type == "image/png"@
            &&& extension == ".jpg"@ || extension == ".jpeg"@ ==> mime_type == "image/jpeg"@
            &&& extension == ".webp"@ ==> mime_type == "image/webp"@
            &&& extension == ".gif"@ ==> mime_type == "image/gif"@
            &&& extension == ".avif"@ ==> mime_type == "image/avif"@
            &&& extension == ".mp4"@ ==> mime_type == "video/mp4"@
            &&& extension == ".webm"@ ==> mime_type == "video/webm"@
            &&& extension == ".ogv"@ ==> mime_type == "video/ogg"@
            &&& extension == ".mov"@ ==> mime_type == "video/quicktime"@
        },
{
    lemma_extensions_differ();
}

/// A file is of a size that can be taken exactly where it is a file, is not empty,
/// and has no more bytes than allowed.
pub proof fn size_within_limits(meta: FileMeta, maximum: u64)
    ensures
        size_check(meta, maximum) is Ok <==> meta.is_file && 1 <= meta.byte_size <= maximum,
{
}

proof fn lemma_bytes_at(data: Seq<u8>, at: int, magic: Seq<u8>)
    ensures
        bytes_at(data, at, magic) <==> {
            &&& 0 <= at
            &&& at + magic.len() <= data.len()
            &&& forall|i: int| 0 <= i < magic.len() ==> data[at + i] == #[trigger] magic[i]
        },
{
    if 0 <= at && at + magic.len() <= data.len() {
        let part = data.subrange(at, at + magic.len());
        if forall|i: int| 0 <= i < magic.len() ==> data[at + i] == #[trigger] magic[i] {
            assert forall|i: int| 0 <= i < magic.len() implies part[i] == magic[i] by {
                assert(data[at + i] == magic[i]);
            }
            assert(part =~= magic);
        }
        if part == magic {
            assert forall|i: int| 0 <= i < magic.len() implies data[at + i]
                == #[trigger] magic[i] by {
                assert(part[i] == data[at + i]);
            }
        }
    }
}

/// The content of a PNG, JPEG, WebP or GIF image begins with the bytes of its
/// format.
pub proof fn image_headers(h: Seq<u8>)
    ensures
        header_matches(".png"@, h) <==> h.len() >= 8 && h[0] == 0x89 && h[1] == 0x50 && h[2] == 0x4e
            && h[3] == 0x47 && h[4] == 0x0d && h[5] == 0x0a && h[6] == 0x1a && h[7] == 0x0a,
        header_matches(".jpg"@, h) <==> h.len() >= 3 && h[0] == 0xff && h[1] == 0xd8 && h[2] == 0xff,
        header_matches(".jpeg"@, h) <==> h.len() >= 3 && h[0] == 0xff && h[1] == 0xd8 && h[2]
            == 0xff,
        header_matches(".webp"@, h) <==> h.len() >= 12 && h[0] == 0x52 && h[1] == 0x49 && h[2]
            == 0x46 && h[3] == 0x46 && h[8] == 0x57 && h[9] == 0x45 && h[10] == 0x42 && h[11]
            == 0x50,
        header_matches(".gif"@, h) <==> h.len() >= 6 && h[0] == 0x47 && h[1] == 0x49 && h[2] == 0x46
            && h[3] == 0x38 && (h[4] == 0x37 || h[4] == 0x39) && h[5] == 0x61,
{
    lemma_extensions_differ();
    let png = seq![0x89u8, 0x50u8, 0x4eu8, 0x47u8, 0x0du8, 0x0au8, 0x1au8, 0x0au8];
    let jpg = seq![0xffu8, 0xd8u8, 0xffu8];
    let riff = seq![0x52u8, 0x49u8, 0x46u8, 0x46u8];
    let webp = seq![0x57u8, 0x45u8, 0x42u8, 0x50u8];
    let gif7 = seq![0x47u8, 0x49u8, 0x46u8, 0x38u8, 0x37u8, 0x61u8];
    let gif9 = seq![0x47u8, 0x49u8, 0x46u8, 0x38u8, 0x39u8, 0x61u8];
    lemma_bytes_at(h, 0, png);
    lemma_bytes_at(h, 0, jpg);
    lemma_bytes_at(h, 0, riff);
    lemma_bytes_at(h, 8, webp);
    lemma_bytes_at(h, 0, gif7);
    lemma_bytes_at(h, 0, gif9);
    assert(forall|i: int| 0 <= i < 8 && h[0 + i] == png[i] ==> h[i] == png[i]);
    assert(png[0] == 0x89 && png[1] == 0x50 && png[2] == 0x4e && png[3] == 0x47 && png[4] == 0x0d
        && png[5] == 0x0a && png[6] == 0x1a && png[7] == 0x0a);
    assert(jpg[0] == 0xff && jpg[1] == 0xd8 && jpg[2] == 0xff);
    assert(riff[0] == 0x52 && riff[1] == 0x49 && riff[2] == 0x46 && riff[3] == 0x46);
    assert(webp[0] == 0x57 && webp[1] == 0x45 && webp[2] == 0x42 && webp[3] == 0x50);
    assert(gif7[0] == 0x47 && gif7[1] == 0x49 && gif7[2] == 0x46 && gif7[3] == 0x38 && gif7[4]
        == 0x37 && gif7[5] == 0x61);
    assert(gif9[0] == 0x47 && gif9[1] == 0x49 && gif9[2] == 0x46 && gif9[3] == 0x38 && gif9[4]
        == 0x39 && gif9[5] == 0x61);
}

/// The content of a video begins with the bytes of its format; an MP4 or MOV file
/// has `ftyp` behind its first four bytes.
pub proof fn video_headers(h: Seq<u8>)
    ensures
        header_matches(".webm"@, h) <==> h.len() >= 4 && h[0] == 0x1a && h[1] == 0x45 && h[2]
            == 0xdf && h[3] == 0xa3,
        header_matches(".ogv"@, h) <==> h.len() >= 4 && h[0] == 0x4f && h[1] == 0x67 && h[2] == 0x67
            && h[3] == 0x53,
        header_matches(".mp4"@, h) <==> h.len() >= 12 && h[4] == 0x66 && h[5] == 0x74 && h[6]
            == 0x79 && h[7] == 0x70,
        header_matches(".mov"@, h) <==> h.len() >= 12 && h[4] == 0x66 && h[5] == 0x74 && h[6]
            == 0x79 && h[7] == 0x70,
{
    lemma_extensions_differ();
    let webm = seq![0x1au8, 0x45u8, 0xdfu8, 0xa3u8];
    let ogv = seq![0x4fu8, 0x67u8, 0x67u8, 0x53u8];
    let ftyp = seq![0x66u8, 0x74u8, 0x79u8, 0x70u8];
    lemma_bytes_at(h, 0, webm);
    lemma_bytes_at(h, 0, ogv);
    lemma_bytes_at(h, 4, ftyp);
    assert(webm[0] == 0x1a && webm[1] == 0x45 && webm[2] == 0xdf && webm[3] == 0xa3);
    assert(ogv[0] == 0x4f && ogv[1] == 0x67 && ogv[2] == 0x67 && ogv[3] == 0x53);
    assert(ftyp[0] == 0x66 && ftyp[1] == 0x74 && ftyp[2] == 0x79 && ftyp[3] == 0x70);
}

/// The content of an AVIF image has `ftyp` behind its first four bytes and, from
/// the ninth byte on, the brand `avif` or `avis`.
pub proof fn avif_header(h: Seq<u8>, at: int)
    ensures
        header_matches(".avif"@, h) ==> h.len() >= 12 && h[4] == 0x66 && h[5] == 0x74 && h[6]
            == 0x79 && h[7] == 0x70 && exists|k: int|
            8 <= k && k + 4 <= h.len() && #[trigger] is_avif_brand(h[k], h[k + 1], h[k + 2], h[k
                + 3]),
        h.len() >= 12 && h[4] == 0x66 && h[5] == 0x74 && h[6] == 0x79 && h[7] == 0x70 && 8 <= at
            && at + 4 <= h.len() && is_avif_brand(h[at], h[at + 1], h[at + 2], h[at + 3])
            ==> header_matches(".avif"@, h),
{
    lemma_extensions_differ();
    let ftyp = seq![0x66u8, 0x74u8, 0x79u8, 0x70u8];
    let avif = seq![0x61u8, 0x76u8, 0x69u8, 0x66u8];
    let avis = seq![0x61u8, 0x76u8, 0x69u8, 0x73u8];
    lemma_bytes_at(h, 4, ftyp);
    assert(ftyp[0] == 0x66 && ftyp[1] == 0x74 && ftyp[2] == 0x79 && ftyp[3] == 0x70);
    assert(avif[0] == 0x61 && avif[1] == 0x76 && avif[2] == 0x69 && avif[3] == 0x66);
    assert(avis[0] == 0x61 && avis[1] == 0x76 && avis[2] == 0x69 && avis[3] == 0x73);
    if header_matches(".avif"@, h) {
        let k = choose|k: int| 8 <= k && #[trigger] crate::media::avif_brand_at(h, k);
        lemma_bytes_at(h, k, avif);
        lemma_bytes_at(h, k, avis);
        assert(h[k + 0] == h[k]);
        assert(is_avif_brand(h[k], h[k + 1], h[k + 2], h[k + 3]));
    }
    lemma_bytes_at(h, at, avif);
    lemma_bytes_at(h, at, avis);
    if 8 <= at && at + 4 <= h.len() && is_avif_brand(h[at], h[at + 1], h[at + 2], h[at + 3]) {
        assert(h[at + 0] == h[at]);
        assert(crate::media::avif_brand_at(h, at));
    }
}

/// The four bytes are `avif` or `avis`.
pub open spec fn is_avif_brand(a: u8, b: u8, c: u8, d: u8) -> bool {
    a == 0x61 && b == 0x76 && c == 0x69 && (d == 0x66 || d == 0x73)
}

/// The file is one that the library takes: of a known extension, of a size within
/// the limit, with the bytes of its format in front, and, for an image, of up to
/// 16384 pixels a side and 50000000 in all.
pub open spec fn is_sound(extension: Seq<char>, source: SourceV) -> bool {
    &&& source.metadata matches Ok(meta) && meta.is_file && 1 <= meta.byte_size <= (
    if is_image_extension(extension) {
        52428800int
    } else {
        1073741824int
    })
    &&& source.content matches Ok(content) && {
        &&& header_matches(
            extension,
            if content.len() <= 64 {
                content
            } else {
                content.take(64)
            },
        )
        &&& is_image_extension(extension) ==> (image_dimensions(content) matches Some((w, h)) && 1
            <= w <= 16384 && 1 <= h <= 16384 && w * h <= 50000000)
    }
}

/// A file passes exactly where it is sound, and what is noted of it is its kind,
/// its size and the digest of its content.
pub proof fn sound_files_pass(extension: Seq<char>, source: SourceV)
    ensures
        checked(extension, source) is Ok <==> (is_image_extension(extension) || is_video_extension(
            extension,
        )) && is_sound(extension, source),
        checked(extension, source) matches Ok(file) ==> {
            &&& file.kind == MediaKind::Image <==> is_image_extension(extension)
            &&& file.kind == MediaKind::Video <==> is_video_extension(extension)
            &&& Some((file.kind, file.mime_type)) == (match media_type_of(extension) {
                Some((kind, mime_type, _)) => Some((kind, mime_type)),
                None => None,
            })
            &&& file.byte_size == source.metadata->Ok_0.byte_size
            &&& file.sha256 == sha256_of(source.content->Ok_0)
        },
{
    lemma_extensions_differ();
    extension_tells_the_type(extension);
}

// ---------------------------------------------------------------------------
// Names
// ---------------------------------------------------------------------------

/// A name that needs no change keeps it, and none is longer than 180 characters or
/// empty.
pub proof fn display_name_is_short(name: Seq<char>)
    ensures
        1 <= display_name(name).len() <= 180,
        name.len() > 0 && name.len() <= 180 && trimmed(name) == name && (forall|i: int|
            0 <= i < name.len() ==> !is_unsafe_char(#[trigger] name[i])) ==> display_name(name)
            == name,
{
    reveal_strlit("未命名媒体");
    if forall|i: int| 0 <= i < name.len() ==> !is_unsafe_char(#[trigger] name[i]) {
        assert(masked(name) =~= name);
    }
}

/// The characters that a file name may not have are put out of a name: each is
/// replaced, and the others stay where they are.
pub proof fn unsafe_characters_are_masked(name: Seq<char>)
    ensures
        masked(name).len() == name.len(),
        forall|i: int|
            0 <= i < name.len() ==> {
                let c = #[trigger] name[i];
                masked(name)[i] == (if c == '<' || c == '>' || c == ':' || c == '"' || c == '/' || c
                    == '\\' || c == '|' || c == '?' || c == '*' || (c as u32) < 32 || 127 <= (
                c as u32) <= 159 {
                    '_'
                } else {
                    c
                })
            },
{
}

// ---------------------------------------------------------------------------
// Imports
// ---------------------------------------------------------------------------

/// A sound file that the library does not have yet is stored under its new
/// identifier with the extension of its format, and is noted with its kind, type,
/// size and digest and the origin that was named.
pub proof fn new_file_is_stored(
    items: Seq<ItemV>,
    source: SourceV,
    options: OptionsV,
    id: Seq<char>,
    created_at: Seq<char>,
)
    requires
        ({
            let extension = chosen_extension(options, source);
            (is_image_extension(extension) || is_video_extension(extension)) && is_sound(
                extension,
                source,
            )
        }),
        options.allow_duplicate || forall|k: int|
            0 <= k < items.len() ==> (#[trigger] items[k]).sha256 != sha256_of(
                source.content->Ok_0,
            ),
    ensures
        ingest_plan(items, source, options, id, created_at) matches Ok(PlanV::Store(item)) && {
            let extension = chosen_extension(options, source);
            &&& item.id == id
            &&& item.file_name == id + extension
            &&& item.kind == MediaKind::Video <==> is_video_extension(extension)
            &&& item.byte_size == source.metadata->Ok_0.byte_size
            &&& item.sha256 == sha256_of(source.content->Ok_0)
            &&& item.origin == options.origin
            &&& item.source_url == options.source_url
            &&& item.created_at == created_at
            &&& item.file_count is None
            &&& item.preview_url is None
            &&& media_type_of(extension) matches Some((_, mime_type, _)) && item.mime_type
                == mime_type
            &&& options.name matches Some(name) ==> item.name == display_name(name)
            &&& options.name is None ==> (source.file_name matches Some(name) ==> item.name
                == display_name(name))
        },
{
    let extension = chosen_extension(options, source);
    sound_files_pass(extension, source);
    extension_tells_the_type(extension);
    first_with_digest_is_found(items, sha256_of(source.content->Ok_0));
}

/// A file that is not sound is not stored, and one that the library has already is
/// named as such unless a second one is wanted.
pub proof fn other_files_are_not_stored(
    items: Seq<ItemV>,
    source: SourceV,
    options: OptionsV,
    id: Seq<char>,
    created_at: Seq<char>,
)
    ensures
        ({
            let extension = chosen_extension(options, source);
            !((is_image_extension(extension) || is_video_extension(extension)) && is_sound(
                extension,
                source,
            ))
        }) ==> ingest_plan(items, source, options, id, created_at) is Err,
        ingest_plan(items, source, options, id, created_at) matches Ok(PlanV::Duplicate(item))
            ==> !options.allow_duplicate && items.contains(item) && item.sha256 == sha256_of(
            source.content->Ok_0,
        ),
{
    sound_files_pass(chosen_extension(options, source), source);
    if source.content is Ok {
        first_with_digest_is_found(items, sha256_of(source.content->Ok_0));
    }
}

/// The extension of a file is the one that is given, or that of the name that is
/// given, or that of the file itself, in small letters.
pub proof fn extension_is_taken_in_order(options: OptionsV, source: SourceV)
    ensures
        options.extension matches Some(extension) ==> chosen_extension(options, source) == lower(
            extension,
        ),
        options.extension is None ==> (options.name matches Some(name) ==> chosen_extension(
            options,
            source,
        ) == lower(extension_of(name))),
        options.extension is None && options.name is None ==> chosen_extension(options, source)
            == lower(extension_in(source.file_name)),
{
}

/// What was stored comes first in the library, and the others keep their order;
/// what could not be stored or was there already changes nothing.
pub proof fn stored_item_comes_first(
    library: LibraryV,
    item: ItemV,
    known: ItemV,
    message: Seq<char>,
)
    ensures
        ({
            let after = taken_in(library, Ok(PlanV::Store(item)), Ok(()));
            &&& after.items.len() == library.items.len() + 1
            &&& after.items[0] == item
            &&& after.items.skip(1) == library.items
            &&& after.cursors == library.cursors
            &&& after.selections == library.selections
            &&& after.listings == library.listings
        }),
        taken_in(library, Ok(PlanV::Duplicate(known)), Ok(())) == library,
        taken_in(library, Err(message), Ok(())) == library,
        !names_item(library.items, item.id) ==> taken_in(
            library,
            Ok(PlanV::Store(item)),
            Err(message),
        ) == library,
        attempt_of(Ok(PlanV::Store(item)), Ok(())) == Ok::<(ItemV, bool), Seq<char>>((item, false)),
        attempt_of(Ok(PlanV::Duplicate(known)), Ok(())) == Ok::<(ItemV, bool), Seq<char>>(
            (known, true),
        ),
        attempt_of(Ok(PlanV::Store(item)), Err(message)) == Err::<(ItemV, bool), Seq<char>>(message),
        attempt_of(Err(message), Ok(())) == Err::<(ItemV, bool), Seq<char>>(message),
{
    assert(taken_in(library, Ok(PlanV::Store(item)), Ok(())).items.skip(1) =~= library.items);
    first_with_id_is_found(library.items, item.id);
    if !names_item(library.items, item.id) {
        crate::media::lemma_without_absent(library.items, item.id);
    }
}

/// A copy is sound exactly where it has as many bytes as the item.
pub proof fn whole_copy_is_sound(item: ItemV, copied: Result<u64, Seq<char>>)
    ensures
        copy_check(item, copied) is Ok <==> copied == Ok::<u64, Seq<char>>(item.byte_size),
{
}

/// Each file of an import is either added or skipped.
pub proof fn import_accounts_for_each_file(
    library: LibraryV,
    files: Seq<ImportFileV>,
    options: OptionsV,
    stamps: Seq<(Seq<char>, Seq<char>)>,
)
    ensures
        ({
            let (after, (added, skipped)) = imported(library, files, options, stamps);
            &&& added.len() + skipped.len() == files.len()
            &&& after.items.len() == library.items.len() + added.len()
            &&& after.items.skip(added.len() as int) == library.items
            &&& forall|i: int|
                0 <= i < added.len() ==> #[trigger] added[i] == after.items[added.len() - 1 - i]
        }),
    decreases files.len(),
{
    if files.len() > 0 {
        import_accounts_for_each_file(library, files.drop_last(), options, stamps);
        let (before, (first, passed)) = imported(library, files.drop_last(), options, stamps);
        let (after, (added, skipped)) = imported(library, files, options, stamps);
        let stamp = stamps[files.len() - 1];
        let plan = ingest_plan(before.items, files.last().source, options, stamp.0, stamp.1);
        if let Ok(PlanV::Store(item)) = plan {
            assert(after.items =~= seq![item] + before.items);
            assert(after.items.skip(added.len() as int) =~= before.items.skip(first.len() as int));
            assert forall|i: int| 0 <= i < added.len() implies #[trigger] added[i]
                == after.items[added.len() - 1 - i] by {
                if i < first.len() {
                    assert(first[i] == before.items[first.len() - 1 - i]);
                }
            }
        }
    } else {
        assert(library.items.skip(0) =~= library.items);
    }
}

/// What is skipped is named with the reason, and what is added is named itself.
pub proof fn import_is_recorded(
    result: (Seq<ItemV>, Seq<(Seq<char>, Seq<char>)>),
    path: Seq<char>,
    item: ItemV,
    message: Seq<char>,
)
    ensures
        recorded(result, path, Ok((item, false))) == (result.0.push(item), result.1),
        recorded(result, path, Ok((item, true))) == (
            result.0,
            result.1.push((path, "媒体已存在"@)),
        ),
        recorded(result, path, Err(message)) == (result.0, result.1.push((path, message))),
{
}

/// A download from an interface that gives another picture each time is kept under
/// the address that was asked, and may be there twice; any other is kept under the
/// address that it came from, with its own name, and only once.
pub proof fn download_keeps_its_address(
    input_url: Seq<char>,
    download: DownloadV,
    host: Seq<char>,
)
    ensures
        ({
            let options = download_ingest(input_url, true, download, host);
            &&& options.origin == MediaOrigin::Api
            &&& options.source_url == Some(input_url)
            &&& options.allow_duplicate
            &&& options.name == Some("随机 API · "@ + host)
            &&& options.extension == Some(extension_of(download.original_name))
            &&& options.remove_source
        }),
        ({
            let options = download_ingest(input_url, false, download, host);
            &&& options.origin == MediaOrigin::Remote
            &&& options.source_url == Some(download.source_url)
            &&& !options.allow_duplicate
            &&& options.name == Some(download.original_name)
            &&& options.extension == Some(extension_of(download.original_name))
            &&& options.remove_source
        }),
{
}

// ---------------------------------------------------------------------------
// Refreshing and removing
// ---------------------------------------------------------------------------

/// Only an item of an interface that gives another picture each time is
/// downloaded again, and only content of its format replaces what it was; the
/// item keeps its identifier, name, origin and address, and has the kind, type and
/// size of the download and the digest of the new content.
pub proof fn refreshed_item_has_the_new_content(
    items: Seq<ItemV>,
    id: Seq<char>,
    download: DownloadV,
    source: SourceV,
)
    ensures
        refresh_plan(items, id, download, source) matches Ok(RefreshV::Replace {
            updated,
            previous,
        }) ==> {
            let extension = extension_of(download.original_name);
            let content = source.content->Ok_0;
            &&& source.content is Ok
            &&& item_with_id(items, id) matches Some(item) && {
                &&& item.origin == MediaOrigin::Api
                &&& item.source_url is Some
                &&& updated.id == item.id
                &&& updated.name == item.name
                &&& updated.origin == item.origin
                &&& updated.source_url == item.source_url
                &&& updated.created_at == item.created_at
                &&& previous == item.file_name
                &&& item.sha256 != sha256_of(content)
            }
            &&& updated.kind == download.kind
            &&& updated.mime_type == download.mime_type
            &&& updated.byte_size == download.byte_size
            &&& updated.sha256 == sha256_of(content)
            &&& updated.file_name == updated.id + "-"@ + sha256_of(content).take(12) + extension
            &&& is_image_extension(extension) || is_video_extension(extension)
            &&& is_image_extension(extension) ==> (image_dimensions(content) matches Some((w, h))
                && 1 <= w <= 16384 && 1 <= h <= 16384 && w * h <= 50000000)
        },
        refresh_plan(items, id, download, source) matches Ok(RefreshV::Unchanged(item))
            ==> item_with_id(items, id) == Some(item) && source.content is Ok && item.sha256
            == sha256_of(source.content->Ok_0),
        item_with_id(items, id) matches Some(item) && item.origin != MediaOrigin::Api
            ==> refresh_plan(items, id, download, source) is Err,
        item_with_id(items, id) is None ==> refresh_plan(items, id, download, source) is Err,
{
    lemma_extensions_differ();
    extension_tells_the_type(extension_of(download.original_name));
    first_with_id_is_found(items, id);
}

/// Sound new content of an item that can be refreshed replaces the old.
pub proof fn sound_content_is_taken(
    items: Seq<ItemV>,
    id: Seq<char>,
    download: DownloadV,
    source: SourceV,
)
    requires
        item_with_id(items, id) matches Some(item) && item.origin == MediaOrigin::Api
            && item.source_url is Some && is_plain_name(item.file_name),
        source.content is Ok,
        ({
            let extension = extension_of(download.original_name);
            let content = source.content->Ok_0;
            &&& is_image_extension(extension) || is_video_extension(extension)
            &&& header_matches(
                extension,
                if content.len() <= 64 {
                    content
                } else {
                    content.take(64)
                },
            )
            &&& is_image_extension(extension) ==> (image_dimensions(content) matches Some((w, h))
                && 1 <= w <= 16384 && 1 <= h <= 16384 && w * h <= 50000000)
        }),
    ensures
        refresh_plan(items, id, download, source) is Ok,
        refresh_plan(items, id, download, source) is Ok && refresh_plan(
            items,
            id,
            download,
            source,
        )->Ok_0 is Unchanged <==> item_with_id(items, id)->0.sha256 == sha256_of(
            source.content->Ok_0,
        ),
{
    lemma_extensions_differ();
    extension_tells_the_type(extension_of(download.original_name));
}

/// A removed item is gone with all that was noted of it, the others stay in their
/// order, and an identifier that is not there removes nothing.
pub proof fn removal_takes_one_item(library: LibraryV, id: Seq<char>, i: int)
    requires
        0 <= i < library.items.len(),
        library.items[i].id == id,
        forall|j: int| 0 <= j < library.items.len() && j != i ==> (#[trigger] library.items[j]).id
            != id,
    ensures
        ({
            let after = removed(library, id);
            &&& after.items == library.items.take(i) + library.items.skip(i + 1)
            &&& !names_item(after.items, id)
            &&& !after.cursors.contains_key(id)
            &&& !after.selections.contains_key(id)
            &&& !after.listings.contains_key(id)
            &&& forall|other: Seq<char>| #![auto]
                other != id && library.cursors.contains_key(other) ==> after.cursors.contains_key(
                    other,
                ) && after.cursors[other] == library.cursors[other]
        }),
{
    first_with_id_is_found(library.items, id);
    let p = |item: ItemV| item.id == id;
    lemma_first_where(library.items, p);
    assert(p(library.items[i]));
    let k = first_where(library.items, p)->0;
    assert(p(library.items[k]));
    assert(k == i);
    let after = removed(library, id);
    assert(after.items =~= library.items.take(i) + library.items.skip(i + 1));
    if names_item(after.items, id) {
        let n = choose|n: int| 0 <= n < after.items.len() && (#[trigger] after.items[n]).id == id;
        if n < i {
            assert(after.items[n] == library.items[n]);
        } else {
            assert(after.items[n] == library.items[n + 1]);
        }
    }
}

/// A removal deletes the file of a managed item and no file of a folder; an
/// identifier that is not there deletes nothing.
pub proof fn removal_deletes_the_managed_file(items: Seq<ItemV>, id: Seq<char>)
    ensures
        !names_item(items, id) ==> removal_file(items, id) == Ok::<
            Option<Option<Seq<char>>>,
            Seq<char>,
        >(None),
        item_with_id(items, id) matches Some(item) && item.origin == MediaOrigin::Folder
            ==> removal_file(items, id) == Ok::<Option<Option<Seq<char>>>, Seq<char>>(Some(None)),
        item_with_id(items, id) matches Some(item) && item.origin != MediaOrigin::Folder
            && is_plain_name(item.file_name) ==> removal_file(items, id) == Ok::<
            Option<Option<Seq<char>>>,
            Seq<char>,
        >(Some(Some(item_with_id(items, id)->0.file_name))),
        item_with_id(items, id) matches Some(item) && item.origin != MediaOrigin::Folder
            && !is_plain_name(item.file_name) ==> removal_file(items, id) is Err,
{
    first_with_id_is_found(items, id);
}

/// A managed item is shown from its own file, with what is noted of it; a folder
/// is not, nor is an item whose file lies elsewhere.
pub proof fn managed_item_is_shown_from_its_file(item: ItemV)
    ensures
        managed_media(item) is Ok <==> item.origin != MediaOrigin::Folder && is_plain_name(
            item.file_name,
        ),
        managed_media(item) matches Ok(media) ==> {
            &&& media.path == PathV::Managed(item.file_name)
            &&& media.mime_type == item.mime_type
            &&& media.byte_size == item.byte_size
            &&& media.kind == item.kind
            &&& media.sha256 == item.sha256
        },
{
}

// ---------------------------------------------------------------------------
// Folders
// ---------------------------------------------------------------------------

/// A folder is taken exactly where it is one, is not in the library yet, and
/// holds media; its item refers to it and counts its files.
pub proof fn folder_with_media_is_taken(
    items: Seq<ItemV>,
    folder: Seq<char>,
    root: RootV,
    files: Seq<Seq<char>>,
    id: Seq<char>,
    created_at: Seq<char>,
)
    requires
        files.len() <= u64::MAX,
    ensures
        folder_plan(items, folder, Ok(root), Ok(files), id, created_at) is Ok <==> {
            &&& root.is_dir
            &&& files.len() > 0
            &&& forall|k: int|
                0 <= k < items.len() ==> !((#[trigger] items[k]).origin == MediaOrigin::Folder
                    && items[k].source_url == Some(root.path))
        },
        folder_plan(items, folder, Ok(root), Ok(files), id, created_at) matches Ok(item) ==> {
            &&& item.id == id
            &&& item.origin == MediaOrigin::Folder
            &&& item.source_url == Some(root.path)
            &&& item.file_count == Some(files.len() as u64)
            &&& item.created_at == created_at
            &&& item.byte_size == 0
            &&& item.sha256 == sha256_of(vstd::utf8::encode_utf8(root.path))
            &&& root.name matches Some(name) ==> item.name == display_name(
                name + "（"@ + decimal(files.len()) + "）"@,
            )
        },
{
    let p = |item: ItemV|
        item.origin == MediaOrigin::Folder && item.source_url == Some(root.path);
    lemma_first_where(items, p);
    assert forall|k: int| 0 <= k < items.len() implies (p(#[trigger] items[k]) <==> items[k].origin
        == MediaOrigin::Folder && items[k].source_url == Some(root.path)) by {}
    if let Some(i) = first_where(items, p) {
        assert(p(items[i]));
    }
}

/// The walk through a folder goes down into directories, notes files whose
/// extension is one of media, and passes over links and the rest.
pub proof fn walk_notes_media(scan: ScanV, path: Seq<char>)
    ensures
        scanned(scan, path, EntryKind::Directory) == (ScanV {
            pending: scan.pending.push(path),
            files: scan.files,
        }),
        is_image_extension(extension_of(path)) || is_video_extension(extension_of(path)) ==> scanned(
            scan,
            path,
            EntryKind::File,
        ) == (ScanV { pending: scan.pending, files: scan.files.push(path) }),
        !is_image_extension(extension_of(path)) && !is_video_extension(extension_of(path))
            ==> scanned(scan, path, EntryKind::File) == scan,
        scanned(scan, path, EntryKind::Link) == scan,
        scanned(scan, path, EntryKind::Other) == scan,
{
    extension_tells_the_type(extension_of(path));
}

/// What was listed of a folder less than 2000 milliseconds ago is used again, and
/// nothing else.
pub proof fn listing_lasts_two_seconds(library: LibraryV, id: Seq<char>, now: u64)
    ensures
        fresh_files(library, id, now) is Some <==> library.listings.contains_key(id) && now
            - library.listings[id].scanned_at < 2000,
        fresh_files(library, id, now) matches Some(files) ==> files == library.listings[id].files,
{
}

/// A folder that was listed again has its files noted, and its count where that
/// has changed; the other items stay.
pub proof fn rescan_updates_the_count(
    library: LibraryV,
    id: Seq<char>,
    name: Option<Seq<char>>,
    files: Seq<Seq<char>>,
    now: u64,
)
    requires
        files.len() <= u64::MAX,
    ensures
        ({
            let after = rescanned(library, id, name, files, now);
            &&& after.listings.contains_key(id)
            &&& after.listings[id] == (ListingV { files, scanned_at: now })
            &&& after.cursors == library.cursors
            &&& after.selections == library.selections
            &&& after.items.len() == library.items.len()
            &&& item_with_id(library.items, id) matches Some(item) ==> exists|k: int|
                0 <= k < library.items.len() && library.items[k] == item && {
                    let now_there = #[trigger] after.items[k];
                    &&& now_there.id == id
                    &&& now_there.file_count == Some(files.len() as u64)
                    &&& now_there.source_url == item.source_url
                    &&& now_there.origin == item.origin
                    &&& now_there.sha256 == item.sha256
                }
            &&& forall|k: int|
                0 <= k < library.items.len() && (#[trigger] library.items[k]).id != id
                    ==> after.items[k] == library.items[k]
        }),
{
    first_with_id_is_found(library.items, id);
    let p = |item: ItemV| item.id == id;
    lemma_first_where(library.items, p);
    if let Some(i) = first_where(library.items, p) {
        assert(p(library.items[i]));
        let after = rescanned(library, id, name, files, now);
        assert(after.items[i].id == id);
        assert(after.items[i].file_count == Some(files.len() as u64));
    }
}

/// A folder can be listed again exactly where its item has a path at which there
/// is a directory.
pub proof fn folder_is_listed_where_it_lies(
    item: ItemV,
    is_dir: bool,
    files: Seq<Seq<char>>,
)
    ensures
        rescan_result(item, is_dir, Ok(files)) is Ok <==> item.source_url is Some && is_dir,
        rescan_result(item, is_dir, Ok(files)) matches Ok(found) ==> found == files,
{
}

/// What is shown of a folder is one of its files: in order the one at the cursor,
/// at random the one that was shown, or else the one that was drawn.
pub proof fn shown_file_is_listed(
    library: LibraryV,
    id: Seq<char>,
    files: Seq<Seq<char>>,
    seed: u128,
)
    requires
        files.len() > 0,
    ensures
        files.contains(first_choice(library, id, SlideshowOrder::Sequential, files, seed).0),
        files.contains(first_choice(library, id, SlideshowOrder::Random, files, seed).0),
        !library.cursors.contains_key(id) ==> first_choice(
            library,
            id,
            SlideshowOrder::Sequential,
            files,
            seed,
        ) == (files[0], false),
        library.cursors.contains_key(id) && library.cursors[id] < files.len() ==> first_choice(
            library,
            id,
            SlideshowOrder::Sequential,
            files,
            seed,
        ) == (files[library.cursors[id] as int], false),
        !library.selections.contains_key(id) ==> first_choice(
            library,
            id,
            SlideshowOrder::Random,
            files,
            seed,
        ) == (files[seed as int % files.len() as int], false),
        library.selections.contains_key(id) && (library.selections[id].path matches PathV::Listed(
            path,
        ) && files.contains(path)) ==> first_choice(
            library,
            id,
            SlideshowOrder::Random,
            files,
            seed,
        ) == (library.selections[id].path->Listed_0, true),
{
    let place = cursor_of(library, id);
    assert(0 <= place % files.len() as int && place % files.len() as int <= files.len() - 1);
    assert(files.contains(files[place % files.len() as int]));
    assert(0 <= seed as int % files.len() as int && seed as int % files.len() as int <= files.len()
        - 1);
    assert(files.contains(files[seed as int % files.len() as int]));
    if place < files.len() {
        assert(place % files.len() as int == place) by (nonlinear_arith)
            requires
                0 <= place < files.len(),
        ;
    }
}

/// A walk may go on until more than 10000 files and directories are noted.
pub proof fn walk_ends_at_ten_thousand(scan: ScanV, path: Seq<char>)
    ensures
        scan_verdict(scan, path, EntryKind::Link) is Ok,
        scan_verdict(scan, path, EntryKind::Other) is Ok <==> scan.files.len()
            + scan.pending.len() <= 10000,
        scan_verdict(scan, path, EntryKind::Directory) is Ok <==> scan.files.len()
            + scan.pending.len() < 10000,
        is_image_extension(extension_of(path)) || is_video_extension(extension_of(path))
            ==> (scan_verdict(scan, path, EntryKind::File) is Ok <==> scan.files.len()
            + scan.pending.len() < 10000),
        forall|kind: EntryKind|
            (#[trigger] scan_verdict(scan, path, kind)) is Err ==> scan_verdict(
                scan,
                path,
                kind,
            )->Err_0 == "文件夹内容过多，请选择更具体的目录。"@,
{
    walk_notes_media(scan, path);
}

/// A refresh puts the new content in the place of the item, and says so where it
/// could be saved too; where the file could not be moved, nothing is changed.
pub proof fn refresh_is_carried_out(
    library: LibraryV,
    updated: ItemV,
    previous: Seq<char>,
    i: int,
    message: Seq<char>,
    saved: Result<(), Seq<char>>,
)
    requires
        0 <= i < library.items.len(),
        library.items[i].id == updated.id,
        forall|j: int| 0 <= j < library.items.len() && j != i ==> (#[trigger] library.items[j]).id
            != updated.id,
    ensures
        ({
            let plan = RefreshV::Replace { updated, previous };
            &&& refreshed_by(library, plan, Err(message), saved) == (
                Err::<ItemV, Seq<char>>(message),
                library,
            )
            &&& refreshed_by(library, plan, Ok(()), Ok(())).0 == Ok::<ItemV, Seq<char>>(updated)
            &&& refreshed_by(library, plan, Ok(()), Err(message)).0 == Err::<ItemV, Seq<char>>(
                message,
            )
            &&& refreshed_by(library, plan, Ok(()), saved).1.items == library.items.update(
                i,
                updated,
            )
        }),
        refreshed_by(library, RefreshV::Unchanged(updated), Err(message), saved) == (
            Ok::<ItemV, Seq<char>>(updated),
            library,
        ),
{
    first_with_id_is_found(library.items, updated.id);
    let p = |item: ItemV| item.id == updated.id;
    lemma_first_where(library.items, p);
    assert(p(library.items[i]));
    let k = first_where(library.items, p)->0;
    assert(p(library.items[k]));
    assert(k == i);
}

/// A removal says whether there was something to remove; one that could not be
/// saved leaves the library as it was.
pub proof fn removal_is_told(
    library: LibraryV,
    id: Seq<char>,
    message: Seq<char>,
    saved: Result<(), Seq<char>>,
)
    ensures
        !names_item(library.items, id) ==> removal(library, id, saved) == (
            Ok::<bool, Seq<char>>(false),
            library,
        ),
        names_item(library.items, id) ==> removal(library, id, Ok(())).0 == Ok::<bool, Seq<char>>(
            true,
        ),
        names_item(library.items, id) ==> removal(library, id, Ok(())).1.items.len()
            == library.items.len() - 1,
        names_item(library.items, id) ==> removal(library, id, Err(message)) == (
            Err::<bool, Seq<char>>(message),
            library,
        ),
{
    first_with_id_is_found(library.items, id);
    lemma_first_where(library.items, |item: ItemV| item.id == id);
}

/// A folder that was taken comes first, with its files noted as of now, and is the
/// one item that is told; one that could not be saved is not in the library, and is
/// told with the reason and its path.
pub proof fn folder_import_is_told(
    library: LibraryV,
    item: ItemV,
    skipped: (Seq<char>, Seq<char>),
    files: Seq<Seq<char>>,
    now: u64,
    message: Seq<char>,
    saved: Result<(), Seq<char>>,
)
    ensures
        ({
            let listing = ListingV { files, scanned_at: now };
            let taken = folder_taken(library, Ok(item), listing, Ok(()));
            &&& taken.items == seq![item] + library.items
            &&& taken.listings == library.listings.insert(
                item.id,
                ListingV { files, scanned_at: now },
            )
            &&& taken.cursors == library.cursors
            &&& taken.selections == library.selections
            &&& !names_item(library.items, item.id) ==> folder_taken(
                library,
                Ok(item),
                listing,
                Err(message),
            ) == library
            &&& folder_taken(library, Err(skipped), listing, saved) == library
        }),
        folder_record(Ok(item), Ok(())) == (seq![item], Seq::<(Seq<char>, Seq<char>)>::empty()),
        folder_record(Err(skipped), saved) == (Seq::<ItemV>::empty(), seq![skipped]),
        item.source_url matches Some(path) ==> folder_record(Ok(item), Err(message)) == (
            Seq::<ItemV>::empty(),
            seq![(path, message)],
        ),
{
    stored_item_comes_first(library, item, item, message);
    assert(folder_taken(library, Ok(item), ListingV { files, scanned_at: now }, Ok(())).items
        =~= seq![item] + library.items);
}

/// Listing a folder anew tells its files, and that their number has changed exactly
/// where the item had another one noted; one that is gone changes nothing.
pub proof fn new_listing_is_told(
    library: LibraryV,
    item: ItemV,
    is_dir: bool,
    name: Option<Seq<char>>,
    files: Seq<Seq<char>>,
    message: Seq<char>,
    now: u64,
)
    requires
        files.len() <= u64::MAX,
    ensures
        item.source_url is Some && is_dir ==> {
            let (told, after) = listed_anew(library, item, is_dir, name, Ok(files), now);
            &&& told matches Ok((found, changed)) && found == files && (changed
                <==> !(item_with_id(library.items, item.id) matches Some(noted)
                && noted.file_count == Some(files.len() as u64)))
            &&& after.listings.contains_key(item.id)
            &&& after.listings[item.id] == (ListingV { files, scanned_at: now })
        },
        item.source_url is Some && is_dir ==> listed_anew(
            library,
            item,
            is_dir,
            name,
            Err(message),
            now,
        ) == (Err::<(Seq<Seq<char>>, bool), Seq<char>>(message), library),
        item.source_url is Some && !is_dir ==> listed_anew(
            library,
            item,
            is_dir,
            name,
            Ok(files),
            now,
        ) == (
            Err::<(Seq<Seq<char>>, bool), Seq<char>>("文件夹源已不存在或不可访问。"@),
            library,
        ),
        item.source_url is None ==> listed_anew(library, item, is_dir, name, Ok(files), now).0 is Err
            && listed_anew(library, item, is_dir, name, Ok(files), now).1 == library,
{
}

/// A folder without media shows nothing and is not gone through.
pub proof fn empty_folder_shows_nothing(
    library: LibraryV,
    item: ItemV,
    order: SlideshowOrder,
    seed: u128,
)
    requires
        item.origin == MediaOrigin::Folder,
    ensures
        choice(library, item.id, order, Seq::empty(), seed) == (
            Err::<(Seq<char>, bool), Seq<char>>("文件夹中没有支持的图片或视频。"@),
            library,
        ),
        folder_advanced(library, item, order, Seq::empty(), seed) == (
            Err::<Option<Seq<char>>, Seq<char>>("文件夹中没有支持的图片或视频。"@),
            library,
        ),
{
}

/// What is shown of a folder is one of its files; the choice moves no cursor, and
/// forgets what was shown only where that is no longer in the folder.
pub proof fn choice_is_listed(
    library: LibraryV,
    id: Seq<char>,
    order: SlideshowOrder,
    files: Seq<Seq<char>>,
    seed: u128,
)
    requires
        files.len() > 0,
    ensures
        ({
            let (chosen, after) = choice(library, id, order, files, seed);
            &&& chosen is Ok
            &&& files.contains(chosen->Ok_0.0)
            &&& after.items == library.items
            &&& after.cursors == library.cursors
            &&& after.listings == library.listings
            &&& order == SlideshowOrder::Sequential ==> after == library && !chosen->Ok_0.1
            &&& chosen->Ok_0.1 ==> after == library
            &&& order == SlideshowOrder::Random && !chosen->Ok_0.1 ==> after.selections
                == library.selections.remove(id)
        }),
{
    shown_file_is_listed(library, id, files, seed);
}

/// A file that could be looked at is shown as it was found, and kept where the order
/// is random; a kept one that could not is forgotten, and the one that was drawn is
/// looked at instead; a second one that could not is told with the reason.
pub proof fn usable_file_is_shown(
    library: LibraryV,
    id: Seq<char>,
    files: Seq<Seq<char>>,
    seed: u128,
    kept: bool,
    media: ResolvedV,
    message: Seq<char>,
)
    requires
        files.len() > 0,
    ensures
        probe_verdict(files, seed, kept, Ok(media)) == VerdictV::Done(Ok(media)),
        probe_verdict(files, seed, true, Err(message)) == VerdictV::Next(
            files[seed as int % files.len() as int],
            false,
        ),
        probe_verdict(files, seed, false, Err(message)) == VerdictV::Done(Err(message)),
        after_probe(library, id, SlideshowOrder::Random, kept, Ok(media)) == (LibraryV {
            selections: library.selections.insert(id, media),
            ..library
        }),
        after_probe(library, id, SlideshowOrder::Sequential, false, Ok(media)) == (LibraryV {
            selections: library.selections.remove(id),
            ..library
        }),
        forall|order: SlideshowOrder|
            #![auto]
            after_probe(library, id, order, true, Err(message)) == (LibraryV {
                selections: library.selections.remove(id),
                ..library
            }) && after_probe(library, id, order, false, Err(message)) == library,
{
}

/// Going on in order moves the cursor of a folder to the next file, and behind the
/// last to the first; at random it draws a file, another than the shown one where
/// there is one.
pub proof fn folder_goes_on(library: LibraryV, item: ItemV, files: Seq<Seq<char>>, seed: u128)
    requires
        item.origin == MediaOrigin::Folder,
        0 < files.len() <= usize::MAX,
        files.no_duplicates(),
        library.cursors.contains_key(item.id),
        library.cursors[item.id] < files.len(),
    ensures
        ({
            let (told, after) = folder_advanced(
                library,
                item,
                SlideshowOrder::Sequential,
                files,
                seed,
            );
            let place = library.cursors[item.id];
            &&& told == Ok::<Option<Seq<char>>, Seq<char>>(None)
            &&& after.cursors.contains_key(item.id)
            &&& place + 1 < files.len() ==> after.cursors[item.id] == place + 1
            &&& place + 1 == files.len() ==> after.cursors[item.id] == 0
            &&& !after.selections.contains_key(item.id)
            &&& after.items == library.items
            &&& after.listings == library.listings
        }),
        ({
            let (told, after) = folder_advanced(library, item, SlideshowOrder::Random, files, seed);
            &&& after == library
            &&& told matches Ok(Some(path)) && files.contains(path) && (files.len() > 1
                && library.selections.contains_key(item.id) ==> PathV::Listed(path)
                != library.selections[item.id].path) && (!library.selections.contains_key(item.id)
                ==> path == files[seed as int % files.len() as int])
        }),
{
    let n = files.len() as int;
    let place = library.cursors[item.id] as int;
    if place + 1 < n {
        assert((place + 1) % n == place + 1) by (nonlinear_arith)
            requires
                0 <= place + 1 < n,
        ;
    } else {
        assert((place + 1) % n == 0) by (nonlinear_arith)
            requires
                place + 1 == n,
                n > 0,
        ;
    }
    let index = seed as int % n;
    assert(0 <= index < n);
    assert(files.contains(files[index]));
    let next = (index + 1) % n;
    assert(0 <= next < n);
    assert(files.contains(files[next]));
    if n > 1 {
        assert(next != index) by (nonlinear_arith)
            requires
                next == (index + 1) % n,
                0 <= index < n,
                n > 1,
        ;
        assert(files[next] != files[index]);
    }
}

/// An item that is no folder is not gone through, and a file that was drawn is kept
/// where it can be used.
pub proof fn drawn_file_is_kept(
    library: LibraryV,
    item: ItemV,
    order: SlideshowOrder,
    files: Seq<Seq<char>>,
    seed: u128,
    media: ResolvedV,
    message: Seq<char>,
)
    ensures
        item.origin != MediaOrigin::Folder ==> folder_advanced(library, item, order, files, seed)
            == (Ok::<Option<Seq<char>>, Seq<char>>(None), library),
        drawn(library, item.id, Ok(media)) == (
            Ok::<(), Seq<char>>(()),
            LibraryV { selections: library.selections.insert(item.id, media), ..library },
        ),
        drawn(library, item.id, Err(message)) == (Err::<(), Seq<char>>(message), library),
{
}

/// A file of a folder is shown from where it was listed, exactly where it is sound,
/// with the type of its extension and the length and digest of what it holds.
pub proof fn file_of_a_folder_is_shown(path: Seq<char>, source: SourceV)
    ensures
        folder_file(path, source) is Ok <==> (is_image_extension(extension_of(path))
            || is_video_extension(extension_of(path))) && is_sound(extension_of(path), source),
        folder_file(path, source) matches Ok(media) ==> {
            &&& media.path == PathV::Listed(path)
            &&& media.kind == MediaKind::Image <==> is_image_extension(extension_of(path))
            &&& media.kind == MediaKind::Video <==> is_video_extension(extension_of(path))
            &&& extension_of(path) == ".png"@ ==> media.mime_type == "image/png"@
            &&& extension_of(path) == ".mp4"@ ==> media.mime_type == "video/mp4"@
            &&& media.byte_size == source.metadata->Ok_0.byte_size
            &&& media.sha256 == sha256_of(source.content->Ok_0)
        },
{
    sound_files_pass(extension_of(path), source);
    extension_tells_the_type(extension_of(path));
}

// ---------------------------------------------------------------------------
// Taking over
// ---------------------------------------------------------------------------

/// An item of another library whose content is here already is taken for the one
/// that is here; a folder is referred to, unless its identifier is here; and any
/// other has its file copied and keeps all that is noted of it but its file name.
pub proof fn existing_item_is_taken_over(items: Seq<ItemV>, item: ItemV, name_taken: bool)
    ensures
        (forall|k: int|
            0 <= k < items.len() && (#[trigger] items[k]).sha256 == item.sha256 ==> items[k].origin
                == MediaOrigin::Folder) ==> match existing_plan(items, item, name_taken) {
            ExistingV::Known(known) => known == item && item.origin == MediaOrigin::Folder
                && names_item(items, item.id),
            ExistingV::Refer(made) => made == item && item.origin == MediaOrigin::Folder
                && !names_item(items, item.id),
            ExistingV::Copy(made) => {
                &&& item.origin != MediaOrigin::Folder
                &&& made == (ItemV { file_name: made.file_name, preview_url: None, ..item })
                &&& name_taken ==> made.file_name == item.id + extension_of(item.file_name)
                &&& !name_taken ==> (file_name_of(item.file_name) matches Some(name)
                    ==> made.file_name == name)
            },
        },
        (exists|k: int|
            0 <= k < items.len() && (#[trigger] items[k]).sha256 == item.sha256 && items[k].origin
                != MediaOrigin::Folder) ==> (existing_plan(items, item, name_taken) matches ExistingV::Known(
            known,
        ) && items.contains(known) && known.sha256 == item.sha256 && known.origin
            != MediaOrigin::Folder),
{
    first_with_digest_is_found(items, item.sha256);
    first_with_id_is_found(items, item.id);
}

/// An item that was taken over is put in front once, where its file was copied.
pub proof fn adopted_item_comes_first(library: LibraryV, item: ItemV, message: Seq<char>)
    ensures
        !names_item(library.items, item.id) ==> adopted(
            library,
            ExistingV::Copy(item),
            Ok(()),
        ).items == seq![item] + library.items,
        names_item(library.items, item.id) ==> adopted(library, ExistingV::Copy(item), Ok(()))
            == library,
        adopted(library, ExistingV::Copy(item), Err(message)) == library,
        adopted(library, ExistingV::Known(item), Ok(())) == library,
        adopted(library, ExistingV::Refer(item), Ok(())).items == seq![item] + library.items,
        adoption(library, ExistingV::Copy(item), Err(message), Ok(())) == Err::<ItemV, Seq<char>>(
            message,
        ),
        adoption(library, ExistingV::Copy(item), Ok(()), Ok(())) == Ok::<ItemV, Seq<char>>(item),
        adoption(library, ExistingV::Known(item), Ok(()), Ok(())) == Ok::<ItemV, Seq<char>>(item),
        adoption(library, ExistingV::Refer(item), Ok(()), Ok(())) == Ok::<ItemV, Seq<char>>(item),
{
    first_with_id_is_found(library.items, item.id);
}

/// What is downloaded from a random address is named after its host, or `unknown`
/// where the address has none.
pub proof fn random_download_is_named_after_its_host(
    input_url: Seq<char>,
    download: DownloadV,
    parsed: Option<UrlV>,
    host: Seq<char>,
)
    ensures
        parsed matches Some(parts) ==> parts.host == Some(host) ==> download_ingest(
            input_url,
            true,
            download,
            host_or_unknown(parsed),
        ).name == Some("随机 API · "@ + host),
        (parsed matches Some(parts) ==> parts.host is None) ==> download_ingest(
            input_url,
            true,
            download,
            host_or_unknown(parsed),
        ).name == Some("随机 API · "@ + "unknown"@),
{
}

/// Where no library was stored it is empty, and nothing of folders is known yet; one
/// that cannot be read counts as broken.
pub proof fn missing_library_is_empty(items: Seq<ItemV>)
    ensures
        catalog_items(CatalogRead::Missing) == Some(Seq::<ItemV>::empty()),
        catalog_items(CatalogRead::Unreadable) is None,
        library_of(items).items == items,
        library_of(items).cursors == Map::<Seq<char>, usize>::empty(),
        library_of(items).selections == Map::<Seq<char>, ResolvedV>::empty(),
        library_of(items).listings == Map::<Seq<char>, ListingV>::empty(),
{
}

} // verus!
