//! Thumbnails of the media: how they are named, made, and kept in memory.
use vstd::prelude::*;

use crate::media::{MediaPath, PathV, ResolvedMedia, ResolvedV};
use crate::models::MediaKind;
use crate::protocol::push_bytes;
use crate::text::{decimal, decimal_text, list_view, wide_decimal_text};

verus! {

/// The largest width of a thumbnail, in pixels.
pub const THUMBNAIL_WIDTH: u32 = 160;

/// The largest height of a thumbnail, in pixels.
pub const THUMBNAIL_HEIGHT: u32 = 104;

/// How many bytes of textures are kept.
pub const TEXTURE_CACHE_BYTES: usize = 67108864;

/// How many textures are kept.
pub const TEXTURE_CACHE_ENTRIES: usize = 512;

/// The pixels of a thumbnail, four bytes each: red, green, blue and alpha.
pub struct ThumbnailPixels {
    pub key: String,
    pub width: usize,
    pub height: usize,
    pub rgba: Vec<u8>,
}

/// What a thumbnail is made from.
pub struct ThumbnailSource {
    pub media_id: String,
    pub path: MediaPath,
    pub cache_key: String,
    pub kind: MediaKind,
}

/// The model of what a thumbnail is made from.
pub struct ThumbnailV {
    pub media_id: Seq<char>,
    pub path: PathV,
    pub cache_key: Seq<char>,
    pub kind: MediaKind,
}

impl View for ThumbnailSource {
    type V = ThumbnailV;

    open spec fn view(&self) -> ThumbnailV {
        ThumbnailV {
            media_id: self.media_id@,
            path: self.path@,
            cache_key: self.cache_key@,
            kind: self.kind,
        }
    }
}

/// What the thumbnail of an item is made from, where `modified` is when its
/// file was last changed, in nanoseconds.
pub open spec fn source_of(media_id: Seq<char>, media: ResolvedV, modified: u128) -> ThumbnailV {
    ThumbnailV {
        media_id,
        path: media.path,
        cache_key: media.sha256 + "-"@ + decimal(modified as nat) + "-"@ + decimal(
            media.byte_size as nat,
        ),
        kind: media.kind,
    }
}

/// What the thumbnail of an item is made from.
pub fn thumbnail_source(media_id: &str, media: ResolvedMedia, modified: u128) -> (r:
    ThumbnailSource)
    ensures
        r@ == source_of(media_id@, media@, modified),
{
    let cache_key = media.sha256.concat("-").concat(
        wide_decimal_text(modified).as_str(),
    ).concat("-").concat(decimal_text(media.byte_size).as_str());
    ThumbnailSource {
        media_id: media_id.to_string(),
        path: media.path,
        cache_key,
        kind: media.kind,
    }
}

/// The name under which the thumbnail of a source is kept.
pub open spec fn kept_name(cache_key: Seq<char>) -> Seq<char> {
    cache_key + "-"@ + decimal(THUMBNAIL_WIDTH as nat) + "x"@ + decimal(THUMBNAIL_HEIGHT as nat)
}

/// The name under which the thumbnail of a source is kept.
pub fn cache_key(source: &ThumbnailSource) -> (r: String)
    ensures
        r@ == kept_name(source@.cache_key),
{
    source.cache_key.as_str().to_string().concat("-").concat(
        decimal_text(THUMBNAIL_WIDTH as u64).as_str(),
    ).concat("x").concat(decimal_text(THUMBNAIL_HEIGHT as u64).as_str())
}

/// Where the thumbnails are kept, below the data directory.
pub fn cache_directory() -> (r: Vec<String>)
    ensures
        list_view(r@) == seq!["thumbnail-cache"@],
{
    let r = vec!["thumbnail-cache".to_string()];
    assert(list_view(r@) =~= seq!["thumbnail-cache"@]);
    r
}

/// Where one thumbnail is kept, below the data directory.
pub fn cache_file(source: &ThumbnailSource) -> (r: Vec<String>)
    ensures
        list_view(r@) == seq!["thumbnail-cache"@, kept_name(source@.cache_key) + ".png"@],
{
    let r = vec!["thumbnail-cache".to_string(), cache_key(source).concat(".png")];
    assert(list_view(r@) =~= seq!["thumbnail-cache"@, kept_name(source@.cache_key) + ".png"@]);
    r
}

// ---------------------------------------------------------------------------
// Pixels
// ---------------------------------------------------------------------------

/// A decoded picture, four bytes for each pixel.
pub struct Picture {
    pub width: u32,
    pub height: u32,
    pub rgba: Vec<u8>,
}

/// The bytes of a bitmap, which hold blue, green, red and an unused byte for
/// each pixel, as red, green, blue and full opacity. Bytes after the last whole
/// pixel stay.
pub open spec fn opaque_pixels(bgr: Seq<u8>) -> Seq<u8> {
    Seq::new(
        bgr.len(),
        |i: int|
            if i >= bgr.len() - bgr.len() % 4 {
                bgr[i]
            } else if i % 4 == 0 {
                bgr[i + 2]
            } else if i % 4 == 2 {
                bgr[i - 2]
            } else if i % 4 == 3 {
                255
            } else {
                bgr[i]
            },
    )
}

fn reorder(pixels: &mut Vec<u8>)
    ensures
        final(pixels)@ == opaque_pixels(old(pixels)@),
{
    let ghost before = pixels@;
    let len = pixels.len();
    let whole: usize = len - len % 4;
    let mut i: usize = 0;
    while i < whole
        invariant
            i <= whole,
            i % 4 == 0,
            whole % 4 == 0,
            whole == before.len() - before.len() % 4,
            whole <= before.len(),
            pixels@.len() == before.len(),
            forall|k: int| 0 <= k < i ==> pixels@[k] == opaque_pixels(before)[k],
            forall|k: int| i <= k < before.len() ==> pixels@[k] == before[k],
        decreases whole - i,
    {
        let blue = pixels[i];
        let red = pixels[i + 2];
        pixels.set(i, red);
        pixels.set(i + 2, blue);
        pixels.set(i + 3, 255);
        i += 4;
    }
    assert(pixels@ =~= opaque_pixels(before));
}

/// How many bytes the pixels of a picture take.
fn pixel_bytes(width: u32, height: u32) -> (r: u128)
    ensures
        r == width * height * 4,
{
    assert(0 <= width * height <= 0xffff_ffff * 0xffff_ffff) by (nonlinear_arith)
        requires
            width <= 0xffff_ffff,
            height <= 0xffff_ffff,
    ;
    (width as u128) * (height as u128) * 4
}

/// A bitmap of these measures can be read.
pub open spec fn is_bitmap(width: i32, height: i32) -> bool {
    width > 0 && height != 0 && height != i32::MIN
}

/// The height of a bitmap, which is negative where its first row is the
/// topmost.
pub open spec fn bitmap_height(height: i32) -> int {
    if height < 0 {
        -height
    } else {
        height as int
    }
}

/// How large a bitmap is, and how many bytes its pixels take. `None` is a
/// bitmap that cannot be read.
pub fn bitmap_size(width: i32, height: i32) -> (r: Option<(u32, u32, usize)>)
    ensures
        match r {
            Some((w, h, bytes)) => is_bitmap(width, height) && w == width && h == bitmap_height(
                height,
            ) && bytes == w * h * 4,
            None => !is_bitmap(width, height) || width * bitmap_height(height) * 4 > usize::MAX,
        },
{
    if width <= 0 || height == 0 || height == i32::MIN {
        return None;
    }
    let tall: u32 = if height < 0 {
        (-height) as u32
    } else {
        height as u32
    };
    let wide = width as u32;
    let bytes: u128 = pixel_bytes(wide, tall);
    if bytes > usize::MAX as u128 {
        return None;
    }
    Some((wide, tall, bytes as usize))
}

/// The picture that the pixels of a bitmap show. `None` is where fewer were
/// read than the bitmap has.
pub fn bitmap_picture(width: u32, height: u32, pixels: Vec<u8>) -> (r: Option<Picture>)
    ensures
        match r {
            Some(picture) => picture.width == width && picture.height == height && picture.rgba@
                == opaque_pixels(pixels@) && pixels@.len() >= width * height * 4,
            None => pixels@.len() < width * height * 4,
        },
{
    if (pixels.len() as u128) < pixel_bytes(width, height) {
        return None;
    }
    let mut rgba = pixels;
    reorder(&mut rgba);
    Some(Picture { width, height, rgba })
}

/// Name: `image::DynamicImage::thumbnail` on an image of eight bits for each of
/// red, green, blue and alpha, of the given width, height and bytes, with the
/// given largest width and height.
pub uninterp spec fn shrunk_image(
    width: u32,
    height: u32,
    rgba: Seq<u8>,
    largest_width: u32,
    largest_height: u32,
) -> (u32, u32, Seq<u8>);

/// The sums over the pixels that fall on one pixel of a thumbnail stay within
/// 32 bits.
pub open spec fn is_summable(width: u32, height: u32) -> bool {
    width * height <= 16_843_009 || (width <= 262_144 && height <= 262_144)
}

/// A picture that a thumbnail can be made of: it has all its pixels.
pub open spec fn is_shrinkable(picture: Picture) -> bool {
    is_summable(picture.width, picture.height) && picture.rgba@.len() >= picture.width
        * picture.height * 4
}

/// Whether a thumbnail can be made of a picture.
pub fn can_shrink(picture: &Picture) -> (r: bool)
    ensures
        r == is_shrinkable(*picture),
{
    let bytes = pixel_bytes(picture.width, picture.height);
    let summable = bytes <= 4 * 16_843_009 || (picture.width <= 262_144 && picture.height
        <= 262_144);
    summable && picture.rgba.len() as u128 >= bytes
}

/// Outside function: `image::DynamicImage::thumbnail`, on an image that
/// `image::RgbaImage::from_raw` makes of the bytes. It gives an image that fits
/// within the largest width and height, of at least one pixel, with four bytes
/// for each. Which colours the pixels have is named, not stated.
#[verifier::external_body]
fn image_thumbnail(
    width: u32,
    height: u32,
    rgba: Vec<u8>,
    largest_width: u32,
    largest_height: u32,
) -> (r: (u32, u32, Vec<u8>))
    requires
        is_summable(width, height),
        rgba@.len() >= width * height * 4,
        largest_width == THUMBNAIL_WIDTH,
        largest_height == THUMBNAIL_HEIGHT,
    ensures
        (r.0, r.1, r.2@) == shrunk_image(width, height, rgba@, largest_width, largest_height),
        0 < r.0 <= largest_width,
        0 < r.1 <= largest_height,
        r.2@.len() == r.0 * r.1 * 4,
{
    let buffer = image::RgbaImage::from_raw(width, height, rgba).unwrap();
    let small = image::DynamicImage::ImageRgba8(buffer).thumbnail(largest_width, largest_height);
    let (w, h) = (small.width(), small.height());
    (w, h, small.into_rgba8().into_raw())
}

/// Makes the thumbnail of a picture.
pub fn shrink(picture: Picture) -> (r: Picture)
    requires
        is_shrinkable(picture),
    ensures
        (r.width, r.height, r.rgba@) == shrunk_image(
            picture.width,
            picture.height,
            picture.rgba@,
            THUMBNAIL_WIDTH,
            THUMBNAIL_HEIGHT,
        ),
        0 < r.width <= THUMBNAIL_WIDTH,
        0 < r.height <= THUMBNAIL_HEIGHT,
        r.rgba@.len() == r.width * r.height * 4,
{
    let (width, height, rgba) = image_thumbnail(
        picture.width,
        picture.height,
        picture.rgba,
        THUMBNAIL_WIDTH,
        THUMBNAIL_HEIGHT,
    );
    Picture { width, height, rgba }
}

// ---------------------------------------------------------------------------
// Files
// ---------------------------------------------------------------------------

/// Name: what `image::ImageReader::decode` makes of the content of a file with
/// this extension, as eight bits for each of red, green, blue and alpha.
pub uninterp spec fn decoded_image(content: Seq<u8>, extension: Seq<char>) -> Result<
    (u32, u32, Seq<u8>),
    Seq<char>,
>;

/// Outside function: `image::ImageReader::decode`, of the format that
/// `image::ImageFormat::from_extension` finds, with
/// `image::DynamicImage::into_rgba8`. An image that it gives has at least four
/// bytes for each pixel. What it gives is named. Whether the decoders behind it,
/// those of PNG, JPEG, GIF and WebP, return on every content is left unsaid.
#[verifier::external_body]
fn decode_image(content: &Vec<u8>, extension: &str) -> (r: Result<(u32, u32, Vec<u8>), String>)
    ensures
        (match r {
            Ok((width, height, rgba)) => Ok((width, height, rgba@)),
            Err(message) => Err(message@),
        }) == decoded_image(content@, extension@),
        r matches Ok((width, height, rgba)) ==> rgba@.len() >= width * height * 4,
{
    let mut reader = image::ImageReader::new(std::io::Cursor::new(content.as_slice()));
    if let Some(format) = image::ImageFormat::from_extension(extension) {
        reader.set_format(format);
    }
    let rgba = reader.decode().map_err(|error| error.to_string())?.into_rgba8();
    Ok((rgba.width(), rgba.height(), rgba.into_raw()))
}

/// Name: the PNG file into which `image::DynamicImage::write_to` writes an image
/// of eight bits for each of red, green, blue and alpha.
pub uninterp spec fn png_file(width: u32, height: u32, rgba: Seq<u8>) -> Result<
    Seq<u8>,
    Seq<char>,
>;

/// Outside function: `image::DynamicImage::write_to` as PNG, on an image that
/// `image::RgbaImage::from_raw` makes of the bytes. The bytes that it writes are
/// named.
#[verifier::external_body]
fn encode_png(width: u32, height: u32, rgba: Vec<u8>) -> (r: Result<Vec<u8>, String>)
    requires
        0 < width,
        0 < height,
        rgba@.len() == width * height * 4,
    ensures
        (match r {
            Ok(bytes) => Ok(bytes@),
            Err(message) => Err(message@),
        }) == png_file(width, height, rgba@),
{
    let buffer = image::RgbaImage::from_raw(width, height, rgba).unwrap();
    let mut out = std::io::Cursor::new(Vec::new());
    let written = image::DynamicImage::ImageRgba8(buffer).write_to(
        &mut out,
        image::ImageFormat::Png,
    );
    written.map(|_| out.into_inner()).map_err(|error| error.to_string())
}

/// The picture that a file shows, given what it decodes to.
pub open spec fn picture_outcome(
    decoded: Result<(u32, u32, Seq<u8>), Seq<char>>,
    complaint: Seq<char>,
) -> Result<(u32, u32, Seq<u8>), Seq<char>> {
    match decoded {
        Ok(found) => Ok(found),
        Err(message) => Err(complaint + message),
    }
}

/// The model of a picture, or of what is wrong.
pub open spec fn picture_view(r: Result<Picture, String>) -> Result<
    (u32, u32, Seq<u8>),
    Seq<char>,
> {
    match r {
        Ok(picture) => Ok((picture.width, picture.height, picture.rgba@)),
        Err(message) => Err(message@),
    }
}

/// The picture that an image file shows.
pub fn open_image(content: &Vec<u8>, extension: &str) -> (r: Result<Picture, String>)
    ensures
        picture_view(r) == picture_outcome(
            decoded_image(content@, extension@),
            "读取图片缩略图失败："@,
        ),
        r matches Ok(picture) ==> picture.rgba@.len() >= picture.width * picture.height * 4,
{
    match decode_image(content, extension) {
        Ok((width, height, rgba)) => Ok(Picture { width, height, rgba }),
        Err(message) => Err("读取图片缩略图失败：".to_string().concat(message.as_str())),
    }
}

/// The picture that the first frame of a video shows, which the system may not
/// give.
pub fn open_video(frame: Option<Picture>) -> (r: Result<Picture, String>)
    ensures
        match frame {
            Some(picture) => r == Ok::<Picture, String>(picture),
            None => r matches Err(message) && message@ == "Windows 无法生成视频首帧。"@,
        },
{
    match frame {
        Some(picture) => Ok(picture),
        None => Err("Windows 无法生成视频首帧。".to_string()),
    }
}

/// The model of a thumbnail's pixels.
pub open spec fn pixels_view(pixels: ThumbnailPixels) -> (Seq<char>, nat, nat, Seq<u8>) {
    (pixels.key@, pixels.width as nat, pixels.height as nat, pixels.rgba@)
}

/// The thumbnail of a source, of the picture that is kept for it or was made.
pub fn thumbnail_of(source: &ThumbnailSource, picture: Picture) -> (r: ThumbnailPixels)
    ensures
        pixels_view(r) == (
            kept_name(source@.cache_key),
            picture.width as nat,
            picture.height as nat,
            picture.rgba@,
        ),
{
    ThumbnailPixels {
        key: cache_key(source),
        width: picture.width as usize,
        height: picture.height as usize,
        rgba: picture.rgba,
    }
}

/// The thumbnail of a source that is kept in a file.
pub fn kept_thumbnail(source: &ThumbnailSource, content: &Vec<u8>) -> (r: Result<
    ThumbnailPixels,
    String,
>)
    ensures
        match decoded_image(content@, "png"@) {
            Ok((width, height, rgba)) => r matches Ok(pixels) && pixels_view(pixels) == (
                kept_name(source@.cache_key),
                width as nat,
                height as nat,
                rgba,
            ),
            Err(message) => r matches Err(said) && said@ == message,
        },
{
    match decode_image(content, "png") {
        Ok((width, height, rgba)) => Ok(thumbnail_of(source, Picture { width, height, rgba })),
        Err(message) => Err(message),
    }
}

/// A thumbnail that was made, and the file in which it is to be kept.
pub struct MadeThumbnail {
    pub pixels: ThumbnailPixels,
    pub file: Vec<u8>,
}

/// Makes the thumbnail of a source from its picture.
pub fn generate(source: &ThumbnailSource, picture: Picture) -> (r: Result<MadeThumbnail, String>)
    requires
        is_shrinkable(picture),
    ensures
        ({
            let (width, height, rgba) = shrunk_image(
                picture.width,
                picture.height,
                picture.rgba@,
                THUMBNAIL_WIDTH,
                THUMBNAIL_HEIGHT,
            );
            match png_file(width, height, rgba) {
                Ok(bytes) => r matches Ok(made) && made.file@ == bytes && pixels_view(made.pixels)
                    == (kept_name(source@.cache_key), width as nat, height as nat, rgba),
                Err(message) => r matches Err(said) && said@ == "写入缩略图缓存失败："@ + message,
            }
        }),
{
    let small = shrink(picture);
    let mut copy: Vec<u8> = Vec::new();
    push_bytes(&mut copy, small.rgba.as_slice());
    assert(copy@ =~= small.rgba@);
    match encode_png(small.width, small.height, copy) {
        Ok(file) => Ok(MadeThumbnail { pixels: thumbnail_of(source, small), file }),
        Err(message) => Err("写入缩略图缓存失败：".to_string().concat(message.as_str())),
    }
}

} // verus!
