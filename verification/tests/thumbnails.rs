use background_studio::media::{MediaPath, ResolvedMedia};
use background_studio::models::MediaKind;
use background_studio::textures::{TextureCache, TextureStep};
use background_studio::thumbnails::{
    bitmap_picture, bitmap_size, cache_directory, cache_file, cache_key, can_shrink, generate,
    kept_thumbnail, open_image, open_video, shrink, thumbnail_source, Picture, ThumbnailSource,
};

fn sample() -> ThumbnailSource {
    thumbnail_source(
        "m1",
        ResolvedMedia {
            path: MediaPath::Managed("m1.png".to_string()),
            mime_type: "image/png".to_string(),
            byte_size: 12,
            kind: MediaKind::Image,
            sha256: "ab".to_string(),
        },
        1_700_000_000_000_000_000_000,
    )
}

fn gradient(width: u32, height: u32) -> Picture {
    let mut rgba = Vec::new();
    for y in 0..height {
        for x in 0..width {
            rgba.extend_from_slice(&[(x % 256) as u8, (y % 256) as u8, 7, 255]);
        }
    }
    Picture { width, height, rgba }
}

#[test]
fn thumbnails_are_named_by_content_and_size() {
    let source = sample();
    assert_eq!(source.cache_key, "ab-1700000000000000000000-12");
    assert_eq!(cache_key(&source), "ab-1700000000000000000000-12-160x104");
    assert_eq!(cache_directory(), vec!["thumbnail-cache"]);
    assert_eq!(
        cache_file(&source)[1],
        "ab-1700000000000000000000-12-160x104.png"
    );
}

#[test]
fn bitmaps_become_opaque_pictures() {
    assert_eq!(bitmap_size(2, -3), Some((2, 3, 24)));
    assert_eq!(bitmap_size(0, 3), None);
    assert_eq!(bitmap_size(3, 0), None);
    assert_eq!(bitmap_size(-1, 3), None);
    let picture = bitmap_picture(2, 1, vec![1, 2, 3, 4, 5, 6, 7, 8]).unwrap();
    assert_eq!(picture.rgba, vec![3, 2, 1, 255, 7, 6, 5, 255]);
    assert!(bitmap_picture(2, 1, vec![0; 7]).is_none());
    assert_eq!(
        open_video(None).err().unwrap(),
        "Windows 无法生成视频首帧。"
    );
    assert_eq!(open_video(Some(picture)).ok().unwrap().width, 2);
}

#[test]
fn pictures_shrink_as_the_image_crate_does() {
    for (width, height) in [(320, 208), (1000, 10), (10, 1000), (161, 105), (20, 20)] {
        let picture = gradient(width, height);
        assert!(can_shrink(&picture));
        let buffer = image::RgbaImage::from_raw(width, height, picture.rgba.clone()).unwrap();
        let expected = image::DynamicImage::ImageRgba8(buffer).thumbnail(160, 104);
        let small = shrink(picture);
        assert_eq!((small.width, small.height), (expected.width(), expected.height()));
        assert!(small.width <= 160 && small.height <= 104);
        assert_eq!(small.rgba, expected.into_rgba8().into_raw());
    }
    let short = Picture {
        width: 2,
        height: 2,
        rgba: vec![0; 15],
    };
    assert!(!can_shrink(&short));
}

#[test]
fn kept_thumbnail_reads_back() {
    let source = sample();
    let made = generate(&source, gradient(320, 208)).ok().unwrap();
    assert_eq!(made.pixels.key, cache_key(&source));
    assert_eq!((made.pixels.width, made.pixels.height), (160, 104));
    let kept = kept_thumbnail(&source, &made.file).ok().unwrap();
    assert_eq!(kept.rgba, made.pixels.rgba);
    assert_eq!(kept.width, made.pixels.width);
    assert!(kept_thumbnail(&source, &vec![1, 2, 3]).is_err());
    let opened = open_image(&made.file, "PNG").ok().unwrap();
    assert_eq!(opened.rgba, kept.rgba);
    assert!(open_image(&made.file, "txt")
        .err()
        .unwrap()
        .starts_with("读取图片缩略图失败："));
}

#[test]
fn thumbnails_are_made_once_and_then_shown() {
    let mut cache = TextureCache::new("/d".to_string());
    assert!(matches!(cache.ask("a"), TextureStep::Make));
    assert!(matches!(cache.ask("a"), TextureStep::Wait));
    cache.store("a".to_string(), 10);
    assert!(matches!(cache.ask("a"), TextureStep::Show));
    assert!(matches!(cache.ask("b"), TextureStep::Make));
    cache.fail("b");
    assert!(matches!(cache.ask("b"), TextureStep::Make));
    cache.move_to("/d");
    assert!(cache.holds("a"));
    cache.move_to("/e");
    assert!(!cache.holds("a"));
    assert!(matches!(cache.ask("b"), TextureStep::Make));
}

#[test]
fn least_recently_used_thumbnails_leave_first() {
    let third = 64 * 1024 * 1024 / 3;
    let mut cache = TextureCache::new("/d".to_string());
    for key in ["a", "b", "c"] {
        cache.store(key.to_string(), third);
    }
    assert!(cache.holds("a") && cache.holds("b") && cache.holds("c"));
    cache.ask("a");
    cache.store("d".to_string(), third);
    assert!(cache.holds("a"));
    assert!(!cache.holds("b"));
    assert!(cache.holds("c") && cache.holds("d"));
    cache.store("a".to_string(), 1);
    cache.store("e".to_string(), third);
    assert!(cache.holds("c") && cache.holds("a") && cache.holds("e"));
}

#[test]
fn at_most_512_thumbnails_are_held() {
    let mut cache = TextureCache::new("/d".to_string());
    for i in 0..513 {
        cache.store(format!("k{i}"), 1);
    }
    assert!(!cache.holds("k0"));
    assert!(cache.holds("k1") && cache.holds("k512"));
}
