use background_studio::digest::sha256;
use background_studio::json::{parse_json, Json};
use background_studio::media::{
    local_options, CatalogRead, ExistingPlan, FileMeta, MediaLibrary, SourceFile,
};
use background_studio::migrate::{
    default_standalone_sources, marker_value, migration_marker, plan_legacy_item,
    profile_from_legacy_settings, remap_profile_ids, LegacyFile, LegacyStep, Migration,
};
use background_studio::models::{ImportResult, SlideshowOrder};
use background_studio::table::Table;

fn minimal_png() -> Vec<u8> {
    vec![
        0x89, 0x50, 0x4E, 0x47, 0x0D, 0x0A, 0x1A, 0x0A, 0x00, 0x00, 0x00, 0x0D, 0x49, 0x48, 0x44,
        0x52, 0x00, 0x00, 0x00, 0x01, 0x00, 0x00, 0x00, 0x01, 0x08, 0x06, 0x00, 0x00, 0x00, 0x1F,
        0x15, 0xC4, 0x89, 0x00, 0x00, 0x00, 0x0A, 0x49, 0x44, 0x41, 0x54, 0x78, 0x9C, 0x63, 0x00,
        0x01, 0x00, 0x00, 0x05, 0x00, 0x01, 0x0D, 0x0A, 0x2D, 0xB4, 0x00, 0x00, 0x00, 0x00, 0x49,
        0x45, 0x4E, 0x44, 0xAE, 0x42, 0x60, 0x82,
    ]
}

fn number(value: &Json, key: &str) -> f64 {
    f64::from_bits(value.get(key).unwrap().as_double().unwrap().bits())
}

fn legacy_library(id: &str, name: &str, digest: &str) -> String {
    format!(
        r#"[{{"id":"{id}","name":"{name}","kind":"image","origin":"local","fileName":"{id}.png","mimeType":"image/png","byteSize":67,"sha256":"{digest}","createdAt":"2024-01-01T00:00:00Z"}}]"#
    )
}

fn take_over(migration: &mut Migration, library: &mut MediaLibrary, raw: String) {
    let items = migration.legacy_items(Ok(raw)).unwrap();
    for item in items {
        let file = LegacyFile {
            present: true,
            path: format!("media/{}", item.file_name),
        };
        let step = plan_legacy_item(library, &item, &file);
        let imported = match step {
            LegacyStep::Import => {
                let plan = library.plan_existing(&item, false);
                assert!(matches!(plan, ExistingPlan::Copy(_)));
                library
                    .import_existing_file(plan, Ok(()), Ok(()))
                    .map(|taken| taken.id)
            }
            _ => Err(String::new()),
        };
        migration.record_item(&item.id, step, imported).unwrap();
    }
}

#[test]
fn migrates_legacy_library_and_settings_once() {
    let mut library = MediaLibrary::load(CatalogRead::Missing).0;
    let digest = sha256(&minimal_png());
    let id = "aaaa1111-2222-3333-4444-555555555555";
    let mut first = Migration::begin(false);
    assert!(first.is_due());
    assert!(first.enter_source("codex", true));
    take_over(
        &mut first,
        &mut library,
        legacy_library(id, "旧背景.png", &digest),
    );
    assert!(first.wants_profile(true, false));
    let settings = format!(
        r#"{{"activeMediaId":"{id}","playlistIds":["{id}"],"display":{{"opacity":0.4,"blockFillOpacity":0.2,"cardOpacity":0.3}},"slideshow":{{"enabled":true,"intervalSeconds":12,"order":"random"}}}}"#
    );
    let profile = first.legacy_profile(Ok(settings)).ok().unwrap();
    first.record_profile("codex");
    let done = first.finish();
    assert!(done.mark);
    assert!(done.report.migrated);
    assert_eq!(done.report.media_added, 1);
    assert_eq!(done.report.profiles_written, vec!["codex".to_string()]);
    assert_eq!(library.items().len(), 1);
    assert_eq!(
        profile.active_media_id.as_deref(),
        Some("aaaa1111-2222-3333-4444-555555555555")
    );
    assert_eq!(number(&profile.display, "opacity"), 0.4);
    assert_eq!(number(&profile.display, "blockFillOpacity"), 0.2);
    assert_eq!(number(&profile.display, "cardOpacity"), 0.3);
    assert_eq!(profile.slideshow.interval_seconds, 12);
    assert!(matches!(profile.slideshow.order, SlideshowOrder::Random));

    let second = Migration::begin(true);
    assert!(!second.is_due());
    let done = second.finish();
    assert!(!done.report.migrated);
    assert!(!done.mark);
    assert_eq!(library.items().len(), 1);
}

#[test]
fn remaps_duplicate_sha256_to_existing_id() {
    let mut library = MediaLibrary::load(CatalogRead::Missing).0;
    let source = SourceFile {
        file_name: Some("one.png".to_string()),
        metadata: Ok(FileMeta {
            is_file: true,
            byte_size: 67,
        }),
        content: Ok(minimal_png()),
    };
    let mut added = ImportResult::default();
    let plan = library.begin_ingest(&source, &local_options());
    library.import_files(&mut added, "one.png", plan, Ok(()));
    let existing_id = added.added[0].id.clone();

    let mut migration = Migration::begin(false);
    assert!(migration.enter_source("notion", true));
    take_over(
        &mut migration,
        &mut library,
        legacy_library(
            "bbbb1111-2222-3333-4444-555555555555",
            "notion.png",
            &added.added[0].sha256,
        ),
    );
    let profile = migration
        .legacy_profile(Ok(
            r#"{"activeMediaId":"bbbb1111-2222-3333-4444-555555555555"}"#.to_string(),
        ))
        .ok()
        .unwrap();
    let done = migration.finish();
    assert_eq!(done.report.media_added, 0);
    assert_eq!(
        profile.active_media_id.as_deref(),
        Some(existing_id.as_str())
    );
}

#[test]
fn refused_items_keep_the_migration_open() {
    let mut library = MediaLibrary::load(CatalogRead::Missing).0;
    let mut migration = Migration::begin(false);
    assert!(!migration.enter_source("multica", false));
    assert!(migration.enter_source("codex", true));
    let items = migration
        .legacy_items(Ok(legacy_library("a", "a.png", &"0".repeat(64))))
        .unwrap();
    let missing = LegacyFile {
        present: false,
        path: "m/a.png".to_string(),
    };
    let step = plan_legacy_item(&library, &items[0], &missing);
    let refused = migration.record_item("a", step, Err(String::new()));
    assert_eq!(refused, Err("旧媒体文件不存在：m/a.png".to_string()));
    assert!(!migration.wants_profile(true, false));
    assert!(!migration.finish().mark);
    library.items();
}

#[test]
fn ids_are_remapped_everywhere() {
    let mut ids: Table<String> = Table::new();
    ids.insert("a".to_string(), "x".to_string());
    let mut profile = profile_from_legacy_settings(
        &parse_json(r#"{"activeMediaId":"a","playlistIds":["a","b"]}"#).unwrap(),
    );
    remap_profile_ids(&mut profile, &ids);
    assert_eq!(profile.active_media_id.as_deref(), Some("x"));
    assert_eq!(profile.playlist_ids, vec!["x", "b"]);
}

#[test]
fn sources_and_marker_are_named() {
    let sources = default_standalone_sources();
    assert_eq!(sources[0].1, "CodexBackgroundStudio");
    assert_eq!(sources.len(), 3);
    let marker = marker_value("2024-01-01T00:00:00Z", &vec!["codex".to_string()]);
    let text = background_studio::json::write_json(&marker);
    assert!(text.contains("2024-01-01T00:00:00Z"));
    assert!(text.contains("codex"));
    let stamped = background_studio::json::write_json(&migration_marker(&vec![]));
    assert!(stamped.contains('T'));
}
