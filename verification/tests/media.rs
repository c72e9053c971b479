use background_studio::media::{
    check_copy, check_dimensions, check_source, download_options, folder_display_name,
    import_without, local_options, media_type, resolve_folder_file, safe_display_name, CatalogRead,
    EntryKind, ExistingPlan, FileMeta, FolderRoot, FolderScan, FolderVerdict, IngestPlan,
    MediaLibrary, MediaPath, RefreshPlan, RemoteDownload, ResolvedMedia, SourceFile,
};
use background_studio::models::{ImportResult, MediaItem, MediaKind, MediaOrigin, SlideshowOrder};

fn minimal_png() -> Vec<u8> {
    vec![
        0x89, 0x50, 0x4E, 0x47, 0x0D, 0x0A, 0x1A, 0x0A, 0x00, 0x00, 0x00, 0x0D, 0x49, 0x48, 0x44,
        0x52, 0x00, 0x00, 0x00, 0x01, 0x00, 0x00, 0x00, 0x01, 0x08, 0x06, 0x00, 0x00, 0x00, 0x1F,
        0x15, 0xC4, 0x89, 0x00, 0x00, 0x00, 0x0A, 0x49, 0x44, 0x41, 0x54, 0x78, 0x9C, 0x63, 0x00,
        0x01, 0x00, 0x00, 0x05, 0x00, 0x01, 0x0D, 0x0A, 0x2D, 0xB4, 0x00, 0x00, 0x00, 0x00, 0x49,
        0x45, 0x4E, 0x44, 0xAE, 0x42, 0x60, 0x82,
    ]
}

fn source(name: &str, content: Vec<u8>) -> SourceFile {
    SourceFile {
        file_name: Some(name.to_string()),
        metadata: Ok(FileMeta {
            is_file: true,
            byte_size: content.len() as u64,
        }),
        content: Ok(content),
    }
}

fn empty_library() -> MediaLibrary {
    MediaLibrary::load(CatalogRead::Missing).0
}

fn import(library: &mut MediaLibrary, name: &str, content: Vec<u8>) -> ImportResult {
    let mut result = ImportResult::default();
    let plan = library.begin_ingest(&source(name, content), &local_options());
    library.import_files(&mut result, name, plan, Ok(()));
    result
}

fn refused<T>(r: Result<T, String>) -> String {
    match r {
        Ok(_) => panic!("not refused"),
        Err(message) => message,
    }
}

#[test]
fn imports_deduplicates_and_removes_media() {
    let mut library = empty_library();
    let first = import(&mut library, "中文背景.png", minimal_png());
    let duplicate = import(&mut library, "中文背景.png", minimal_png());
    assert_eq!(first.added.len(), 1);
    assert_eq!(first.added[0].name, "中文背景.png");
    assert_eq!(first.added[0].byte_size, 67);
    assert!(duplicate.added.is_empty());
    assert_eq!(duplicate.skipped[0].reason, "媒体已存在");
    let id = first.added[0].id.clone();
    assert_eq!(
        library.plan_removal(&id).unwrap(),
        Some(Some(format!("{id}.png")))
    );
    assert!(library.remove(&id, Ok(())).unwrap());
    assert!(library.items().is_empty());
    assert!(!library.remove(&id, Ok(())).unwrap());
}

#[test]
fn digest_of_a_file_is_stored() {
    let checked = check_source(".png", &source("a.png", minimal_png())).ok().unwrap();
    assert_eq!(checked.sha256.len(), 64);
    let other = check_source(".gif", &source("a.gif", gif())).ok().unwrap();
    assert_ne!(checked.sha256, other.sha256);
}

fn gif() -> Vec<u8> {
    let mut data = b"GIF89a".to_vec();
    data.extend_from_slice(&[2, 0, 3, 0, 0, 0, 0]);
    data.extend_from_slice(&[0x2c, 0, 0, 0, 0, 2, 0, 3, 0, 0, 2, 1, 0, 0, 0x3b]);
    data
}

#[test]
fn imports_folder_as_path_reference_without_copying() {
    let mut library = empty_library();
    let files: Vec<String> = (0..3).map(|i| format!("/w/bg-{i}.png")).collect();
    let root = Ok(FolderRoot {
        path: "/w".to_string(),
        is_dir: true,
        name: Some("w".to_string()),
    });
    let plan = library.begin_folder("/w", &root, &Ok(files.clone()));
    let imported = library.import_folder(plan, files.clone(), 5, Ok(()));
    assert_eq!(imported.added.len(), 1);
    let item = imported.added[0].copy();
    assert_eq!(item.origin, MediaOrigin::Folder);
    assert_eq!(item.file_count, Some(3));
    assert_eq!(library.plan_removal(&item.id).unwrap(), Some(None));
    assert!(library.resolve_playback(&item).is_none());
    assert_eq!(library.folder_files_cached(&item.id, 5).unwrap(), files);
    let step = library
        .begin_resolve(&item.id, SlideshowOrder::Sequential, &files, 0)
        .ok()
        .unwrap();
    assert_eq!(step.path, "/w/bg-0.png");
    let probed = resolve_folder_file(&step.path, &source("bg-0.png", minimal_png()));
    match library.continue_resolve(
        &item.id,
        SlideshowOrder::Sequential,
        &files,
        0,
        step.kept,
        probed,
    ) {
        FolderVerdict::Done(Ok(media)) => {
            assert!(matches!(media.path, MediaPath::Listed(path) if path == "/w/bg-0.png"))
        }
        _ => panic!("not resolved"),
    }
    let again = library.begin_folder("/w", &root, &Ok(files.clone()));
    let twice = library.import_folder(again, files, 6, Ok(()));
    assert!(twice.added.is_empty());
    assert_eq!(twice.skipped.len(), 1);
    assert!(library.remove(&item.id, Ok(())).unwrap());
}

#[test]
fn folder_goes_round_in_order_and_elsewhere_at_random() {
    let mut library = empty_library();
    let files: Vec<String> = vec!["/w/a.png".to_string(), "/w/b.png".to_string()];
    let root = Ok(FolderRoot {
        path: "/w".to_string(),
        is_dir: true,
        name: None,
    });
    let plan = library.begin_folder("/w", &root, &Ok(files.clone()));
    let item = library.import_folder(plan, files.clone(), 0, Ok(())).added[0].copy();
    for expected in ["/w/b.png", "/w/a.png", "/w/b.png"] {
        assert!(library
            .advance_folder_cursor(&item, SlideshowOrder::Sequential, &files, 0)
            .unwrap()
            .is_none());
        let step = library
            .begin_resolve(&item.id, SlideshowOrder::Sequential, &files, 0)
            .ok()
            .unwrap();
        assert_eq!(step.path, expected);
    }
    let shown = ResolvedMedia {
        path: MediaPath::Listed("/w/a.png".to_string()),
        mime_type: "image/png".to_string(),
        byte_size: 67,
        kind: MediaKind::Image,
        sha256: "0".repeat(64),
    };
    library.finish_advance(&item.id, Ok(shown)).unwrap();
    let next = library
        .advance_folder_cursor(&item, SlideshowOrder::Random, &files, 4)
        .unwrap();
    assert_eq!(next.as_deref(), Some("/w/b.png"));
    assert_eq!(
        refused(library.advance_folder_cursor(
            &item,
            SlideshowOrder::Random,
            &Vec::new(),
            4
        )),
        "文件夹中没有支持的图片或视频。"
    );
}

#[test]
fn media_types_are_known_by_extension() {
    assert_eq!(media_type(".png").unwrap().mime_type, "image/png");
    assert_eq!(media_type(".mp4").unwrap().mime_type, "video/mp4");
    assert!(media_type(".exe").is_none());
}

#[test]
fn names_are_made_safe() {
    assert_eq!(safe_display_name("a/b:c.png").contains('/'), false);
    assert_eq!(safe_display_name("中文.png"), "中文.png");
    assert!(!safe_display_name("   ").is_empty());
    assert_eq!(folder_display_name(&Some("w".to_string()), 3).contains('3'), true);
}

#[test]
fn content_has_to_fit_the_extension() {
    let library = empty_library();
    let plan = library.begin_ingest(&source("a.png", gif()), &local_options());
    assert!(plan.is_err());
    let plan = library.begin_ingest(&source("a.exe", minimal_png()), &local_options());
    assert!(plan.is_err());
    let mut broken = source("a.png", minimal_png());
    broken.content = Err("gone".to_string());
    assert!(library.begin_ingest(&broken, &local_options()).is_err());
    let mut folder = source("a.png", minimal_png());
    folder.metadata = Ok(FileMeta { is_file: false, byte_size: 0 });
    assert!(library.begin_ingest(&folder, &local_options()).is_err());
    assert!(check_dimensions(Some((1, 1))).is_ok());
    assert!(check_dimensions(None).is_err());
    assert!(check_dimensions(Some((0, 1))).is_err());
}

#[test]
fn failed_store_leaves_the_library_as_it_was() {
    let mut library = empty_library();
    let plan = library
        .begin_ingest(&source("a.png", minimal_png()), &local_options())
        .ok()
        .unwrap();
    let item = match &plan {
        IngestPlan::Store(item) => item.copy(),
        IngestPlan::Duplicate(_) => panic!("not new"),
    };
    assert!(check_copy(&item, Ok(67)).is_ok());
    assert!(check_copy(&item, Ok(66)).is_err());
    assert_eq!(
        refused(library.finish_ingest(plan, Err("disk full".to_string()))),
        "disk full"
    );
    assert!(library.items().is_empty());
}

#[test]
fn stored_catalogue_reads_back() {
    let mut library = empty_library();
    import(&mut library, "a.png", minimal_png());
    import(&mut library, "b.gif", gif());
    let stored = library.catalog();
    let (again, set_aside) = MediaLibrary::load(CatalogRead::Text(stored.clone()));
    assert!(!set_aside);
    assert_eq!(again.catalog(), stored);
    assert_eq!(again.items().len(), 2);
    assert_eq!(again.items()[0].name, "b.gif");
    let (blank, set_aside) = MediaLibrary::load(CatalogRead::Text("{".to_string()));
    assert!(set_aside);
    assert!(blank.items().is_empty());
    let (_, set_aside) = MediaLibrary::load(CatalogRead::Unreadable);
    assert!(set_aside);
}

#[test]
fn managed_files_are_resolved_by_name() {
    let mut library = empty_library();
    let item = import(&mut library, "a.png", minimal_png()).added[0].copy();
    assert_eq!(library.path_for(&item).unwrap(), format!("{}.png", item.id));
    let media = library.resolve_playback(&item).unwrap().ok().unwrap();
    assert!(matches!(media.path, MediaPath::Managed(name) if name == format!("{}.png", item.id)));
    let mut outside = item.copy();
    outside.file_name = "../x.png".to_string();
    assert!(library.path_for(&outside).is_err());
}

fn download(name: &str, content: &[u8]) -> RemoteDownload {
    RemoteDownload {
        original_name: name.to_string(),
        source_url: "https://cdn.example.com/pick".to_string(),
        mime_type: "image/png".to_string(),
        kind: MediaKind::Image,
        byte_size: content.len() as u64,
    }
}

#[test]
fn download_is_imported_and_refreshed() {
    let mut library = empty_library();
    let fetched = download("pick.png", &minimal_png());
    let options = download_options("https://api.example.com/random", true, &fetched);
    assert_eq!(options.origin, MediaOrigin::Api);
    let plan = library.begin_ingest(&source("pick.png", minimal_png()), &options);
    let result = library.import_download("https://api.example.com/random", plan, Ok(()));
    let item = result.added[0].copy();
    assert_eq!(item.source_url.as_deref(), Some("https://api.example.com/random"));

    let same = library
        .plan_refresh(&item.id, &fetched, &source("pick.png", minimal_png()))
        .ok()
        .unwrap();
    assert!(matches!(same, RefreshPlan::Unchanged(_)));

    let mut changed = minimal_png();
    changed.push(0);
    let fetched = download("other.png", &changed);
    let plan = library
        .plan_refresh(&item.id, &fetched, &source("other.png", changed))
        .ok()
        .unwrap();
    let updated = library.refresh_with_download(plan, Ok(()), Ok(())).ok().unwrap();
    assert_eq!(updated.id, item.id);
    assert_eq!(updated.byte_size, 68);
    assert_ne!(updated.sha256, item.sha256);
    assert_eq!(library.items().len(), 1);
    let failed = import_without("u", "r".to_string());
    assert_eq!(failed.skipped[0].reason, "r");
}

#[test]
fn scan_finds_media_below_a_folder() {
    let mut scan = FolderScan::new("/w".to_string());
    assert_eq!(scan.next_directory().as_deref(), Some("/w"));
    scan.add_entry("/w/b.png".to_string(), EntryKind::File).unwrap();
    scan.add_entry("/w/sub".to_string(), EntryKind::Directory).unwrap();
    scan.add_entry("/w/notes.txt".to_string(), EntryKind::File).unwrap();
    scan.add_entry("/w/link.png".to_string(), EntryKind::Link).unwrap();
    assert_eq!(scan.next_directory().as_deref(), Some("/w/sub"));
    scan.add_entry("/w/sub/a.MP4".to_string(), EntryKind::File).unwrap();
    assert_eq!(scan.next_directory(), None);
    assert_eq!(scan.finish(), vec!["/w/b.png", "/w/sub/a.MP4"]);
}

#[test]
fn existing_file_is_adopted_once() {
    let mut library = empty_library();
    let item = MediaItem {
        id: "old".to_string(),
        name: "old.png".to_string(),
        kind: MediaKind::Image,
        origin: MediaOrigin::Local,
        file_name: "old.png".to_string(),
        mime_type: "image/png".to_string(),
        byte_size: 67,
        sha256: "d".repeat(64),
        source_url: None,
        file_count: None,
        created_at: "2024-01-01T00:00:00Z".to_string(),
        preview_url: None,
    };
    let plan = library.plan_existing(&item, false);
    assert!(matches!(plan, ExistingPlan::Copy(_)));
    let taken = library.import_existing_file(plan, Ok(()), Ok(())).ok().unwrap();
    assert_eq!(taken.id, "old");
    let again = library.plan_existing(&item, false);
    assert!(matches!(again, ExistingPlan::Known(_)));
    assert_eq!(library.items().len(), 1);
}

#[test]
fn second_import_leaves_out_what_is_there() {
    let mut library = empty_library();
    for (name, content) in [("a.png", minimal_png()), ("b.txt", b"x".to_vec())] {
        import(&mut library, name, content);
    }
    let before = library.catalog();
    let known = import(&mut library, "a.png", minimal_png());
    let refused = import(&mut library, "b.txt", b"x".to_vec());
    assert!(known.added.is_empty() && refused.added.is_empty());
    assert_eq!(known.skipped[0].reason, "媒体已存在");
    assert_eq!(refused.skipped[0].reason, "不支持此图片或视频格式。");
    assert_eq!(library.catalog(), before);
}

#[test]
fn random_choice_stays_until_the_next_one() {
    let mut library = empty_library();
    let files: Vec<String> = vec!["/w/a.png".to_string(), "/w/b.png".to_string()];
    let shown = ResolvedMedia {
        path: MediaPath::Listed("/w/b.png".to_string()),
        mime_type: "image/png".to_string(),
        byte_size: 67,
        kind: MediaKind::Image,
        sha256: "0".repeat(64),
    };
    library.finish_advance("f", Ok(shown)).unwrap();
    for seed in [0, 1, 2, 3] {
        let step = library
            .begin_resolve("f", SlideshowOrder::Random, &files, seed)
            .ok()
            .unwrap();
        assert_eq!(step.path, "/w/b.png");
        assert!(step.kept);
    }
}
