use background_studio::catalog::PluginDef;
use background_studio::host_core::{
    needed_params, plugin_command, reconfigure, settings_schema, CommandRoute, HostCore, PluginCall,
    RefreshRoute, SlideshowStep,
};
use background_studio::json::{parse_json, Json};
use background_studio::manifest::{parse_manifest, PluginManifest};
use background_studio::media::{
    local_options, CatalogRead, FileMeta, FolderRoot, MediaLibrary, SourceFile,
};
use background_studio::media_server::{MediaServer, ServedEntry};
use background_studio::models::{ImportResult, MediaItem, SlideshowOrder};
use background_studio::plugins::{PluginFacts, PluginManager};
use background_studio::profile::{normalize_profile, ProfilePatch};

fn minimal_png() -> Vec<u8> {
    vec![
        0x89, 0x50, 0x4E, 0x47, 0x0D, 0x0A, 0x1A, 0x0A, 0x00, 0x00, 0x00, 0x0D, 0x49, 0x48, 0x44,
        0x52, 0x00, 0x00, 0x00, 0x01, 0x00, 0x00, 0x00, 0x01, 0x08, 0x06, 0x00, 0x00, 0x00, 0x1F,
        0x15, 0xC4, 0x89, 0x00, 0x00, 0x00, 0x0A, 0x49, 0x44, 0x41, 0x54, 0x78, 0x9C, 0x63, 0x00,
        0x01, 0x00, 0x00, 0x05, 0x00, 0x01, 0x0D, 0x0A, 0x2D, 0xB4, 0x00, 0x00, 0x00, 0x00, 0x49,
        0x45, 0x4E, 0x44, 0xAE, 0x42, 0x60, 0x82,
    ]
}

fn plugin() -> PluginDef {
    PluginDef {
        id: "codex".to_string(),
        display_name: "Codex".to_string(),
        owner: "o".to_string(),
        repo: "r".to_string(),
        asset_prefix: "P-".to_string(),
        exe_name: "e.exe".to_string(),
        pipe_name: "p".to_string(),
        target_hint: String::new(),
        icon: None,
    }
}

fn manifest(protocol: u32, properties: &str) -> PluginManifest {
    parse_manifest(&format!(
        r#"{{"schemaVersion":1,"pluginProtocol":{protocol},"id":"codex","displayName":"Codex","exeName":"Codex.exe","pipeName":"\\\\.\\pipe\\background-studio-codex","capabilities":{{"maxMediaBytes":1000}},"settingsSchema":{{"type":"object","properties":{properties}}}}}"#
    ))
    .ok()
    .unwrap()
}

fn add(library: &mut MediaLibrary, name: &str, extra: u8) -> MediaItem {
    let mut content = minimal_png();
    content.push(extra);
    let source = SourceFile {
        file_name: Some(name.to_string()),
        metadata: Ok(FileMeta {
            is_file: true,
            byte_size: content.len() as u64,
        }),
        content: Ok(content),
    };
    let mut result = ImportResult::default();
    let plan = library.begin_ingest(&source, &local_options());
    library.import_files(&mut result, name, plan, Ok(()));
    result.added[0].copy()
}

fn host() -> (HostCore, Vec<MediaItem>) {
    let mut plugins = PluginManager::load(vec![plugin()], None).ok().unwrap();
    plugins.finish_install("codex", "1.0.0");
    let mut library = MediaLibrary::load(CatalogRead::Missing).0;
    let items = vec![
        add(&mut library, "a.png", 1),
        add(&mut library, "b.png", 2),
        add(&mut library, "c.png", 3),
    ];
    let mut core = HostCore::new(plugins, library, MediaServer::with_token(9, "f".repeat(64)));
    core.put_profile(
        "codex",
        normalize_profile(&parse_json("{}").unwrap()),
    );
    (core, items)
}

fn hello(protocol: u32) -> Result<Json, String> {
    parse_json(&format!(
        r#"{{"pluginProtocol":{protocol},"pluginId":"codex","version":"1.0.0","capabilities":{{"maxMediaBytes":50,"hotUpdate":true}}}}"#
    ))
}

fn ids(items: &[MediaItem]) -> Vec<String> {
    items.iter().map(|item| item.id.clone()).collect()
}

#[test]
fn first_protocol_gets_neither_greeting_nor_media() {
    let (core, _) = host();
    assert_eq!(core.runtime_protocol("codex", None), 1);
    assert!(!core.speaks_configure("codex", None));
    assert!(!core.speaks_configure("codex", Some(&manifest(1, "{}"))));
    assert!(core.speaks_configure("codex", Some(&manifest(2, "{}"))));
    assert!(!core.needs_reconfigure("codex", None, true));
    assert!(core.needs_reconfigure("codex", Some(&manifest(2, "{}")), true));
    assert!(!core.needs_reconfigure("codex", Some(&manifest(2, "{}")), false));
}

#[test]
fn greeting_is_checked_and_kept() {
    let (mut core, _) = host();
    assert_eq!(
        core.accept_hello("codex", Err("超时".to_string())).err().unwrap(),
        "插件 codex hello 失败：超时"
    );
    assert_eq!(
        core.accept_hello("notion", hello(2)).err().unwrap(),
        "hello.pluginId=codex 与宿主插件 notion 不一致。"
    );
    assert!(core.accept_hello("codex", hello(1)).is_err());
    assert_eq!(core.max_media_bytes("codex", None), 67108864);
    assert_eq!(core.max_media_bytes("codex", Some(&manifest(2, "{}"))), 1000);
    core.accept_hello("codex", hello(2)).unwrap();
    assert_eq!(core.runtime_protocol("codex", None), 2);
    assert_eq!(core.max_media_bytes("codex", None), 50);
    assert_eq!(
        core.capabilities("codex", None),
        vec!["hotUpdate", "maxMediaBytes"]
    );
    core.set_enabled("codex", false).unwrap();
    assert_eq!(core.runtime_protocol("codex", None), 1);
    core.accept_hello("codex", hello(2)).unwrap();
    core.forget_plugin("codex");
    assert_eq!(core.runtime_protocol("codex", None), 1);
}

#[test]
fn commands_are_routed() {
    assert_eq!(plugin_command("apply"), Ok(CommandRoute::Apply));
    for cmd in ["shutdown", "quit-keep-target", "pause", "restore", "status", "hello"] {
        assert_eq!(plugin_command(cmd), Ok(CommandRoute::Forward));
    }
    assert_eq!(
        plugin_command("open-ui").err().unwrap(),
        "请在壳内打开插件详情，不再调用 open-ui。"
    );
    assert_eq!(plugin_command("rm").err().unwrap(), "未知命令：rm");
    assert_eq!(needed_params(None).err().unwrap(), "请先选择要应用的媒体。");
    assert!(matches!(reconfigure(None), PluginCall::Restore));
    assert!(matches!(reconfigure(Some(Json::Null)), PluginCall::Configure(_)));
}

#[test]
fn media_is_sent_to_the_plugin() {
    let (mut core, items) = host();
    let found = manifest(
        2,
        r#"{"opacity":{"type":"number","title":"o","minimum":0,"maximum":0.5}}"#,
    );
    assert!(core.active_media("codex").unwrap().is_none());
    assert_eq!(
        core.active_media("other").err().unwrap(),
        "插件 other 没有 Profile。"
    );
    core.set_active_media("codex", Some(items[0].id.clone())).unwrap();
    let (item, _) = core.active_media("codex").unwrap().unwrap();
    let media = core.library.resolve_playback(&item).unwrap().ok().unwrap();
    assert_eq!(
        core.build_configure("codex", &item.id, media.copy(), Some(&found))
            .unwrap()
            .err()
            .unwrap(),
        "媒体服务未能为当前媒体生成回环 URL。"
    );
    core.media_server.sync(&vec![ServedEntry {
        id: item.id.clone(),
        media: Some(media.copy()),
        path: "/d/a.png".to_string(),
    }]);
    let params = core
        .build_configure("codex", &item.id, media.copy(), Some(&found))
        .unwrap()
        .unwrap();
    let sent = params.get("media").unwrap();
    assert_eq!(sent.get_str("url").unwrap(), &core.media_server.url_for(&item.id).unwrap());
    assert_eq!(sent.get_str("kind").unwrap(), "image");
    assert_eq!(sent.get("byteSize").unwrap().as_u64(), Some(68));
    let opacity = params.get("display").unwrap().get("opacity").unwrap();
    assert_eq!(f64::from_bits(opacity.as_double().unwrap().bits()), 0.5);

    core.accept_hello("codex", hello(2)).unwrap();
    assert_eq!(
        core.build_configure("codex", &item.id, media.copy(), Some(&found))
            .unwrap()
            .err()
            .unwrap(),
        "当前插件最多接收 0 MiB 的单个媒体，所选文件为 1 MiB。"
    );
    let broken = manifest(2, r#"{"a":{"type":"number","title":"a","minimum":5,"maximum":1}}"#);
    core.forget_plugin("codex");
    assert!(core.build_configure("codex", &item.id, media, Some(&broken)).is_none());
}

#[test]
fn profile_changes_are_checked() {
    let (mut core, items) = host();
    assert_eq!(
        core.set_active_media("codex", Some("x".to_string())).err().unwrap(),
        "媒体不存在。"
    );
    let patch = ProfilePatch {
        active_media_id: Some(Some("x".to_string())),
        ..ProfilePatch::default()
    };
    assert_eq!(
        core.update_profile("codex", patch, None).unwrap().err().unwrap(),
        "当前媒体不存在。"
    );
    let patch = ProfilePatch {
        playlist_ids: Some(vec![items[0].id.clone(), "x".to_string()]),
        ..ProfilePatch::default()
    };
    assert_eq!(
        core.update_profile("codex", patch, None).unwrap().err().unwrap(),
        "轮播列表包含不存在的媒体。"
    );
    let patch = ProfilePatch {
        playlist_ids: Some(ids(&items)),
        ..ProfilePatch::default()
    };
    assert!(core.update_profile("codex", patch, None).unwrap().is_ok());
    assert_eq!(core.profile("codex").unwrap().playlist_ids, ids(&items));
    assert_eq!(
        core.update_profile("other", ProfilePatch::default(), None)
            .unwrap()
            .err()
            .unwrap(),
        "插件 other 没有 Profile。"
    );
    assert!(core.lacks_profile("other"));
}

#[test]
fn removed_media_leaves_every_profile() {
    let (mut core, items) = host();
    let list = ids(&items);
    core.set_active_media("codex", Some(list[0].clone())).unwrap();
    let patch = ProfilePatch {
        playlist_ids: Some(list.clone()),
        ..ProfilePatch::default()
    };
    core.update_profile("codex", patch, None).unwrap().unwrap();
    assert_eq!(core.affected_by(&list[0]), vec!["codex"]);
    assert!(core.affected_by("x").is_empty());
    assert!(core.drop_media("codex", &list[0]));
    assert!(!core.drop_media("other", &list[0]));
    let profile = core.profile("codex").unwrap();
    assert_eq!(profile.active_media_id.as_deref(), Some(list[1].as_str()));
    assert_eq!(profile.playlist_ids, list[1..].to_vec());
    assert!(core.affected_by(&list[0]).is_empty());
}

#[test]
fn slideshow_goes_on_in_its_time() {
    let (mut core, items) = host();
    let list = ids(&items);
    let found = manifest(2, "{}");
    core.put_profile(
        "codex",
        normalize_profile(
            &parse_json(&format!(
                r#"{{"activeMediaId":"{}","playlistIds":["{}","{}","{}"],"slideshow":{{"enabled":true,"intervalSeconds":60}}}}"#,
                list[2], list[0], list[1], list[2]
            ))
            .unwrap(),
        ),
    );
    assert!(core.runs_slideshow("codex", Some(&found)));
    assert!(!core.runs_slideshow("codex", None));
    assert!(!core.slideshow_due("codex", 1000, true));
    assert!(!core.slideshow_due("codex", 60_999, true));
    assert!(!core.slideshow_due("codex", 61_000, false));
    assert!(core.slideshow_due("codex", 61_000, true));
    assert!(!core.slideshow_due("codex", 61_001, true));
    assert!(matches!(core.advance_slideshow("codex", 0), Ok(SlideshowStep::Moved)));
    assert_eq!(
        core.profile("codex").unwrap().active_media_id.as_deref(),
        Some(list[0].as_str())
    );
    assert!(core.advance_slideshow("other", 0).is_err());
    assert!(!core.applies_again("codex"));
    core.note_apply("codex", &parse_json(r#"{"phase":"active"}"#).unwrap());
    assert!(core.applies_again("codex"));
}

#[test]
fn random_slideshow_never_stays() {
    let (mut core, items) = host();
    let list = ids(&items);
    for seed in 0..12 {
        core.put_profile(
            "codex",
            normalize_profile(
                &parse_json(&format!(
                    r#"{{"activeMediaId":"{}","playlistIds":["{}","{}","{}"],"slideshow":{{"order":"random"}}}}"#,
                    list[1], list[0], list[1], list[2]
                ))
                .unwrap(),
            ),
        );
        assert!(matches!(core.advance_slideshow("codex", seed), Ok(SlideshowStep::Moved)));
        assert_ne!(
            core.profile("codex").unwrap().active_media_id.as_deref(),
            Some(list[1].as_str())
        );
    }
}

#[test]
fn single_items_stay_and_folders_advance() {
    let (mut core, items) = host();
    core.set_active_media("codex", Some(items[0].id.clone())).unwrap();
    assert!(matches!(core.advance_slideshow("codex", 0), Ok(SlideshowStep::Stay)));
    let files = vec!["/w/a.png".to_string()];
    let root = Ok(FolderRoot {
        path: "/w".to_string(),
        is_dir: true,
        name: None,
    });
    let plan = core.library.begin_folder("/w", &root, &Ok(files.clone()));
    let folder = core.library.import_folder(plan, files, 0, Ok(())).added[0].copy();
    core.set_active_media("codex", Some(folder.id.clone())).unwrap();
    assert!(matches!(
        core.advance_slideshow("codex", 0),
        Ok(SlideshowStep::Advance(_, SlideshowOrder::Sequential))
    ));
    assert!(matches!(
        core.refresh_media("codex", &folder.id),
        Ok(RefreshRoute::Advance(_, SlideshowOrder::Sequential))
    ));
    assert_eq!(
        core.refresh_media("codex", &items[0].id).err().unwrap(),
        "只有文件夹源或随机 API 可以刷新。"
    );
    assert_eq!(core.refresh_media("codex", "x").err().unwrap(), "媒体项目不存在。");
    assert!(matches!(core.order_for(&folder.id), SlideshowOrder::Sequential));
}

#[test]
fn detail_shows_one_plugin() {
    let (mut core, items) = host();
    core.set_active_media("codex", Some(items[0].id.clone())).unwrap();
    let found = manifest(2, "{}");
    let facts = vec![PluginFacts {
        running: true,
        status: parse_json(r#"{"phase":"active","message":"m"}"#),
        manifest: Some(manifest(2, "{}")),
        icon_path: None,
    }];
    let mut snapshot = core.plugins.snapshot(&facts, "/d", None);
    core.note_snapshot(&mut snapshot, &vec![None]);
    assert_eq!(snapshot.plugins[0].plugin_protocol, 1);
    assert!(core.applies_again("codex"));
    let detail = core
        .plugin_detail("codex", &snapshot.plugins, Some(&found), Vec::new())
        .unwrap()
        .ok()
        .unwrap();
    assert_eq!(detail.plugin.id, "codex");
    assert_eq!(detail.library.len(), 3);
    assert_eq!(detail.plugin_protocol, 2);
    assert_eq!(detail.preview_url, None);
    assert_eq!(
        core.plugin_detail("x", &snapshot.plugins, None, Vec::new())
            .unwrap()
            .err()
            .unwrap(),
        "未知插件：x"
    );
}

#[test]
fn settings_follow_the_schema_of_the_plugin() {
    let (mut core, _) = host();
    let found = manifest(2, r#"{"glow":{"type":"boolean","title":"g","default":true}}"#);
    assert_eq!(core.normalize_profile_for_plugin("codex", Some(&found)), Some(Ok(true)));
    assert_eq!(core.normalize_profile_for_plugin("codex", Some(&found)), Some(Ok(false)));
    assert_eq!(
        core.profile("codex").unwrap().display.get("glow").unwrap().as_bool(),
        Some(true)
    );
    assert!(core.profile("codex").unwrap().display.get("opacity").is_none());
    assert!(settings_schema(None).get("properties").is_some());
    assert!(core.normalize_profile_for_plugin("x", None).unwrap().is_err());
    core.note_slideshow("codex", 5);
    assert!(!core.runs_slideshow("codex", Some(&found)));
}
