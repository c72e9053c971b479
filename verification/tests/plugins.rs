use background_studio::catalog::PluginDef;
use background_studio::json::parse_json;
use background_studio::manifest::{parse_manifest, PluginManifest};
use background_studio::plugins::{
    check_archive, check_entry, check_package, detect_standalone_warning, ended_early,
    graceful_pipe, install_dir, plugin_release_path, select_plugin_asset, standalone_names,
    wait_until_ready, PluginFacts, PluginManager, ReadyStep,
};
use background_studio::proxy::{ProxyMode, ProxySettings};

fn plugin() -> PluginDef {
    PluginDef {
        id: "codex".to_string(),
        display_name: "Codex".to_string(),
        owner: "background-studio".to_string(),
        repo: "codex_desktop_background".to_string(),
        asset_prefix: "CodexBackgroundStudio-".to_string(),
        exe_name: "Codex Background Studio.exe".to_string(),
        pipe_name: r"\\.\pipe\background-studio-codex-v1".to_string(),
        target_hint: String::new(),
        icon: None,
    }
}

fn manifest(protocol: u32) -> PluginManifest {
    parse_manifest(&format!(
        r#"{{"schemaVersion":1,"pluginProtocol":{protocol},"id":"codex","displayName":"Codex","exeName":"Codex.exe","pipeName":"\\\\.\\pipe\\background-studio-codex","capabilities":{{"hotUpdate":true}},"settingsSchema":{{"type":"object","properties":{{}}}}}}"#
    ))
    .ok()
    .unwrap()
}

fn manager() -> PluginManager {
    PluginManager::load(vec![plugin()], None).ok().unwrap()
}

fn refused<T>(r: Result<T, String>) -> String {
    match r {
        Ok(_) => panic!("not refused"),
        Err(message) => message,
    }
}

#[test]
fn stable_channel_reads_latest_release_object() {
    let value = parse_json(
        r#"{
            "tag_name": "v0.5.4",
            "assets": [{ "name": "CodexBackgroundStudio-0.5.4-plugin.zip" }]
        }"#,
    )
    .unwrap();
    assert_eq!(
        select_plugin_asset(&plugin(), &value, false).unwrap(),
        (
            "0.5.4".to_string(),
            "CodexBackgroundStudio-0.5.4-plugin.zip".to_string()
        )
    );
}

#[test]
fn prerelease_channel_ignores_stable_and_draft_releases() {
    let value = parse_json(
        r#"[
            {
                "tag_name": "v0.5.4",
                "draft": false,
                "prerelease": false,
                "assets": [{ "name": "CodexBackgroundStudio-0.5.4-plugin.zip" }]
            },
            {
                "tag_name": "v0.5.5-beta.2",
                "draft": true,
                "prerelease": true,
                "assets": [{ "name": "CodexBackgroundStudio-0.5.5-beta.2-plugin.zip" }]
            },
            {
                "tag_name": "v0.5.5-beta.1",
                "draft": false,
                "prerelease": true,
                "assets": [{ "name": "CodexBackgroundStudio-0.5.5-beta.1-plugin.zip" }]
            }
        ]"#,
    )
    .unwrap();
    assert_eq!(
        select_plugin_asset(&plugin(), &value, true).unwrap().0,
        "0.5.5-beta.1"
    );
}

#[test]
fn release_paths_follow_the_channel() {
    assert!(plugin_release_path(&plugin(), false).contains("releases/latest"));
    assert!(!plugin_release_path(&plugin(), true).contains("latest"));
    assert!(select_plugin_asset(&plugin(), &parse_json("{}").unwrap(), false).is_err());
    assert!(select_plugin_asset(&plugin(), &parse_json("[]").unwrap(), true).is_err());
}

#[test]
fn install_and_uninstall_change_the_record() {
    let mut manager = manager();
    assert!(!manager.is_enabled("codex"));
    assert_eq!(refused(manager.set_enabled("codex", true)), "请先安装插件。");
    assert!(manager.plan_install("codex").is_err());
    manager.record_latest(
        "codex",
        Ok(("0.5.4".to_string(), "CodexBackgroundStudio-0.5.4-plugin.zip".to_string())),
    );
    assert!(manager.knows_latest("codex"));
    let plan = manager.plan_install("codex").ok().unwrap();
    assert_eq!(plan.version, "0.5.4");
    assert!(plan.download_url.ends_with("CodexBackgroundStudio-0.5.4-plugin.zip"));
    manager.finish_install("codex", "0.5.4");
    assert!(manager.is_enabled("codex"));
    assert_eq!(manager.enabled_ids(), vec!["codex"]);
    assert_eq!(manager.installed_version("codex").as_deref(), Some("0.5.4"));
    manager.set_enabled("codex", false).unwrap();
    assert!(!manager.is_enabled("codex"));
    manager.uninstall("codex");
    assert_eq!(manager.installed_version("codex"), None);
    assert!(manager.plan_install("other").is_err());
    assert_eq!(
        install_dir("codex", "0.5.4"),
        vec!["plugins", "codex", "0.5.4"]
    );
}

#[test]
fn stored_state_reads_back() {
    let mut manager = manager();
    manager.finish_install("codex", "0.5.4");
    manager.set_autostart(true, false);
    manager.set_proxy(ProxySettings {
        mode: ProxyMode::Custom,
        url: " http://127.0.0.1:7890 ".to_string(),
    });
    let stored = manager.state_to_save();
    let again = PluginManager::load(vec![plugin()], Some(Ok(stored.clone()))).ok().unwrap();
    assert_eq!(again.state_to_save(), stored);
    assert!(again.state().auto_start_with_windows);
    assert_eq!(again.proxy_settings().url, "http://127.0.0.1:7890");
    assert!(PluginManager::load(vec![plugin()], Some(Ok("[".to_string()))).is_err());
}

#[test]
fn manifest_decides_pipe_and_program() {
    let manager = manager();
    assert_eq!(
        manager.pipe_name("codex", Some(&manifest(2))).unwrap(),
        r"\\.\pipe\background-studio-codex"
    );
    assert_eq!(
        manager.pipe_name("codex", None).unwrap(),
        r"\\.\pipe\background-studio-codex-v1"
    );
    assert_eq!(manager.exe_name("codex", Some(&manifest(2))).as_deref(), Some("Codex.exe"));
    assert_eq!(
        manager.exe_name("codex", None).as_deref(),
        Some("Codex Background Studio.exe")
    );
    assert!(manager.pipe_name("other", None).is_err());
    assert!(manager.definition("other").is_err());
    assert_eq!(
        graceful_pipe(Some(&manifest(2))).as_deref(),
        Some(r"\\.\pipe\background-studio-codex")
    );
    assert_eq!(graceful_pipe(Some(&manifest(1))), None);
    assert_eq!(graceful_pipe(None), None);
}

#[test]
fn packages_are_checked() {
    assert!(check_package("codex", "Codex.exe", &Ok(Some(manifest(2))), true).is_ok());
    assert!(check_package("notion", "Codex.exe", &Ok(Some(manifest(2))), true).is_err());
    assert!(check_package("codex", "Codex.exe", &Ok(Some(manifest(2))), false).is_err());
    assert!(check_package("codex", "Codex.exe", &Err("bad".to_string()), true).is_err());
    assert!(check_archive(128).is_ok());
    assert_eq!(refused(check_archive(129)), "插件包文件数超过 128 项上限。");
    let mib = 1024 * 1024;
    assert_eq!(check_entry(0, 128 * mib, true), Ok(128 * mib));
    assert_eq!(
        refused(check_entry(0, 128 * mib + 1, true)),
        "插件包中单个文件超过 128 MiB 上限。"
    );
    assert_eq!(
        refused(check_entry(200 * mib, 100 * mib, true)),
        "插件包解压后超过 256 MiB 上限。"
    );
    assert_eq!(refused(check_entry(u64::MAX, 1, true)), "插件包解压大小溢出。");
    assert_eq!(refused(check_entry(0, 1, false)), "插件包包含非法路径。");
}

#[test]
fn waiting_goes_on_until_the_time_is_over() {
    assert!(matches!(
        wait_until_ready(parse_json("{}"), true),
        ReadyStep::Ready(_)
    ));
    assert!(matches!(
        wait_until_ready(Err("no".to_string()), false),
        ReadyStep::Again(text) if text == "no"
    ));
    assert!(matches!(
        wait_until_ready(Err("no".to_string()), true),
        ReadyStep::Failed(text) if text == "插件在 8 秒内未就绪：no"
    ));
    assert_eq!(ended_early(None), "插件启动后意外退出：插件尚未创建控制管道。");
    assert_eq!(ended_early(Some("x")), "插件启动后意外退出：x");
}

#[test]
fn standalone_programs_are_warned_of() {
    assert_eq!(standalone_names().len(), 3);
    assert_eq!(detect_standalone_warning(&vec![]), None);
    assert_eq!(
        detect_standalone_warning(&vec!["A".to_string(), "B".to_string()]).unwrap(),
        "检测到独立版自启动：A、B。建议改用壳插件模式，避免双托盘。"
    );
}

#[test]
fn snapshot_shows_every_plugin() {
    let mut manager = manager();
    manager.finish_install("codex", "0.5.3");
    manager.record_latest("codex", Ok(("0.5.4".to_string(), "a.zip".to_string())));
    let facts = vec![PluginFacts {
        running: true,
        status: parse_json(r#"{"phase":"active","message":"已注入"}"#),
        manifest: Some(manifest(2)),
        icon_path: None,
    }];
    let snapshot = manager.snapshot(&facts, "/data", None);
    assert_eq!(snapshot.plugins.len(), 1);
    let card = &snapshot.plugins[0];
    assert_eq!(card.phase, "active");
    assert_eq!(card.status_message, "已注入");
    assert!(card.update_available);
    assert_eq!(card.plugin_protocol, 2);
    assert_eq!(card.capabilities, vec!["hotUpdate"]);
    assert_eq!(snapshot.data_directory, "/data");
    assert_eq!(snapshot.host_version, "0.1.3");
    let stopped = vec![PluginFacts {
        running: false,
        status: Err(String::new()),
        manifest: None,
        icon_path: None,
    }];
    let mut manager = PluginManager::load(vec![plugin()], None).ok().unwrap();
    manager.finish_install("codex", "0.5.3");
    manager.record_latest("codex", Err("limit".to_string()));
    let snapshot = manager.snapshot(&stopped, "/data", Some("w".to_string()));
    assert!(!snapshot.plugins[0].running);
    assert_eq!(snapshot.plugins[0].phase, "idle");
    assert_eq!(snapshot.plugins[0].status_message, "已启用");
    assert!(snapshot.warning.unwrap().starts_with("w 检查更新失败：Codex：limit"));
}

#[test]
fn state_may_be_a_list_of_its_fields() {
    let load = |text: &str| PluginManager::load(vec![plugin()], Some(Ok(text.to_string())));
    let read = load(r#"[[["codex",true,"1.2.3"]],true,false]"#).ok().unwrap();
    assert_eq!(read.installed_version("codex").as_deref(), Some("1.2.3"));
    assert!(read.state().auto_start_with_windows);
    let full = load(r#"[[["codex",true,null]],true,false,["off"]]"#).ok().unwrap();
    assert_eq!(full.installed_version("codex"), None);
    assert!(load(r#"[[["codex",true]],true,false]"#).is_err());
    assert!(load(r#"[[],true]"#).is_err());
    assert!(load(r#"[[],true,false,[],1]"#).is_err());
}
