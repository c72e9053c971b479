use background_studio::host_update::{
    current_version, fetch_latest_host_release, format_github_api_error, github_api_get,
    github_route, host_release_path, installer_of, needs_release, plan_update, read_http_reply,
    read_program_reply, reject_rate_limit_payload, settle_update, version_newer, GithubReply,
    GithubRoute, HostReleaseInfo,
};
use background_studio::json::parse_json;

fn refused<T>(r: Result<T, String>) -> String {
    match r {
        Ok(_) => panic!("not refused"),
        Err(message) => message,
    }
}

#[test]
fn compares_semver_prereleases_correctly() {
    assert!(version_newer("0.5.4-beta.1", "0.5.3"));
    assert!(version_newer("0.5.4", "0.5.4-beta.1"));
    assert!(version_newer("0.5.4-beta.2", "0.5.4-beta.1"));
    assert!(!version_newer("0.5.4-beta.1", "0.5.4"));
    assert!(!version_newer("not-a-version", "0.5.4"));
}

#[test]
fn maps_rate_limit_to_chinese_hint() {
    let message =
        format_github_api_error(403, r#"{"message":"API rate limit exceeded for 1.2.3.4."}"#);
    assert!(message.contains("限流"));
    assert!(message.contains("检查更新"));
    assert!(message.contains("gh auth login"));
}

#[test]
fn maps_404_to_missing_release() {
    let message = format_github_api_error(404, r#"{"message":"Not Found"}"#);
    assert!(message.contains("找不到最新 Release"));
}

#[test]
fn tags_do_not_count_in_versions() {
    assert!(version_newer("v1.2.0", "1.1.9"));
    assert!(!version_newer("v1.2.0", "1.2.0"));
    assert!(!version_newer("1.2.0", "1.2.0"));
}

#[test]
fn replies_are_read() {
    assert_eq!(
        read_http_reply(200, r#"{"tag_name":"v1"}"#)
            .unwrap()
            .get_str("tag_name")
            .unwrap(),
        "v1"
    );
    assert!(refused(read_http_reply(403, r#"{"message":"API rate limit exceeded"}"#)).contains("限流"));
    assert!(refused(read_http_reply(200, "{")).len() > 0);
    assert!(read_program_reply(true, r#"{"a":1}"#, "").is_ok());
    assert!(read_program_reply(false, "", "gh: Not Found (HTTP 404)").is_err());
    let limited = parse_json(r#"{"message":"API rate limit exceeded for x"}"#).unwrap();
    assert!(reject_rate_limit_payload(&limited, "").is_err());
    assert!(reject_rate_limit_payload(&parse_json("{}").unwrap(), "{}").is_ok());
}

#[test]
fn release_is_read_from_the_reply() {
    let reply = parse_json(
        r#"{"tag_name":"v9.9.9","html_url":"https://x/y","assets":[
            {"name":"notes.txt","browser_download_url":"u0"},
            {"name":"Background.Studio_9.9.9_x64-setup.exe","browser_download_url":"u1"}]}"#,
    );
    let release = fetch_latest_host_release(reply).ok().unwrap();
    assert_eq!(release.latest_version.as_deref(), Some("9.9.9"));
    assert_eq!(
        release.asset_name.as_deref(),
        Some("Background.Studio_9.9.9_x64-setup.exe")
    );
    assert_eq!(release.download_url.as_deref(), Some("u1"));
    assert!(host_release_path().contains("background-studio"));
    assert!(!needs_release(&release));
    assert_eq!(
        installer_of(&release).unwrap().0,
        "Background.Studio_9.9.9_x64-setup.exe"
    );
    assert_eq!(plan_update(&release).unwrap().1, "u1");
}

fn blank() -> HostReleaseInfo {
    HostReleaseInfo {
        latest_version: None,
        asset_name: None,
        release_url: None,
        download_url: None,
    }
}

#[test]
fn update_errors_are_named() {
    assert_eq!(refused(installer_of(&blank())), "请先检查更新。");
    let mut release = blank();
    release.asset_name = Some("a.exe".to_string());
    assert!(needs_release(&release));
    assert_eq!(refused(installer_of(&release)), "最新版没有可下载的安装包。");
    assert_eq!(refused(plan_update(&release)), "找不到壳安装包下载地址。");
    release.download_url = Some("u".to_string());
    assert_eq!(refused(plan_update(&release)), "当前已是最新版本。");
    release.latest_version = Some(current_version());
    assert_eq!(refused(plan_update(&release)), "当前已是最新版本。");
    assert_eq!(
        settle_update(&release, true).unwrap(),
        ("a.exe".to_string(), "u".to_string())
    );
    release.asset_name = None;
    assert_eq!(refused(settle_update(&release, true)), "找不到壳安装包文件名。");
}

#[test]
fn signed_in_program_is_asked_first() {
    assert_eq!(github_route(true), GithubRoute::Program);
    assert_eq!(github_route(false), GithubRoute::Http);
    let failed = GithubReply::Program(false, String::new(), "no network".to_string());
    assert_eq!(refused(github_api_get(failed)), "gh api 失败：no network");
    let found = GithubReply::Http(200, r#"{"tag_name":"v1"}"#.to_string());
    assert_eq!(github_api_get(found).unwrap().get_str("tag_name").unwrap(), "v1");
}
