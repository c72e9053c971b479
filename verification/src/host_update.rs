//! Releases of the host: what GitHub answers, and whether a version is newer.
use vstd::prelude::*;

use crate::json::{json_parsed, lemma_values_view, parse_json, values_view, Json, JsonV};
use crate::text::{
    contains_text, decimal, decimal_text, ends_with, has_part, has_prefix, has_suffix, lower,
    lower_text, opt_view, outcome, starts_with, trim, trimmed, untag, untagged,
};

verus! {

pub const HOST_OWNER: &'static str = "background-studio";

pub const HOST_REPO: &'static str = "background-studio";

/// What is known of the newest release of the host.
#[derive(Clone, Debug)]
pub struct HostReleaseInfo {
    pub latest_version: Option<String>,
    pub asset_name: Option<String>,
    pub release_url: Option<String>,
    pub download_url: Option<String>,
}

/// The model of a release.
pub struct ReleaseV {
    pub latest_version: Option<Seq<char>>,
    pub asset_name: Option<Seq<char>>,
    pub release_url: Option<Seq<char>>,
    pub download_url: Option<Seq<char>>,
}

impl View for HostReleaseInfo {
    type V = ReleaseV;

    open spec fn view(&self) -> ReleaseV {
        ReleaseV {
            latest_version: opt_view(self.latest_version),
            asset_name: opt_view(self.asset_name),
            release_url: opt_view(self.release_url),
            download_url: opt_view(self.download_url),
        }
    }
}

impl Default for HostReleaseInfo {
    fn default() -> (r: HostReleaseInfo)
        ensures
            r@ == (ReleaseV {
                latest_version: None,
                asset_name: None,
                release_url: None,
                download_url: None,
            }),
    {
        HostReleaseInfo {
            latest_version: None,
            asset_name: None,
            release_url: None,
            download_url: None,
        }
    }
}

/// The version of this host.
pub fn current_version() -> (r: String)
    ensures
        r@ == "0.1.3"@,
{
    "0.1.3".to_string()
}

// ---------------------------------------------------------------------------
// Versions
// ---------------------------------------------------------------------------

/// What `semver` makes of two texts: whether the first is the later version,
/// where both are versions.
pub uninterp spec fn version_order(latest: Seq<char>, current: Seq<char>) -> Option<bool>;

/// Outside function: `semver::Version::parse`, on both texts, and the order of
/// the two versions. No version is later than itself.
#[verifier::external_body]
fn later_version(latest: &str, current: &str) -> (r: Option<bool>)
    ensures
        r == version_order(latest@, current@),
        latest@ == current@ ==> r != Some(true),
{
    let latest = semver::Version::parse(latest).ok()?;
    let current = semver::Version::parse(current).ok()?;
    Some(latest > current)
}

/// Whether a version is newer, given how `semver` orders the two texts.
pub fn is_newer(order: Option<bool>) -> (r: bool)
    ensures
        r == (order == Some(true)),
{
    match order {
        Some(later) => later,
        None => false,
    }
}

/// Whether the first version is newer. A text that is no version is not newer,
/// nor is anything newer than it.
pub fn version_newer(latest: &str, current: &str) -> (r: bool)
    ensures
        r == (version_order(untagged(latest@), untagged(current@)) == Some(true)),
        untagged(latest@) == untagged(current@) ==> !r,
{
    is_newer(later_version(untag(latest).as_str(), untag(current).as_str()))
}

// ---------------------------------------------------------------------------
// Errors of GitHub
// ---------------------------------------------------------------------------

/// What is said where GitHub limits the number of requests.
pub open spec fn rate_limit_hint() -> Seq<char> {
    "GitHub API 限流（未登录约 60 次/小时/IP）。若本机已安装 GitHub CLI，可先执行 gh auth login 后再点「检查更新」"@
}

fn rate_limit_text() -> (r: String)
    ensures
        r@ == rate_limit_hint(),
{
    "GitHub API 限流（未登录约 60 次/小时/IP）。若本机已安装 GitHub CLI，可先执行 gh auth login 后再点「检查更新」".to_string()
}

/// The text speaks of the limit.
pub open spec fn speaks_of_limit(text: Seq<char>) -> bool {
    has_part(lower(text), "rate limit"@)
}

fn check_limit(text: &str) -> (r: bool)
    ensures
        r == speaks_of_limit(text@),
{
    contains_text(lower_text(text).as_str(), "rate limit")
}

/// The message that a reply of GitHub holds.
pub open spec fn reply_message(parsed: Result<JsonV, Seq<char>>) -> Option<Seq<char>> {
    match parsed {
        Ok(value) => value.get_str("message"@),
        Err(_) => None,
    }
}

/// What is said of a reply with an error, given what its body was read as.
pub open spec fn api_error(status: u16, body: Seq<char>, message: Option<Seq<char>>) -> Seq<char> {
    if status == 403 && speaks_of_limit(body) {
        rate_limit_hint()
    } else if status == 404 {
        "GitHub 上找不到最新 Release（仓库可能尚未发布）。"@
    } else {
        match message {
            Some(text) => if speaks_of_limit(text) {
                rate_limit_hint()
            } else {
                "GitHub API "@ + decimal(status as nat) + "："@ + text
            },
            None => "GitHub API 请求失败（HTTP "@ + decimal(status as nat) + "）"@,
        }
    }
}

/// What is said of a reply with an error, given the message in its body.
pub fn describe_api_error(status: u16, body: &str, message: Option<&str>) -> (r: String)
    ensures
        r@ == api_error(
            status,
            body@,
            match message {
                Some(text) => Some(text@),
                None => None,
            },
        ),
{
    if status == 403 && check_limit(body) {
        return rate_limit_text();
    }
    if status == 404 {
        return "GitHub 上找不到最新 Release（仓库可能尚未发布）。".to_string();
    }
    match message {
        Some(text) => {
            if check_limit(text) {
                return rate_limit_text();
            }
            "GitHub API ".to_string().concat(decimal_text(status as u64).as_str()).concat(
                "：",
            ).concat(text)
        },
        None => "GitHub API 请求失败（HTTP ".to_string().concat(
            decimal_text(status as u64).as_str(),
        ).concat("）"),
    }
}

/// What is said of a reply with an error.
pub fn format_github_api_error(status: u16, body: &str) -> (r: String)
    ensures
        r@ == api_error(status, body@, reply_message(json_parsed(body@))),
{
    match parse_json(body) {
        Ok(value) => match value.get_str("message") {
            Some(text) => describe_api_error(status, body, Some(text.as_str())),
            None => describe_api_error(status, body, None),
        },
        Err(_) => describe_api_error(status, body, None),
    }
}

/// The limit of requests is never reported as anything else.
pub proof fn rate_limit_is_always_named(status: u16, body: Seq<char>, message: Seq<char>)
    requires
        status != 404,
        speaks_of_limit(message) || (status == 403 && speaks_of_limit(body)),
    ensures
        api_error(status, body, Some(message)) == rate_limit_hint(),
{
}

/// A reply whose message speaks of the limit is refused.
pub open spec fn limit_check(value: JsonV, body: Seq<char>) -> Result<(), Seq<char>> {
    match value.get_str("message"@) {
        Some(text) => if speaks_of_limit(text) {
            Err(api_error(403, body, reply_message(json_parsed(body))))
        } else {
            Ok(())
        },
        None => Ok(()),
    }
}

/// Refuses a reply whose message speaks of the limit.
pub fn reject_rate_limit_payload(value: &Json, body: &str) -> (r: Result<(), String>)
    ensures
        outcome(r) == limit_check(value@, body@),
{
    match value.get_str("message") {
        Some(text) => {
            if check_limit(text.as_str()) {
                return Err(format_github_api_error(403, body));
            }
            Ok(())
        },
        None => Ok(()),
    }
}

/// The model of a JSON value, or of the complaint.
pub open spec fn reply_outcome(r: Result<Json, String>) -> Result<JsonV, Seq<char>> {
    match r {
        Ok(value) => Ok(value@),
        Err(message) => Err(message@),
    }
}

/// The value that the body of a reply holds.
pub open spec fn checked_reply(value: JsonV, body: Seq<char>) -> Result<JsonV, Seq<char>> {
    match limit_check(value, body) {
        Err(message) => Err(message),
        Ok(_) => Ok(value),
    }
}

/// What a reply over HTTP gives.
pub open spec fn http_reply(status: u16, body: Seq<char>) -> Result<JsonV, Seq<char>> {
    if status < 200 || status > 299 {
        Err(api_error(status, body, reply_message(json_parsed(body))))
    } else {
        match json_parsed(body) {
            Err(message) => Err(message),
            Ok(value) => checked_reply(value, body),
        }
    }
}

/// Reads a reply over HTTP.
pub fn read_http_reply(status: u16, body: &str) -> (r: Result<Json, String>)
    ensures
        reply_outcome(r) == http_reply(status, body@),
{
    if status < 200 || status > 299 {
        return Err(format_github_api_error(status, body));
    }
    match parse_json(body) {
        Err(message) => Err(message),
        Ok(value) => match reject_rate_limit_payload(&value, body) {
            Err(message) => Err(message),
            Ok(_) => Ok(value),
        },
    }
}

/// What a failed call of the GitHub program gives.
pub open spec fn failed_call(stdout: Seq<char>, stderr: Seq<char>) -> Seq<char> {
    let body = if stdout.len() > 0 {
        stdout
    } else {
        stderr
    };
    let detail = "gh api 失败："@ + (if stderr.len() > 0 {
        stderr
    } else if stdout.len() > 0 {
        stdout
    } else {
        "未知错误"@
    });
    match json_parsed(body) {
        Ok(value) => match limit_check(value, body) {
            Err(message) => message,
            Ok(_) => match value.get_str("message"@) {
                Some(text) => "gh api 失败："@ + text,
                None => detail,
            },
        },
        Err(_) => detail,
    }
}

/// What a call of the GitHub program gives. The outputs count without outer
/// white space.
pub open spec fn program_reply(success: bool, stdout: Seq<char>, stderr: Seq<char>) -> Result<
    JsonV,
    Seq<char>,
> {
    let out = trimmed(stdout);
    let err = trimmed(stderr);
    if !success {
        Err(failed_call(out, err))
    } else {
        match json_parsed(out) {
            Err(message) => Err("解析 gh api 响应失败："@ + message),
            Ok(value) => checked_reply(value, out),
        }
    }
}

fn describe_failed_call(stdout: &str, stderr: &str) -> (r: String)
    ensures
        r@ == failed_call(stdout@, stderr@),
{
    let body = if !stdout.is_empty() {
        stdout
    } else {
        stderr
    };
    if let Ok(value) = parse_json(body) {
        if let Err(message) = reject_rate_limit_payload(&value, body) {
            return message;
        }
        if let Some(text) = value.get_str("message") {
            return "gh api 失败：".to_string().concat(text.as_str());
        }
    }
    let detail = if !stderr.is_empty() {
        stderr
    } else if !stdout.is_empty() {
        stdout
    } else {
        "未知错误"
    };
    "gh api 失败：".to_string().concat(detail)
}

/// Reads what a call of the GitHub program gave.
pub fn read_program_reply(success: bool, stdout: &str, stderr: &str) -> (r: Result<Json, String>)
    ensures
        reply_outcome(r) == program_reply(success, stdout@, stderr@),
{
    let out = trim(stdout);
    let err = trim(stderr);
    if !success {
        return Err(describe_failed_call(out.as_str(), err.as_str()));
    }
    match parse_json(out.as_str()) {
        Err(message) => Err("解析 gh api 响应失败：".to_string().concat(message.as_str())),
        Ok(value) => match reject_rate_limit_payload(&value, out.as_str()) {
            Err(message) => Err(message),
            Ok(_) => Ok(value),
        },
    }
}

/// The way on which GitHub is asked.
#[derive(Clone, Copy, Debug, PartialEq, Eq, Structural)]
pub enum GithubRoute {
    /// By the GitHub program, on the account of the user.
    Program,
    /// Over HTTP, without an account.
    Http,
}

/// GitHub is asked by its program where that is signed in, and over HTTP where
/// it is not.
pub fn github_route(authenticated: bool) -> (r: GithubRoute)
    ensures
        r == (if authenticated {
            GithubRoute::Program
        } else {
            GithubRoute::Http
        }),
{
    if authenticated {
        GithubRoute::Program
    } else {
        GithubRoute::Http
    }
}

/// What came back on the way on which GitHub was asked.
pub enum GithubReply {
    /// Whether the program succeeded, and what it wrote to its two outputs.
    Program(bool, String, String),
    /// The status and the body.
    Http(u16, String),
}

/// What GitHub answers. Where the program failed, its failure is the answer.
pub open spec fn github_answer(reply: GithubReply) -> Result<JsonV, Seq<char>> {
    match reply {
        GithubReply::Program(success, stdout, stderr) => program_reply(success, stdout@, stderr@),
        GithubReply::Http(status, body) => http_reply(status, body@),
    }
}

/// Reads what GitHub answered, on whichever way it was asked.
pub fn github_api_get(reply: GithubReply) -> (r: Result<Json, String>)
    ensures
        reply_outcome(r) == github_answer(reply),
{
    match reply {
        GithubReply::Program(success, stdout, stderr) => read_program_reply(
            success,
            stdout.as_str(),
            stderr.as_str(),
        ),
        GithubReply::Http(status, body) => read_http_reply(status, body.as_str()),
    }
}

// ---------------------------------------------------------------------------
// The release of the host
// ---------------------------------------------------------------------------

/// The installer of the host has this name.
pub open spec fn is_installer_name(name: Seq<char>) -> bool {
    has_prefix(name, "Background.Studio_"@) && has_suffix(name, "_x64-setup.exe"@)
}

pub open spec fn is_installer(asset: JsonV) -> bool {
    asset.get_str("name"@) matches Some(name) && is_installer_name(name)
}

/// The first installer among the files of a release.
pub open spec fn first_installer(assets: Seq<JsonV>) -> Option<JsonV>
    decreases assets.len(),
{
    if assets.len() == 0 {
        None
    } else if is_installer(assets[0]) {
        Some(assets[0])
    } else {
        first_installer(assets.drop_first())
    }
}

fn find_installer(assets: &Vec<Json>) -> (r: Option<&Json>)
    ensures
        crate::json::opt_json(r) == first_installer(values_view(assets@)),
{
    let ghost model = values_view(assets@);
    proof {
        lemma_values_view(assets@);
        assert(model.skip(0) =~= model);
    }
    let mut i: usize = 0;
    while i < assets.len()
        invariant
            i <= assets.len(),
            model == values_view(assets@),
            model.len() == assets.len(),
            forall|k: int| 0 <= k < assets.len() ==> #[trigger] model[k] == assets@[k]@,
            first_installer(model) == first_installer(model.skip(i as int)),
        decreases assets.len() - i,
    {
        proof {
            assert(model.skip(i as int)[0] == assets@[i as int]@);
            assert(model.skip(i as int).drop_first() =~= model.skip(i + 1));
        }
        if let Some(name) = assets[i].get_str("name") {
            if starts_with(name.as_str(), "Background.Studio_") && ends_with(
                name.as_str(),
                "_x64-setup.exe",
            ) {
                return Some(&assets[i]);
            }
        }
        i += 1;
    }
    None
}

/// The release of the host that a reply of GitHub describes.
pub open spec fn host_release(value: JsonV) -> Result<ReleaseV, Seq<char>> {
    match value.get_str("tag_name"@) {
        None => Err("壳 Release 缺少 tag_name"@),
        Some(tag) => match value.get("assets"@) {
            Some(JsonV::Array(assets)) => match first_installer(assets) {
                None => Err("壳 Release 中没有 Background.Studio_*_x64-setup.exe"@),
                Some(asset) => match asset.get_str("browser_download_url"@) {
                    None => Err("壳安装包缺少下载地址"@),
                    Some(download) => Ok(
                        ReleaseV {
                            latest_version: Some(untagged(tag)),
                            asset_name: asset.get_str("name"@),
                            release_url: Some(
                                match value.get_str("html_url"@) {
                                    Some(url) => url,
                                    None => "https://github.com/background-studio/background-studio/releases"@,
                                },
                            ),
                            download_url: Some(download),
                        },
                    ),
                },
            },
            _ => Err("壳 Release 缺少 assets"@),
        },
    }
}

/// The model of a release, or of the complaint.
pub open spec fn release_outcome(r: Result<HostReleaseInfo, String>) -> Result<
    ReleaseV,
    Seq<char>,
> {
    match r {
        Ok(info) => Ok(info@),
        Err(message) => Err(message@),
    }
}

/// What finds an installer finds one with a name.
proof fn lemma_installer_has_name(assets: Seq<JsonV>)
    ensures
        first_installer(assets) matches Some(asset) ==> is_installer(asset),
    decreases assets.len(),
{
    if assets.len() > 0 {
        lemma_installer_has_name(assets.drop_first());
    }
}

/// Reads the newest release of the host from a reply of GitHub.
fn read_host_release(value: &Json) -> (r: Result<HostReleaseInfo, String>)
    ensures
        release_outcome(r) == host_release(value@),
{
    let tag = match value.get_str("tag_name") {
        Some(tag) => tag,
        None => {
            return Err("壳 Release 缺少 tag_name".to_string());
        },
    };
    let release_url = match value.get_str("html_url") {
        Some(url) => url.clone(),
        None => "https://github.com/background-studio/background-studio/releases".to_string(),
    };
    let assets = match value.get("assets") {
        Some(Json::Array(assets)) => assets,
        _ => {
            return Err("壳 Release 缺少 assets".to_string());
        },
    };
    let asset = match find_installer(assets) {
        Some(asset) => asset,
        None => {
            return Err("壳 Release 中没有 Background.Studio_*_x64-setup.exe".to_string());
        },
    };
    proof {
        lemma_installer_has_name(values_view(assets@));
    }
    let asset_name = match asset.get_str("name") {
        Some(name) => name.clone(),
        None => {
            return Err("壳安装包缺少名称".to_string());
        },
    };
    let download_url = match asset.get_str("browser_download_url") {
        Some(url) => url.clone(),
        None => {
            return Err("壳安装包缺少下载地址".to_string());
        },
    };
    Ok(
        HostReleaseInfo {
            latest_version: Some(untag(tag.as_str())),
            asset_name: Some(asset_name),
            release_url: Some(release_url),
            download_url: Some(download_url),
        },
    )
}

/// The path of the API at which the newest release of the host is found.
pub fn host_release_path() -> (r: String)
    ensures
        r@ == "repos/"@ + HOST_OWNER@ + "/"@ + HOST_REPO@ + "/releases/latest"@,
{
    "repos/".to_string().concat(HOST_OWNER).concat("/").concat(HOST_REPO).concat(
        "/releases/latest",
    )
}

/// The newest release of the host, given the reply of GitHub or why there is
/// none.
pub fn fetch_latest_host_release(reply: Result<Json, String>) -> (r: Result<
    HostReleaseInfo,
    String,
>)
    ensures
        release_outcome(r) == (match reply {
            Ok(value) => host_release(value@),
            Err(message) => Err(message@),
        }),
{
    match reply {
        Ok(value) => read_host_release(&value),
        Err(message) => Err(message),
    }
}

/// A release that was read has an installer, of which name and address are
/// known.
pub proof fn read_release_is_complete(value: JsonV)
    requires
        host_release(value) is Ok,
    ensures
        ({
            let info = host_release(value)->Ok_0;
            &&& info.latest_version is Some
            &&& info.release_url is Some
            &&& info.download_url is Some
            &&& info.asset_name matches Some(name) && is_installer_name(name)
        }),
{
    match value.get("assets"@) {
        Some(JsonV::Array(assets)) => {
            lemma_installer_has_name(assets);
        },
        _ => {},
    }
}

// ---------------------------------------------------------------------------
// Installing a release
// ---------------------------------------------------------------------------

/// The installer of a release: its name and where it can be downloaded.
pub open spec fn installer_parts(release: ReleaseV) -> Result<(Seq<char>, Seq<char>), Seq<char>> {
    match (release.asset_name, release.download_url) {
        (None, _) => Err("请先检查更新。"@),
        (Some(_), None) => Err("最新版没有可下载的安装包。"@),
        (Some(name), Some(url)) => Ok((name, url)),
    }
}

/// The models of a name and a URL, or of what is wrong.
pub open spec fn installer_outcome(r: Result<(String, String), String>) -> Result<
    (Seq<char>, Seq<char>),
    Seq<char>,
> {
    match r {
        Ok((name, url)) => Ok((name@, url@)),
        Err(message) => Err(message@),
    }
}

/// The installer of a release: its name and where it can be downloaded.
pub fn installer_of(release: &HostReleaseInfo) -> (r: Result<(String, String), String>)
    ensures
        installer_outcome(r) == installer_parts(release@),
{
    match &release.asset_name {
        None => Err("请先检查更新。".to_string()),
        Some(name) => match &release.download_url {
            None => Err("最新版没有可下载的安装包。".to_string()),
            Some(url) => Ok((name.clone(), url.clone())),
        },
    }
}

/// Whether the release has to be asked for before it can be installed.
pub fn needs_release(release: &HostReleaseInfo) -> (r: bool)
    ensures
        r == (release@.download_url is None || release@.asset_name is None),
{
    release.download_url.is_none() || release.asset_name.is_none()
}

/// The installer of a release that is newer than this host, given whether it
/// is.
pub open spec fn update_parts(release: ReleaseV, newer: bool) -> Result<
    (Seq<char>, Seq<char>),
    Seq<char>,
> {
    match (release.download_url, release.asset_name) {
        (None, _) => Err("找不到壳安装包下载地址。"@),
        (Some(_), None) => Err("找不到壳安装包文件名。"@),
        (Some(url), Some(name)) => if newer {
            Ok((name, url))
        } else {
            Err("当前已是最新版本。"@)
        },
    }
}

/// The version that a release counts as.
pub open spec fn release_version(release: ReleaseV) -> Seq<char> {
    match release.latest_version {
        Some(version) => version,
        None => "最新"@,
    }
}

/// The installer of a release, once it is known whether the release is newer.
pub fn settle_update(release: &HostReleaseInfo, newer: bool) -> (r: Result<
    (String, String),
    String,
>)
    ensures
        installer_outcome(r) == update_parts(release@, newer),
{
    match &release.download_url {
        None => Err("找不到壳安装包下载地址。".to_string()),
        Some(url) => match &release.asset_name {
            None => Err("找不到壳安装包文件名。".to_string()),
            Some(name) => if newer {
                Ok((name.clone(), url.clone()))
            } else {
                Err("当前已是最新版本。".to_string())
            },
        },
    }
}

/// The installer of a release that is newer than this host.
pub fn plan_update(release: &HostReleaseInfo) -> (r: Result<(String, String), String>)
    ensures
        installer_outcome(r) == update_parts(
            release@,
            version_order(untagged(release_version(release@)), untagged("0.1.3"@)) == Some(true),
        ),
{
    let latest = match &release.latest_version {
        Some(version) => version.clone(),
        None => "最新".to_string(),
    };
    let current = current_version();
    settle_update(release, version_newer(latest.as_str(), current.as_str()))
}

} // verus!
