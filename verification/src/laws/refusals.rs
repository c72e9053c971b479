//! Laws of what is said where something is refused: each reason with the inputs
//! on which it is given.
use vstd::prelude::*;

use crate::host_core::{
    activated, command_route, configured, hello_verdict, patch_check, refresh_route, shown_media,
    size_verdict, CoreV, RouteV,
};
use crate::host_update::{
    api_error, failed_call, host_release, installer_parts, program_reply, release_version,
    update_parts, ReleaseV,
};
use crate::json::{json_parsed, json_text, JsonV, Num};
use crate::laws::media::{is_image_extension, is_video_extension, names_item};
use crate::manifest::{
    bound_check, chosen_manifest, enum_check, exe_name_check, id_check, installed_manifest,
    len_check, manifest_check, manifest_of, manifest_parsed, manifest_read, missing_name,
    pipe_name_check, property_check, required_names, schema_check, title_check, ManifestV,
};
use crate::media::{
    checked, content_check, copy_check, dimensions_check, display_name, folder_item, folder_label,
    folder_plan, folder_source, header_matches, header_of, item_with_digest, item_with_id,
    managed_file, media_type_of, refresh_plan, size_check, DownloadV, FileMeta, ResolvedV, RootV,
    SourceV,
};
use crate::media_server::media_url;
use crate::models::{ItemV, MediaKind, MediaOrigin};
use crate::paths::is_plain_name;
use crate::profile::PatchV;
use crate::migrate::{legacy_step, StepV};
use crate::plugins::{
    entry_check, first_package, first_prerelease, full_warning, install_plan, installed_version_of,
    package_check, plugin_asset, plugin_failures, ready_step, refresh_failures, release_asset,
    standing_message, switched, InstallV, ManagerV, ReadyV, RecordV,
};
use crate::catalog::first_with_id;
use crate::proxy::{chosen_mode, mode_named, proxy_check, ProxyMode, ProxyV};
use crate::transport::{answer_verdict, plain_verdict};
use crate::address::UrlV;
use crate::protocol::{
    all_hex, capabilities_check, capability_check, configure_media_check, configure_params,
    configure_value, display_check, display_field_check, hello_of, is_capability_name, line_verdict,
    media_fields_check, media_url_check, request_line, request_text, response_of, response_verdict,
    ConfigureMediaV, HelloV, ResponseV,
};
use crate::text::{byte_len, decimal, has_part, has_prefix, joined, lower, replaced, trimmed};

verus! {

// ---------------------------------------------------------------------------
// The host
// ---------------------------------------------------------------------------

/// A plugin without a profile cannot show anything, nor can media that are not in
/// the library be shown.
pub proof fn unknown_media_is_refused(core: CoreV, id: Seq<char>, media_id: Seq<char>)
    ensures
        !names_item(core.library.items, media_id) ==> activated(core, id, Some(media_id)) == (
            Err::<(), Seq<char>>("媒体不存在。"@),
            core,
        ),
        names_item(core.library.items, media_id) && !core.profiles.contains_key(id) ==> activated(
            core,
            id,
            Some(media_id),
        ) == (Err::<(), Seq<char>>("插件 "@ + id + " 没有 Profile。"@), core),
        !core.profiles.contains_key(id) ==> activated(core, id, None) == (
            Err::<(), Seq<char>>("插件 "@ + id + " 没有 Profile。"@),
            core,
        ),
        !core.profiles.contains_key(id) ==> shown_media(core, id) is Err && shown_media(
            core,
            id,
        )->Err_0 == "插件 "@ + id + " 没有 Profile。"@,
        core.profiles.contains_key(id) && core.profiles[id].active_media_id == Some(media_id)
            && !names_item(core.library.items, media_id) ==> shown_media(core, id) is Err
            && shown_media(core, id)->Err_0 == "当前激活的媒体不存在。"@,
{
    crate::laws::media::first_with_id_is_found(core.library.items, media_id);
}

/// A change that names media which are not in the library is refused: first for what
/// is to be shown, then for the playlist.
pub proof fn unknown_media_is_not_chosen(items: Seq<ItemV>, patch: PatchV, i: int)
    ensures
        (patch.active_media_id matches Some(Some(id)) && !names_item(items, id)) ==> patch_check(
            items,
            patch,
        ) == Err::<(), Seq<char>>("当前媒体不存在。"@),
        (patch.active_media_id matches Some(Some(id)) ==> names_item(items, id)) && (
        patch.playlist_ids matches Some(ids) && 0 <= i < ids.len() && !names_item(items, ids[i]))
            ==> patch_check(items, patch) == Err::<(), Seq<char>>(
            "轮播列表包含不存在的媒体。"@,
        ),
{
    if let Some(Some(id)) = patch.active_media_id {
        crate::laws::media::first_with_id_is_found(items, id);
    }
    if let Some(ids) = patch.playlist_ids {
        if 0 <= i < ids.len() {
            crate::laws::media::first_with_id_is_found(items, ids[i]);
        }
    }
}

/// A greeting that fails says why, and one of another plugin names both.
pub proof fn foreign_greeting_is_refused(
    id: Seq<char>,
    message: Seq<char>,
    value: JsonV,
    hello: HelloV,
)
    ensures
        hello_verdict(id, Err(message)) == Err::<HelloV, Seq<char>>(
            "插件 "@ + id + " hello 失败："@ + message,
        ),
        hello_of(value) == Err::<HelloV, Seq<char>>(message) ==> hello_verdict(id, Ok(value))
            == Err::<HelloV, Seq<char>>(message),
        hello_of(value) == Ok::<HelloV, Seq<char>>(hello) && hello.plugin_id != id
            ==> hello_verdict(id, Ok(value)) == Err::<HelloV, Seq<char>>(
            "hello.pluginId="@ + hello.plugin_id + " 与宿主插件 "@ + id + " 不一致。"@,
        ),
{
}

/// The window of a plugin is not opened from outside, and a command that is not
/// known is named.
pub proof fn unknown_command_is_named(cmd: Seq<char>)
    ensures
        command_route("open-ui"@) is Err && command_route("open-ui"@)->Err_0
            == "请在壳内打开插件详情，不再调用 open-ui。"@,
        cmd != "apply"@ && cmd != "open-ui"@ && cmd != "shutdown"@ && cmd != "quit-keep-target"@
            && cmd != "pause"@ && cmd != "restore"@ && cmd != "status"@ && cmd != "hello"@
            ==> command_route(cmd) is Err && command_route(cmd)->Err_0 == "未知命令："@ + cmd,
{
    reveal_strlit("apply");
    reveal_strlit("open-ui");
    assert("apply"@.len() != "open-ui"@.len());
}

/// What cannot be served has no address, and is not sent.
pub proof fn unserved_media_is_not_sent(
    core: CoreV,
    id: Seq<char>,
    media_id: Seq<char>,
    media: ResolvedV,
    manifest: Option<ManifestV>,
    message: Seq<char>,
)
    ensures
        !core.profiles.contains_key(id) ==> configured(core, id, media_id, media, manifest) == Some(
            Err::<JsonV, Seq<char>>("插件 "@ + id + " 没有 Profile。"@),
        ),
        core.profiles.contains_key(id) && size_verdict(core, id, manifest, media.byte_size) == Err::<
            (),
            Seq<char>,
        >(message) ==> configured(core, id, media_id, media, manifest) == Some(
            Err::<JsonV, Seq<char>>(message),
        ),
        core.profiles.contains_key(id) && size_verdict(core, id, manifest, media.byte_size) is Ok
            && media_url(core.media_server, media_id) is None ==> configured(
            core,
            id,
            media_id,
            media,
            manifest,
        ) == Some(Err::<JsonV, Seq<char>>("媒体服务未能为当前媒体生成回环 URL。"@)),
{
}

/// Only a folder and what comes from a random address can be refreshed.
pub proof fn fixed_media_is_not_refreshed(core: CoreV, id: Seq<char>, media_id: Seq<char>)
    ensures
        !names_item(core.library.items, media_id) ==> refresh_route(core, id, media_id) == Err::<
            RouteV,
            Seq<char>,
        >("媒体项目不存在。"@),
        item_with_id(core.library.items, media_id) matches Some(item) ==> {
            &&& item.origin == MediaOrigin::Api && item.source_url is None ==> refresh_route(
                core,
                id,
                media_id,
            ) == Err::<RouteV, Seq<char>>("该媒体不是随机 API 来源。"@)
            &&& item.origin == MediaOrigin::Local || item.origin == MediaOrigin::Remote
                ==> refresh_route(core, id, media_id) == Err::<RouteV, Seq<char>>(
                "只有文件夹源或随机 API 可以刷新。"@,
            )
        },
{
    crate::laws::media::first_with_id_is_found(core.library.items, media_id);
}

// ---------------------------------------------------------------------------
// Media
// ---------------------------------------------------------------------------

/// An image is refused where its size cannot be read, and where it is too large.
pub proof fn large_image_is_refused(width: u64, height: u64)
    ensures
        dimensions_check(None) == Err::<(), Seq<char>>("图片内容损坏或格式与扩展名不匹配。"@),
        dimensions_check(Some((width, height))) is Err ==> dimensions_check(
            Some((width, height)),
        )->Err_0 == "图片尺寸超过 16384 像素或 5000 万总像素上限。"@,
{
}

/// A file is refused whose first bytes are not those of its extension, and the reason
/// names its kind.
pub proof fn other_content_is_refused(
    extension: Seq<char>,
    content: Seq<u8>,
    dimensions: Option<(u64, u64)>,
)
    requires
        !header_matches(extension, header_of(content)),
    ensures
        content_check(MediaKind::Image, extension, content, dimensions) == Err::<(), Seq<char>>(
            "图片内容损坏或格式与扩展名不匹配。"@,
        ),
        content_check(MediaKind::Video, extension, content, dimensions) == Err::<(), Seq<char>>(
            "视频内容损坏或格式与扩展名不匹配。"@,
        ),
{
}

/// A file is refused that is empty or none, and one that is larger than allowed, with
/// the limit in megabytes.
pub proof fn large_media_is_refused(meta: FileMeta, maximum: u64)
    ensures
        !meta.is_file || meta.byte_size == 0 ==> size_check(meta, maximum) == Err::<(), Seq<char>>(
            "媒体文件为空或不可读取。"@,
        ),
        meta.is_file && meta.byte_size > maximum ==> size_check(meta, maximum) == (if meta.byte_size
            == 0 {
            Err::<(), Seq<char>>("媒体文件为空或不可读取。"@)
        } else {
            Err::<(), Seq<char>>(
                "媒体文件超过 "@ + decimal((maximum as nat) / 1048576) + " MB 上限。"@,
            )
        }),
{
    assert(maximum / 1024 / 1024 == maximum / 1048576);
}

/// The reasons for refusing a file come in this order: its extension, what is known of
/// it, its size, what can be read of it, and what it holds.
pub proof fn file_is_refused_for_the_first_reason(
    extension: Seq<char>,
    source: SourceV,
    message: Seq<char>,
)
    ensures
        !is_image_extension(extension) && !is_video_extension(extension) ==> checked(
            extension,
            source,
        ) is Err && checked(extension, source)->Err_0 == "不支持此图片或视频格式。"@,
        media_type_of(extension) matches Some((kind, mime_type, maximum)) ==> {
            &&& source.metadata == Err::<FileMeta, Seq<char>>(message) ==> checked(
                extension,
                source,
            ) is Err && checked(extension, source)->Err_0 == message
            &&& source.metadata matches Ok(meta) ==> {
                &&& size_check(meta, maximum) == Err::<(), Seq<char>>(message) ==> checked(
                    extension,
                    source,
                ) is Err && checked(extension, source)->Err_0 == message
                &&& size_check(meta, maximum) is Ok && source.content == Err::<Seq<u8>, Seq<char>>(
                    message,
                ) ==> checked(extension, source) is Err && checked(extension, source)->Err_0
                    == message
            }
        },
{
    crate::laws::media::extension_tells_the_type(extension);
}

/// A folder has no file of its own, and a file that lies elsewhere is not used.
pub proof fn unmanaged_file_is_refused(item: ItemV)
    ensures
        item.origin == MediaOrigin::Folder ==> managed_file(item) == Err::<Seq<char>, Seq<char>>(
            "文件夹源没有受管媒体文件路径，请使用 resolve_playback。"@,
        ),
        item.origin != MediaOrigin::Folder && !is_plain_name(item.file_name) ==> managed_file(item)
            == Err::<Seq<char>, Seq<char>>("媒体目录校验失败。"@),
        item.source_url is None ==> folder_source(item) == Err::<Seq<char>, Seq<char>>(
            "文件夹源缺少路径。"@,
        ),
{
}

/// A copy that is shorter or longer than the file is refused.
pub proof fn partial_copy_is_refused(item: ItemV, size: u64, message: Seq<char>)
    ensures
        size != item.byte_size ==> copy_check(item, Ok(size)) == Err::<(), Seq<char>>(
            "媒体复制校验失败。"@,
        ),
        copy_check(item, Err(message)) == Err::<(), Seq<char>>(message),
{
}

/// What is blank is shown under a name all the same.
pub proof fn unnamed_media_has_a_name(name: Seq<char>, count: u64)
    ensures
        trimmed(crate::media::masked(name)).len() == 0 ==> display_name(name) == "未命名媒体"@,
        folder_label(None, count) == display_name(
            "未命名文件夹"@ + "（"@ + decimal(count as nat) + "）"@,
        ),
        folder_label(Some(name), count) == display_name(
            name + "（"@ + decimal(count as nat) + "）"@,
        ),
{
}

/// An item that stands for a folder has no file and no type of a file.
pub proof fn folder_is_no_file(root: RootV, count: u64, id: Seq<char>, created_at: Seq<char>)
    ensures
        folder_item(root, count, id, created_at).file_name == "__folder__"@,
        folder_item(root, count, id, created_at).mime_type == "application/x-directory"@,
        folder_item(root, count, id, created_at).kind == MediaKind::Image,
        folder_item(root, count, id, created_at).preview_url is None,
{
}

/// Only what came from a random address is refreshed, and only by a file that can be
/// taken.
pub proof fn refresh_is_refused(
    items: Seq<ItemV>,
    id: Seq<char>,
    download: DownloadV,
    source: SourceV,
)
    ensures
        !names_item(items, id) ==> refresh_plan(items, id, download, source) is Err && refresh_plan(
            items,
            id,
            download,
            source,
        )->Err_0 == "媒体项目不存在。"@,
        item_with_id(items, id) matches Some(item) ==> item.origin != MediaOrigin::Api
            || item.source_url is None ==> refresh_plan(items, id, download, source) is Err
            && refresh_plan(items, id, download, source)->Err_0 == "该媒体不是随机 API 来源。"@,
        item_with_id(items, id) matches Some(item) ==> item.origin == MediaOrigin::Api
            && item.source_url is Some && media_type_of(
            crate::paths::extension_of(download.original_name),
        ) is None ==> refresh_plan(items, id, download, source) is Err && refresh_plan(
            items,
            id,
            download,
            source,
        )->Err_0 == "不支持此图片或视频格式。"@,
{
    crate::laws::media::first_with_id_is_found(items, id);
}

/// A folder is refused that is none, that is in the library already, or that cannot be
/// listed or holds no media.
pub proof fn folder_is_refused(
    items: Seq<ItemV>,
    folder: Seq<char>,
    root: RootV,
    listing: Result<Seq<Seq<char>>, Seq<char>>,
    message: Seq<char>,
    id: Seq<char>,
    created_at: Seq<char>,
)
    ensures
        folder_plan(items, folder, Err(message), listing, id, created_at) == Err::<
            ItemV,
            (Seq<char>, Seq<char>),
        >((folder, message)),
        !root.is_dir ==> folder_plan(items, folder, Ok(root), listing, id, created_at) == Err::<
            ItemV,
            (Seq<char>, Seq<char>),
        >((root.path, "请选择一个文件夹。"@)),
        root.is_dir ==> match crate::media::folder_at(items, root.path) {
            Some(existing) => folder_plan(items, folder, Ok(root), listing, id, created_at) == Err::<
                ItemV,
                (Seq<char>, Seq<char>),
            >((root.path, "文件夹源已存在："@ + existing.name)),
            None => {
                &&& folder_plan(items, folder, Ok(root), Err(message), id, created_at) == Err::<
                    ItemV,
                    (Seq<char>, Seq<char>),
                >((root.path, message))
                &&& folder_plan(items, folder, Ok(root), Ok(Seq::empty()), id, created_at) == Err::<
                    ItemV,
                    (Seq<char>, Seq<char>),
                >((root.path, "文件夹中没有支持的图片或视频。"@))
            },
        },
{
}

// ---------------------------------------------------------------------------
// Releases of the host
// ---------------------------------------------------------------------------

/// The text speaks of a limit of requests.
pub open spec fn names_limit(text: Seq<char>) -> bool {
    has_part(lower(text), "rate limit"@)
}

/// What GitHub answers instead of a release is explained.
pub proof fn failed_request_is_explained(status: u16, body: Seq<char>, text: Seq<char>)
    ensures
        status == 403 && names_limit(body) ==> api_error(status, body, None)
            == "GitHub API 限流（未登录约 60 次/小时/IP）。若本机已安装 GitHub CLI，可先执行 gh auth login 后再点「检查更新」"@,
        status != 404 && names_limit(text) ==> api_error(status, body, Some(text))
            == "GitHub API 限流（未登录约 60 次/小时/IP）。若本机已安装 GitHub CLI，可先执行 gh auth login 后再点「检查更新」"@,
        status == 404 ==> api_error(status, body, None)
            == "GitHub 上找不到最新 Release（仓库可能尚未发布）。"@,
        status != 404 && !(status == 403 && names_limit(body)) ==> api_error(status, body, None)
            == "GitHub API 请求失败（HTTP "@ + decimal(status as nat) + "）"@,
        status != 404 && !(status == 403 && names_limit(body)) && !names_limit(text) ==> api_error(
            status,
            body,
            Some(text),
        ) == "GitHub API "@ + decimal(status as nat) + "："@ + text,
{
}

/// A call of the program that fails without an answer is told by what it wrote, first
/// as its error, then as its output.
pub proof fn failed_program_is_explained(stdout: Seq<char>, stderr: Seq<char>, message: Seq<char>)
    ensures
        stderr.len() > 0 && json_parsed(
            if stdout.len() > 0 {
                stdout
            } else {
                stderr
            },
        ) is Err ==> failed_call(stdout, stderr) == "gh api 失败："@ + stderr,
        stderr.len() == 0 && stdout.len() > 0 && json_parsed(stdout) is Err ==> failed_call(
            stdout,
            stderr,
        ) == "gh api 失败："@ + stdout,
        stderr.len() == 0 && stdout.len() == 0 && json_parsed(stderr) is Err ==> failed_call(
            stdout,
            stderr,
        ) == "gh api 失败："@ + "未知错误"@,
        json_parsed(trimmed(stdout)) == Err::<JsonV, Seq<char>>(message) ==> program_reply(
            true,
            stdout,
            stderr,
        ) == Err::<JsonV, Seq<char>>("解析 gh api 响应失败："@ + message),
        program_reply(false, stdout, stderr) == Err::<JsonV, Seq<char>>(
            failed_call(trimmed(stdout), trimmed(stderr)),
        ),
{
}

/// What a release of the host lacks is named.
pub proof fn incomplete_host_release_is_named(value: JsonV, assets: Seq<JsonV>)
    ensures
        value.get_str("tag_name"@) is None ==> host_release(value) == Err::<ReleaseV, Seq<char>>(
            "壳 Release 缺少 tag_name"@,
        ),
        value.get_str("tag_name"@) is Some && !(value.get("assets"@) matches Some(
            JsonV::Array(_),
        )) ==> host_release(value) == Err::<ReleaseV, Seq<char>>("壳 Release 缺少 assets"@),
        value.get_str("tag_name"@) is Some && value.get("assets"@) == Some(JsonV::Array(assets)) ==> {
            &&& crate::host_update::first_installer(assets) is None ==> host_release(value) == Err::<
                ReleaseV,
                Seq<char>,
            >("壳 Release 中没有 Background.Studio_*_x64-setup.exe"@)
            &&& (crate::host_update::first_installer(assets) matches Some(asset) && asset.get_str(
                "browser_download_url"@,
            ) is None) ==> host_release(value) == Err::<ReleaseV, Seq<char>>(
                "壳安装包缺少下载地址"@,
            )
        },
{
}

/// The host is updated only where there is something to download and it is newer.
pub proof fn update_is_refused(release: ReleaseV)
    ensures
        release.asset_name is None ==> installer_parts(release) == Err::<
            (Seq<char>, Seq<char>),
            Seq<char>,
        >("请先检查更新。"@),
        release.asset_name is Some && release.download_url is None ==> installer_parts(release)
            == Err::<(Seq<char>, Seq<char>), Seq<char>>("最新版没有可下载的安装包。"@),
        release.download_url is None ==> update_parts(release, true) == Err::<
            (Seq<char>, Seq<char>),
            Seq<char>,
        >("找不到壳安装包下载地址。"@),
        release.download_url is Some && release.asset_name is None ==> update_parts(release, true)
            == Err::<(Seq<char>, Seq<char>), Seq<char>>("找不到壳安装包文件名。"@),
        release.download_url is Some && release.asset_name is Some ==> update_parts(release, false)
            == Err::<(Seq<char>, Seq<char>), Seq<char>>("当前已是最新版本。"@),
        release.latest_version is None ==> release_version(release) == "最新"@,
        release.latest_version matches Some(version) ==> release_version(release) == version,
{
}

// ---------------------------------------------------------------------------
// Plugins
// ---------------------------------------------------------------------------

/// What a release of a plugin lacks is named.
pub proof fn incomplete_release_is_named(release: JsonV, prefix: Seq<char>, assets: Seq<JsonV>)
    ensures
        release.get_str("tag_name"@) is None ==> release_asset(release, prefix) == Err::<
            (Seq<char>, Seq<char>),
            Seq<char>,
        >("Release 缺少 tag_name（仓库可能还没有正式发布）。"@),
        release.get_str("tag_name"@) is Some && !(release.get("assets"@) matches Some(
            JsonV::Array(_),
        )) ==> release_asset(release, prefix) == Err::<(Seq<char>, Seq<char>), Seq<char>>(
            "Release 缺少 assets"@,
        ),
        release.get_str("tag_name"@) matches Some(tag) ==> release.get("assets"@) == Some(
            JsonV::Array(assets),
        ) && first_package(assets, prefix) is None ==> release_asset(release, prefix) == Err::<
            (Seq<char>, Seq<char>),
            Seq<char>,
        >("最新 Release "@ + tag + " 中没有 "@ + prefix + "*-plugin.zip"@),
        !(release is Array) ==> plugin_asset(prefix, release, true) == Err::<
            (Seq<char>, Seq<char>),
            Seq<char>,
        >("没有找到可用的插件预发布版本。"@),
        first_prerelease(assets) is None ==> plugin_asset(prefix, JsonV::Array(assets), true)
            == Err::<(Seq<char>, Seq<char>), Seq<char>>("没有找到可用的插件预发布版本。"@),
{
}

/// A plugin is not installed without a release, nor one that is not listed.
pub proof fn installation_is_refused(manager: ManagerV, id: Seq<char>)
    ensures
        !manager.latest.contains_key(id) && manager.latest_errors.contains_key(id) ==> install_plan(
            manager,
            id,
        ) == Err::<InstallV, Seq<char>>(
            "无法获取 "@ + id + " 的最新版："@ + manager.latest_errors[id],
        ),
        !manager.latest.contains_key(id) && !manager.latest_errors.contains_key(id)
            ==> install_plan(manager, id) == Err::<InstallV, Seq<char>>(
            "找不到 "@ + id
                + " 的最新 Release（需要带 *-plugin.zip 的发布）。请先点「检查更新」。"@,
        ),
        manager.latest.contains_key(id) && first_with_id(manager.catalog, id) is None
            ==> install_plan(manager, id) == Err::<InstallV, Seq<char>>("未知插件："@ + id),
        installed_version_of(manager, id) is None ==> switched(manager, id, true).0 == Err::<
            (),
            Seq<char>,
        >("请先安装插件。"@),
{
}

/// A package of another plugin or without its executable is refused.
pub proof fn foreign_package_is_refused(
    id: Seq<char>,
    exe_name: Seq<char>,
    found: ManifestV,
    message: Seq<char>,
    exe_present: bool,
)
    ensures
        package_check(id, exe_name, Err(message), exe_present) == Err::<(), Seq<char>>(message),
        found.id != id ==> package_check(id, exe_name, Ok(Some(found)), exe_present) == Err::<
            (),
            Seq<char>,
        >("plugin.json 的 id 为 "@ + found.id + "，与目录插件 "@ + id + " 不一致。"@),
        found.id == id ==> package_check(id, exe_name, Ok(Some(found)), false) == Err::<
            (),
            Seq<char>,
        >("插件包缺少可执行文件："@ + found.exe_name),
        package_check(id, exe_name, Ok(None), false) == Err::<(), Seq<char>>(
            "插件包缺少可执行文件："@ + exe_name,
        ),
{
}

/// The reasons for refusing an entry of a package come in this order: its size, the
/// sum of the sizes, and where it lies.
pub proof fn large_entry_is_refused(total: u64, size: u64, enclosed: bool)
    ensures
        size > 134217728 ==> entry_check(total, size, enclosed) == Err::<u64, Seq<char>>(
            "插件包中单个文件超过 128 MiB 上限。"@,
        ),
        size <= 134217728 && total + size > u64::MAX ==> entry_check(total, size, enclosed) == Err::<
            u64,
            Seq<char>,
        >("插件包解压大小溢出。"@),
        size <= 134217728 && 268435456 < total + size <= u64::MAX ==> entry_check(
            total,
            size,
            enclosed,
        ) == Err::<u64, Seq<char>>("插件包解压后超过 256 MiB 上限。"@),
        size <= 134217728 && total + size <= 268435456 && !enclosed ==> entry_check(
            total,
            size,
            enclosed,
        ) == Err::<u64, Seq<char>>("插件包包含非法路径。"@),
{
}

/// A plugin that does not answer is asked again until it is overdue.
pub proof fn silent_plugin_is_asked_again(message: Seq<char>, value: JsonV, overdue: bool)
    ensures
        ready_step(Ok(value), overdue) == ReadyV::Ready(value),
        ready_step(Err(message), false) == ReadyV::Again(message),
        ready_step(Err(message), true) == ReadyV::Failed("插件在 8 秒内未就绪："@ + message),
{
}

/// What a plugin that says nothing of itself is said to be.
pub proof fn standing_is_told(record: RecordV, message: Seq<char>, running: bool)
    ensures
        record.installed_version is None ==> standing_message(record, None, running) == "未安装"@,
        record.installed_version is None ==> standing_message(record, Some(message), running)
            == "未安装 · "@ + message,
        record.installed_version is Some && !record.enabled ==> standing_message(
            record,
            Some(message),
            running,
        ) == "未启用"@,
        record.installed_version is Some && record.enabled ==> standing_message(
            record,
            Some(message),
            true,
        ) == "运行中"@,
        record.installed_version is Some && record.enabled ==> standing_message(
            record,
            Some(message),
            false,
        ) == "已启用"@,
{
}

/// What went wrong when releases were looked for is shown behind the warning.
pub proof fn failures_are_shown(warning: Seq<char>, a: Seq<char>, b: Seq<char>)
    ensures
        full_warning(Some(warning), Seq::empty()) == Some(warning),
        full_warning(None, Seq::empty()) is None,
        full_warning(Some(warning), seq![a]) == Some(warning + " 检查更新失败："@ + a),
        full_warning(None, seq![a]) == Some("检查更新失败："@ + a),
        full_warning(None, seq![a, b]) == Some("检查更新失败："@ + (a + "；"@ + b)),
{
    reveal_with_fuel(joined, 3);
    assert(seq![a, b].drop_last() =~= seq![a]);
}

/// What went wrong with the host itself comes behind the plugins.
pub proof fn failure_of_the_host_comes_last(manager: ManagerV)
    ensures
        manager.host_release_error is None ==> refresh_failures(manager) == plugin_failures(
            manager,
            manager.catalog,
        ),
        manager.host_release_error matches Some(message) ==> refresh_failures(manager)
            == plugin_failures(manager, manager.catalog).push("壳："@ + message),
{
}

/// A mode of a proxy that is not known is named.
pub proof fn unknown_mode_is_named(text: Seq<char>, settings: ProxyV)
    ensures
        mode_named(lower(trimmed(text))) is None ==> chosen_mode(text) == Err::<
            ProxyMode,
            Seq<char>,
        >("未知代理模式："@ + lower(trimmed(text))),
        settings.mode == ProxyMode::Custom && trimmed(settings.url).len() == 0 ==> proxy_check(
            settings,
        ) == Err::<(), Seq<char>>("自定义代理地址不能为空。"@),
{
}

/// Media of another installation that are gone are refused with their path.
pub proof fn missing_media_is_refused(items: Seq<ItemV>, item: ItemV, path: Seq<char>)
    ensures
        item.origin == MediaOrigin::Folder && item.source_url is None ==> legacy_step(
            items,
            item,
            true,
            path,
        ) == StepV::Refused("文件夹源缺少路径。"@),
        item.origin == MediaOrigin::Folder && item.source_url is Some ==> legacy_step(
            items,
            item,
            false,
            path,
        ) == StepV::Refused("文件夹源当前不可访问："@ + path),
        item.origin != MediaOrigin::Folder && item_with_digest(items, item.sha256) is None
            ==> legacy_step(items, item, false, path) == StepV::Refused(
            "旧媒体文件不存在："@ + path,
        ),
{
}

// ---------------------------------------------------------------------------
// Requests and answers
// ---------------------------------------------------------------------------

/// A request is refused whose identifier is blank or which is too long.
pub proof fn long_request_is_refused(id: Seq<char>, cmd: Seq<char>, params: Option<JsonV>)
    ensures
        id.len() == 0 ==> request_line(id, cmd, params) == Err::<Seq<char>, Seq<char>>(
            "id 不能为空。"@,
        ),
        id.len() > 0 && byte_len(id) > 128 ==> request_line(id, cmd, params) == Err::<
            Seq<char>,
            Seq<char>,
        >("id"@ + " 超过 "@ + decimal(128) + " 字节上限。"@),
        id.len() > 0 && byte_len(id) <= 128 && byte_len(cmd) > 64 ==> request_line(id, cmd, params)
            == Err::<Seq<char>, Seq<char>>("cmd"@ + " 超过 "@ + decimal(64) + " 字节上限。"@),
        id.len() > 0 && byte_len(id) <= 128 && byte_len(cmd) <= 64 && byte_len(
            request_text(id, cmd, params),
        ) > 65536 ==> request_line(id, cmd, params) == Err::<Seq<char>, Seq<char>>(
            "IPC 请求超过 "@ + decimal(65536) + " 字节上限。"@,
        ),
{
}

/// An answer to another request is refused, as is one without an identifier; one that
/// reports a failure gives its reason where that is neither blank nor too long.
pub proof fn foreign_answer_is_refused(response: ResponseV, id: Seq<char>, reason: Seq<char>)
    ensures
        response.id != id ==> response_verdict(response, Some(id)) == Err::<JsonV, Seq<char>>(
            "插件响应 id 与请求不一致。"@,
        ),
        response.id.len() == 0 ==> response_verdict(response, None) == Err::<JsonV, Seq<char>>(
            "插件响应 id 不能为空。"@,
        ),
        response.id.len() > 0 && !response.ok && response.error == Some(reason) && 0 < reason.len()
            && byte_len(reason) <= 2048 ==> response_verdict(response, None) == Err::<
            JsonV,
            Seq<char>,
        >(reason),
        response.id.len() > 0 && !response.ok && (response.error matches Some(text) ==> text.len()
            == 0 || byte_len(text) > 2048) ==> response_verdict(response, None) == Err::<
            JsonV,
            Seq<char>,
        >("插件命令失败。"@),
{
}

/// A line is refused that is too long, that is no JSON, or that is no answer.
pub proof fn other_line_is_refused(
    line: Seq<char>,
    parsed: Result<JsonV, Seq<char>>,
    value: JsonV,
    message: Seq<char>,
    id: Option<Seq<char>>,
)
    ensures
        byte_len(line) > 65536 ==> line_verdict(line, parsed, id) == Err::<JsonV, Seq<char>>(
            "IPC 响应超过 "@ + decimal(65536) + " 字节上限。"@,
        ),
        byte_len(line) <= 65536 ==> line_verdict(line, Err(message), id) == Err::<JsonV, Seq<char>>(
            "无效插件响应："@ + message,
        ),
        byte_len(line) <= 65536 && response_of(value) is None ==> line_verdict(line, Ok(value), id)
            == Err::<JsonV, Seq<char>>("无效插件响应："@ + "响应字段缺失或类型错误。"@),
{
}

/// An answer is refused that is none, is too long, or is no text.
pub proof fn broken_answer_is_refused(bytes: Seq<u8>, id: Seq<char>, value: JsonV)
    ensures
        bytes.len() == 0 ==> answer_verdict(bytes, id) == Err::<JsonV, Seq<char>>(
            "插件没有返回响应。"@,
        ),
        bytes.len() > 65536 ==> answer_verdict(bytes, id) == Err::<JsonV, Seq<char>>(
            "IPC 响应超过 "@ + decimal(65536) + " 字节上限。"@,
        ),
        0 < bytes.len() <= 65536 && !vstd::utf8::valid_utf8(bytes) ==> answer_verdict(bytes, id)
            == Err::<JsonV, Seq<char>>("插件响应不是有效 UTF-8。"@),
        value.get_str("id"@) != Some(id) ==> plain_verdict(value, id) == Err::<JsonV, Seq<char>>(
            "插件响应 id 与请求不一致。"@,
        ),
        value.get_str("id"@) == Some(id) && id.len() == 0 ==> plain_verdict(value, id) == Err::<
            JsonV,
            Seq<char>,
        >("插件响应 id 不能为空。"@),
        value.get_str("id"@) == Some(id) && id.len() > 0 && value.get("ok"@) != Some(
            JsonV::Bool(true),
        ) && !(value.get("error"@) matches Some(JsonV::Text(_))) ==> plain_verdict(value, id)
            == Err::<JsonV, Seq<char>>("插件命令失败。"@),
{
}

/// What a capability must be is said of the one that is not.
pub proof fn odd_capability_is_refused(
    label: Seq<char>,
    key: Seq<char>,
    n: u64,
    value: JsonV,
    items: Seq<JsonV>,
)
    requires
        byte_len(key) <= 64,
    ensures
        !is_capability_name(key) ==> capability_check(label, key, value) == Err::<(), Seq<char>>(
            label + "."@ + key + " 的名称无效。"@,
        ),
        is_capability_name(key) ==> {
            &&& n > 1073741824 ==> capability_check(label, key, JsonV::Num(Num::PosInt(n)))
                == Err::<(), Seq<char>>(label + "."@ + key + " 超出允许范围。"@)
            &&& value is Num && !(value matches JsonV::Num(Num::PosInt(_))) ==> capability_check(
                label,
                key,
                value,
            ) == Err::<(), Seq<char>>(label + "."@ + key + " 必须是非负整数。"@)
            &&& items.len() > 64 ==> capability_check(label, key, JsonV::Array(items)) == Err::<
                (),
                Seq<char>,
            >(label + "."@ + key + " 超过 "@ + decimal(64) + " 项。"@)
            &&& value is Null || value is Object ==> capability_check(label, key, value) == Err::<
                (),
                Seq<char>,
            >(label + "."@ + key + " 的值类型无效。"@)
        },
{
}

/// Capabilities are refused that are none, too many, or no object.
pub proof fn odd_capabilities_are_refused(
    label: Seq<char>,
    members: Seq<(Seq<char>, JsonV)>,
    value: JsonV,
)
    ensures
        members.len() == 0 ==> capabilities_check(JsonV::Object(members), label) == Err::<
            (),
            Seq<char>,
        >(label + " 不能为空。"@),
        members.len() > 32 ==> capabilities_check(JsonV::Object(members), label) == Err::<
            (),
            Seq<char>,
        >(label + " 超过 "@ + decimal(32) + " 项。"@),
        !(value is Object) ==> capabilities_check(value, label) == Err::<(), Seq<char>>(
            label + " 必须是对象。"@,
        ),
{
}

/// A greeting is refused that lacks a part or speaks another protocol.
pub proof fn incomplete_greeting_is_refused(value: JsonV, n: u64)
    ensures
        !(value.get("pluginProtocol"@) matches Some(JsonV::Num(Num::PosInt(_)))) ==> hello_of(value)
            == Err::<HelloV, Seq<char>>("hello 缺少有效的 "@ + "pluginProtocol"@ + "。"@),
        value.get("pluginProtocol"@) == Some(JsonV::Num(Num::PosInt(n))) && n <= u32::MAX && n != 2
            ==> hello_of(value) == Err::<HelloV, Seq<char>>(
            "hello 声明的 pluginProtocol="@ + decimal(n as nat) + "，宿主当前需要 2。"@,
        ),
        value.get("pluginProtocol"@) == Some(JsonV::Num(Num::PosInt(2))) ==> {
            &&& value.get_str("pluginId"@) is None ==> hello_of(value) == Err::<HelloV, Seq<char>>(
                "hello 缺少 "@ + "pluginId"@ + "。"@,
            )
            &&& value.get_str("pluginId"@) == Some(Seq::<char>::empty()) ==> hello_of(value)
                == Err::<HelloV, Seq<char>>("hello."@ + "pluginId"@ + " 不能为空。"@)
            &&& (value.get_str("pluginId"@) matches Some(id) && 0 < id.len() && byte_len(id) <= 128)
                ==> {
                &&& value.get_str("version"@) is None ==> hello_of(value) == Err::<
                    HelloV,
                    Seq<char>,
                >("hello 缺少 "@ + "version"@ + "。"@)
                &&& (value.get_str("version"@) matches Some(version) && 0 < version.len()
                    && byte_len(version) <= 64) && value.get("capabilities"@) is None ==> hello_of(
                    value,
                ) == Err::<HelloV, Seq<char>>("hello 缺少 capabilities。"@)
            }
        },
{
    assert(vstd::utf8::encode_utf8(Seq::<char>::empty()).len() == 0);
}

/// An address is refused that is not a local one, and the reason says why not.
pub proof fn foreign_address_is_refused(url: Seq<char>, parts: UrlV)
    requires
        byte_len(url) <= 2048,
    ensures
        media_url_check(url, None) == Err::<(), Seq<char>>("媒体 URL 无效。"@),
        parts.scheme != "http"@ ==> media_url_check(url, Some(parts)) == Err::<(), Seq<char>>(
            "媒体 URL 必须是 http 回环地址。"@,
        ),
        parts.scheme == "http"@ && parts.host is None ==> media_url_check(url, Some(parts)) == Err::<
            (),
            Seq<char>,
        >("媒体 URL 缺少主机名。"@),
        parts.scheme == "http"@ && (parts.host matches Some(host) && host != "127.0.0.1"@ && lower(
            host,
        ) != lower("localhost"@)) ==> media_url_check(url, Some(parts)) == Err::<(), Seq<char>>(
            "媒体 URL 必须指向 127.0.0.1 或 localhost。"@,
        ),
        parts.scheme == "http"@ && parts.host == Some("127.0.0.1"@) && (parts.username.len() > 0
            || parts.password is Some) ==> media_url_check(url, Some(parts)) == Err::<
            (),
            Seq<char>,
        >("媒体 URL 不能包含账号信息。"@),
{
}

/// The first part of the media that is not plain is named.
pub proof fn odd_media_is_refused(media: ConfigureMediaV)
    ensures
        media.kind != "image"@ && media.kind != "video"@ ==> media_fields_check(media) == Err::<
            (),
            Seq<char>,
        >("media.kind 只能是 image 或 video。"@),
        (media.kind == "image"@ || media.kind == "video"@) && media.mime_type.len() > 0 && byte_len(
            media.mime_type,
        ) <= 128 ==> {
            &&& byte_len(media.sha256) < 64 ==> media_fields_check(media) == Err::<(), Seq<char>>(
                "media.sha256 必须是 64 位十六进制。"@,
            )
            &&& byte_len(media.sha256) == 64 && all_hex(media.sha256) && (media.byte_size == 0
                || media.byte_size > 1073741824) ==> media_fields_check(media) == Err::<
                (),
                Seq<char>,
            >("media.byteSize 超出允许范围。"@)
        },
{
}

/// Settings are refused that are no flat object.
pub proof fn nested_settings_are_refused(
    key: Seq<char>,
    value: JsonV,
    members: Seq<(Seq<char>, JsonV)>,
)
    ensures
        byte_len(key) <= 64 && (value is Array || value is Object) ==> display_field_check(key, value)
            == Err::<(), Seq<char>>("display."@ + key + " 不能是嵌套结构。"@),
        members.len() > 64 ==> display_check(JsonV::Object(members)) == Err::<(), Seq<char>>(
            "display 字段数超过 "@ + decimal(64) + "。"@,
        ),
        !(value is Object) ==> display_check(value) == Err::<(), Seq<char>>(
            "display 必须是对象。"@,
        ),
{
}

/// What is sent has a revision, and is not too long.
pub proof fn long_parameters_are_refused(
    revision: Seq<char>,
    media: ConfigureMediaV,
    display: JsonV,
    parsed: Option<UrlV>,
)
    ensures
        revision.len() == 0 || byte_len(revision) > 128 ==> configure_params(
            revision,
            media,
            display,
            parsed,
        ) == Err::<JsonV, Seq<char>>("configure.revision 无效。"@),
        revision.len() > 0 && byte_len(revision) <= 128 && configure_media_check(media, parsed) is Ok
            && display_check(display) is Ok && byte_len(
            json_text(configure_value(revision, media, display)),
        ) > 65280 ==> configure_params(revision, media, display, parsed) == Err::<
            JsonV,
            Seq<char>,
        >("configure 参数超过长度上限。"@),
{
}

// ---------------------------------------------------------------------------
// Manifests
// ---------------------------------------------------------------------------

/// A text of a manifest is refused that is blank or too long.
pub proof fn long_text_is_refused(label: Seq<char>, value: Seq<char>, max: nat)
    ensures
        trimmed(value).len() == 0 ==> len_check(label, value, max, true) == Err::<(), Seq<char>>(
            "plugin.json "@ + label + " 不能为空。"@,
        ),
        trimmed(value).len() > 0 && byte_len(value) > max ==> len_check(label, value, max, true)
            == Err::<(), Seq<char>>(
            "plugin.json "@ + label + " 超过 "@ + decimal(max) + " 字节。"@,
        ),
        byte_len(value) > max ==> len_check(label, value, max, false) == Err::<(), Seq<char>>(
            "plugin.json "@ + label + " 超过 "@ + decimal(max) + " 字节。"@,
        ),
{
}

/// The names of a plugin are refused that are no plain names.
pub proof fn odd_names_are_refused(name: Seq<char>)
    ensures
        trimmed(name).len() > 0 && byte_len(name) <= 64 ==> id_check(name) is Err ==> id_check(
            name,
        )->Err_0 == "plugin.json id 只能包含小写字母、数字和连字符。"@,
        trimmed(name).len() > 0 && byte_len(name) <= 180 ==> exe_name_check(name) is Err
            ==> exe_name_check(name)->Err_0 == "plugin.json exeName 不能包含路径。"@,
        trimmed(name).len() > 0 && byte_len(name) <= 180 ==> pipe_name_check(name) is Err ==> (
        pipe_name_check(name)->Err_0 == (if has_prefix(
            replaced(name, '/', '\\'),
            "\\\\.\\pipe\\"@,
        ) {
            "plugin.json pipeName 非法。"@
        } else {
            "plugin.json pipeName 必须以 \\\\.\\pipe\\ 开头。"@
        })),
{
}

/// A manifest of another version or protocol is refused, with the number.
pub proof fn other_manifest_is_refused(manifest: ManifestV)
    ensures
        manifest.schema_version != 1 ==> manifest_check(manifest) == Err::<(), Seq<char>>(
            "plugin.json schemaVersion="@ + decimal(manifest.schema_version as nat)
                + " 不受支持。"@,
        ),
        manifest.schema_version == 1 && manifest.plugin_protocol != 1 && manifest.plugin_protocol
            != 2 ==> manifest_check(manifest) == Err::<(), Seq<char>>(
            "plugin.json pluginProtocol="@ + decimal(manifest.plugin_protocol as nat)
                + " 不受支持。"@,
        ),
{
}

/// A file is refused as a manifest that is too long, that is no JSON, or no object.
pub proof fn other_file_is_no_manifest(
    raw: Seq<char>,
    message: Seq<char>,
    value: JsonV,
    size: u64,
    text: Result<Seq<char>, Seq<char>>,
    below: Seq<Seq<char>>,
)
    ensures
        byte_len(raw) > 131072 ==> manifest_parsed(raw) == Err::<ManifestV, Seq<char>>(
            "plugin.json 超过 "@ + decimal(131072) + " 字节上限。"@,
        ),
        byte_len(raw) <= 131072 && json_parsed(raw) == Err::<JsonV, Seq<char>>(message)
            ==> manifest_parsed(raw) == Err::<ManifestV, Seq<char>>(
            "plugin.json 不是合法 JSON："@ + message,
        ),
        !(value is Object) ==> manifest_read(value) == Err::<ManifestV, Seq<char>>(
            "plugin.json 必须是对象。"@,
        ),
        value is Object && missing_name(value, required_names()) is None && manifest_of(value)
            == Err::<ManifestV, Seq<char>>(message) ==> manifest_read(value) == Err::<
            ManifestV,
            Seq<char>,
        >("plugin.json 字段类型无效："@ + message),
        installed_manifest(Err(message), text) == Err::<ManifestV, Seq<char>>(
            "读取 plugin.json 失败："@ + message,
        ),
        size > 131072 ==> installed_manifest(Ok(size), text) == Err::<ManifestV, Seq<char>>(
            "plugin.json 超过 "@ + decimal(131072) + " 字节上限。"@,
        ),
        size <= 131072 ==> installed_manifest(Ok(size), Err(message)) == Err::<
            ManifestV,
            Seq<char>,
        >("读取 plugin.json 失败："@ + message),
        below.len() > 1 ==> chosen_manifest(None, below) == Err::<Option<Seq<char>>, Seq<char>>(
            "插件包包含多个 plugin.json。"@,
        ),
{
}

/// A schema of settings is refused that is no object of up to 64 properties.
pub proof fn other_schema_is_refused(value: JsonV, members: Seq<(Seq<char>, JsonV)>)
    ensures
        !(value is Object) ==> schema_check(value) == Err::<(), Seq<char>>(
            "plugin.json settingsSchema 必须是对象。"@,
        ),
        value is Object && value.get_str("type"@) != Some("object"@) ==> schema_check(value)
            == Err::<(), Seq<char>>("plugin.json settingsSchema.type 必须是 object。"@),
        value is Object && value.get_str("type"@) == Some("object"@) ==> {
            &&& !(value.get("properties"@) matches Some(JsonV::Object(_))) ==> schema_check(value)
                == Err::<(), Seq<char>>("plugin.json settingsSchema.properties 必须是对象。"@)
            &&& value.get("properties"@) == Some(JsonV::Object(members)) && members.len() > 64
                ==> schema_check(value) == Err::<(), Seq<char>>(
                "plugin.json settingsSchema.properties 超过 "@ + decimal(64) + " 项。"@,
            )
        },
{
}

/// A property of a schema is refused that is no object, has no type, or one that is
/// not known; and what it says of its title, bounds and choices must be right.
pub proof fn other_property_is_refused(
    key: Seq<char>,
    field: JsonV,
    name: Seq<char>,
    value: JsonV,
)
    requires
        trimmed(key).len() > 0,
        byte_len(key) <= 64,
    ensures
        !(field is Object) ==> property_check(key, field) == Err::<(), Seq<char>>(
            "settingsSchema.properties."@ + key + " 必须是对象。"@,
        ),
        field is Object && field.get_str("type"@) is None ==> property_check(key, field) == Err::<
            (),
            Seq<char>,
        >("settingsSchema.properties."@ + key + ".type 缺失。"@),
        field is Object && (field.get_str("type"@) matches Some(kind) && kind != "boolean"@ && kind
            != "number"@ && kind != "string"@) ==> property_check(key, field) == Err::<
            (),
            Seq<char>,
        >("settingsSchema.properties."@ + key + ".type 不受支持。"@),
        (field.get("title"@) matches Some(title) && title.as_str() is None) ==> title_check(
            key,
            field,
        ) == Err::<(), Seq<char>>("settingsSchema.properties."@ + key + ".title 必须是字符串。"@),
        field.get(name) == Some(value) && value.as_double() is None ==> bound_check(key, field, name)
            == Err::<(), Seq<char>>(
            "settingsSchema.properties."@ + key + ("."@ + name + " 必须是数字。"@),
        ),
        field.get("enum"@) == Some(value) && value.as_array() is None ==> enum_check(key, field)
            == Err::<(), Seq<char>>(
            "settingsSchema.properties."@ + key + ".enum 必须是数组。"@,
        ),
        field.get("enum"@) == Some(value) && (value.as_array() matches Some(items) && (items.len()
            == 0 || items.len() > 32)) ==> enum_check(key, field) == Err::<(), Seq<char>>(
            "settingsSchema.properties."@ + key + ".enum 项数无效。"@,
        ),
{
}

} // verus!
