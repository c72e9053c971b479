use background_studio::media::{MediaPath, ResolvedMedia};
use background_studio::media_server::{
    common_headers, extract_media_id, is_safe_media_id, parse_range, parse_range_value, plain,
    preview_revision, serve, Body, FoundFile, MediaServer, ServedEntry, ServedMedia, Verb,
};
use background_studio::models::MediaKind;
use background_studio::protocol::validate_media_url;

#[test]
fn rejects_path_traversal_and_wrong_token() {
    let token = "a".repeat(64);
    assert!(extract_media_id(&format!("/{token}/media/abc-def"), &token).is_some());
    assert!(extract_media_id(&format!("/{token}/media/../secret"), &token).is_none());
    assert!(extract_media_id(&format!("/{token}/media/foo/bar"), &token).is_none());
    assert!(extract_media_id(&format!("/{token}/media/%2e%2e/secret"), &token).is_none());
    assert!(extract_media_id("/wrong/media/abc-def", &token).is_none());
    assert!(!is_safe_media_id("../x"));
    assert!(!is_safe_media_id("a/b"));
}

#[test]
fn parses_standard_and_suffix_ranges() {
    assert_eq!(parse_range_value("bytes=10-19", 100), Ok((10, 19)));
    assert_eq!(parse_range_value("bytes=-10", 100), Ok((90, 99)));
    assert!(parse_range_value("bytes=-0", 100).is_err());
}

#[test]
fn ranges_are_kept_within_the_file() {
    assert_eq!(parse_range_value("bytes=10-", 100), Ok((10, 99)));
    assert_eq!(parse_range_value("bytes=10-500", 100), Ok((10, 99)));
    assert_eq!(parse_range_value("bytes=-500", 100), Ok((0, 99)));
    assert!(parse_range_value("bytes=100-", 100).is_err());
    assert!(parse_range_value("bytes=20-10", 100).is_err());
    assert!(parse_range_value("bytes=a-b", 100).is_err());
    assert!(parse_range_value("items=0-1", 100).is_err());
    assert!(parse_range_value("bytes=0-1,3-4", 100).is_err());
    assert!(parse_range_value("bytes=0-1", 0).is_err());
    let headers = vec![("RANGE".to_string(), "bytes=1-2".to_string())];
    assert_eq!(parse_range(&headers, 10), Ok(Some((1, 2))));
    assert_eq!(parse_range(&Vec::new(), 10), Ok(None));
}

fn header<'a>(headers: &'a [(String, String)], name: &str) -> Option<&'a str> {
    headers
        .iter()
        .find(|(key, _)| key.eq_ignore_ascii_case(name))
        .map(|(_, value)| value.as_str())
}

fn item() -> ServedMedia {
    ServedMedia {
        path: "/m/ok.png".to_string(),
        mime_type: "image/png".to_string(),
        byte_size: 67,
        revision: "test".to_string(),
    }
}

fn found() -> FoundFile {
    FoundFile {
        canonical: Some("/m/ok.png".to_string()),
        opened: true,
        size: Some(67),
    }
}

#[test]
fn serves_range_and_rejects_unknown_id() {
    let mut server = MediaServer::start(4000);
    assert_eq!(server.origin(), "http://127.0.0.1:4000");
    assert_eq!(server.token().len(), 64);
    let id = "11111111-1111-1111-1111-111111111111";
    server.register(id, item());
    let path = format!("/{}/media/{id}", server.token());
    let target = server.target(Verb::Get, &path).ok().unwrap();
    assert_eq!(target.path, "/m/ok.png");

    let answer = serve(Verb::Get, &Vec::new(), &target, &found());
    assert_eq!(answer.status, 200);
    assert_eq!(header(&answer.headers, "content-type"), Some("image/png"));
    assert_eq!(answer.body, Body::Whole(67));

    let headers = vec![("Range".to_string(), "bytes=10-19".to_string())];
    let answer = serve(Verb::Get, &headers, &target, &found());
    assert_eq!(answer.status, 206);
    assert_eq!(
        header(&answer.headers, "content-range"),
        Some("bytes 10-19/67")
    );
    assert_eq!(answer.body, Body::Part(10, 10));

    let headers = vec![("Range".to_string(), "bytes=70-".to_string())];
    assert_eq!(serve(Verb::Get, &headers, &target, &found()).status, 416);

    let head = serve(Verb::Head, &Vec::new(), &target, &found());
    assert_eq!(head.status, 200);
    assert_eq!(head.body, Body::Empty);

    let traversal = format!("/{}/media/../{id}", server.token());
    assert_eq!(server.target(Verb::Get, &traversal).err().unwrap().status, 404);
    let wrong = format!("/deadbeef/media/{id}");
    assert_eq!(server.target(Verb::Get, &wrong).err().unwrap().status, 404);
    let unknown = format!("/{}/media/other", server.token());
    assert_eq!(server.target(Verb::Get, &unknown).err().unwrap().status, 404);
    assert_eq!(server.target(Verb::Other, &path).err().unwrap().status, 405);
}

#[test]
fn moved_files_are_not_served() {
    let mut elsewhere = found();
    elsewhere.canonical = Some("/m/other.png".to_string());
    assert_eq!(serve(Verb::Get, &Vec::new(), &item(), &elsewhere).status, 404);
    let mut closed = found();
    closed.opened = false;
    assert_eq!(serve(Verb::Get, &Vec::new(), &item(), &closed).status, 404);
    assert_eq!(plain(405).status, 405);
    assert!(common_headers("video/mp4")
        .iter()
        .any(|(_, value)| value == "video/mp4"));
}

#[test]
fn url_of_a_served_file_leads_back_to_it() {
    let mut server = MediaServer::with_token(81, "b".repeat(64));
    let media = ResolvedMedia {
        path: MediaPath::Managed("a.png".to_string()),
        mime_type: "image/png".to_string(),
        byte_size: 3,
        kind: MediaKind::Image,
        sha256: "c".repeat(64),
    };
    let revision = preview_revision("/d/a.png", &media);
    assert_eq!(revision.len(), 64);
    server.sync(&vec![
        ServedEntry {
            id: "x-1".to_string(),
            media: Some(media),
            path: "/d/a.png".to_string(),
        },
        ServedEntry {
            id: "x-2".to_string(),
            media: None,
            path: String::new(),
        },
    ]);
    let url = server.url_for("x-1").unwrap();
    assert_eq!(
        url,
        format!("http://127.0.0.1:81/{}/media/x-1?v={revision}", "b".repeat(64))
    );
    let path = url.strip_prefix(server.origin()).unwrap();
    assert_eq!(server.target(Verb::Get, path).ok().unwrap().path, "/d/a.png");
    assert_eq!(server.url_for("x-2"), None);
    assert_eq!(server.url_for("../x"), None);
}

#[test]
fn served_url_passes_the_loopback_check() {
    let mut server = MediaServer::start(4321);
    assert_eq!(server.url_for("m-1"), None);
    let entry = ServedEntry {
        id: "m-1".to_string(),
        media: Some(ResolvedMedia {
            path: MediaPath::Managed("m-1.png".to_string()),
            mime_type: "image/png".to_string(),
            byte_size: 3,
            kind: MediaKind::Image,
            sha256: "0".repeat(64),
        }),
        path: "/media/m-1.png".to_string(),
    };
    server.sync(&vec![entry]);
    let url = server.url_for("m-1").unwrap();
    assert!(url.starts_with(server.origin()));
    let parts = validate_media_url(&url).ok().unwrap();
    assert_eq!(parts.host.as_deref(), Some("127.0.0.1"));
    assert!(validate_media_url("http://127.0.0.1:0/a@b:c?d#e f").is_ok());
    assert_eq!(server.url_for("m-2"), None);
}

#[test]
fn only_the_registered_file_has_a_url() {
    let mut server = MediaServer::start(80);
    server.register("../x", item());
    assert_eq!(server.url_for("../x"), None);
    server.register("x", item());
    let url = server.url_for("x").unwrap();
    let path = &url[server.origin().len()..];
    assert_eq!(extract_media_id(path, server.token()).as_deref(), Some("x"));
    assert_eq!(server.url_for("y"), None);
}
