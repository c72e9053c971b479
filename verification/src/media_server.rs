//! The media server: which requests it answers, and with what.
use vstd::prelude::*;

use crate::address::{is_local_url, local_parts, local_url, reads_local, UrlV};
use crate::digest::{is_digest, sha256_hex, sha256_of};
use crate::media::{ResolvedMedia, ResolvedV};
use crate::protocol::{loopback_check, media_url_check, push_bytes, MAX_STRING_BYTES};
use crate::stamp::{is_id_letter, is_token, is_uuid, new_token};
use crate::table::Table;
use crate::text::{
    alphanumeric, byte_count, byte_len, chars_of, contains_char, contains_text, decimal,
    decimal_text, each, first_at, has_part, has_prefix, index_of, is_alphanumeric, is_hex_digit,
    lemma_decimal_digits, lemma_first_at, lemma_not_fewer_bytes, lower, lower_text, numeral,
    occurs_at, parse_numeral, same, starts_with, text_of,
};

verus! {

// ---------------------------------------------------------------------------
// Ranges
// ---------------------------------------------------------------------------

/// The bytes from the first to the second place that a pair of numerals asks
/// for, of a file of `size` bytes. Without a start the last bytes are meant,
/// without an end all bytes from the start on.
pub open spec fn span_of(start: Seq<char>, end: Seq<char>, size: u64) -> Option<(u64, u64)> {
    if start.len() == 0 {
        match numeral(end) {
            None => None,
            Some(count) => if size == 0 || count == 0 {
                None
            } else if count >= size {
                Some((0, (size - 1) as u64))
            } else {
                Some(((size - count) as u64, (size - 1) as u64))
            },
        }
    } else {
        match numeral(start) {
            None => None,
            Some(from) => {
                let asked = if end.len() == 0 {
                    if size == 0 {
                        Some(0u64)
                    } else {
                        Some((size - 1) as u64)
                    }
                } else {
                    numeral(end)
                };
                match asked {
                    None => None,
                    Some(to) => if size == 0 || from >= size || to < from {
                        None
                    } else if to < size {
                        Some((from, to))
                    } else {
                        Some((from, (size - 1) as u64))
                    },
                }
            },
        }
    }
}

/// The bytes that the value of a `Range` header asks for.
pub open spec fn range_of(value: Seq<char>, size: u64) -> Option<(u64, u64)> {
    if !has_prefix(value, "bytes="@) {
        None
    } else {
        let range = value.skip("bytes="@.len() as int);
        let at = first_at(range, '-');
        if range.contains(',') || at >= range.len() {
            None
        } else {
            span_of(range.take(at), range.skip(at + 1), size)
        }
    }
}

/// The model of a range, or of the refusal.
pub open spec fn range_outcome(r: Result<(u64, u64), ()>) -> Option<(u64, u64)> {
    match r {
        Ok(range) => Some(range),
        Err(_) => None,
    }
}

fn parse_span(start: &str, end: &str, size: u64) -> (r: Result<(u64, u64), ()>)
    ensures
        range_outcome(r) == span_of(start@, end@, size),
{
    if start.is_empty() {
        return match parse_numeral(end) {
            None => Err(()),
            Some(count) => if size == 0 || count == 0 {
                Err(())
            } else if count >= size {
                Ok((0, size - 1))
            } else {
                Ok((size - count, size - 1))
            },
        };
    }
    let from: u64 = match parse_numeral(start) {
        Some(from) => from,
        None => {
            return Err(());
        },
    };
    let to: u64 = if end.is_empty() {
        if size == 0 {
            0
        } else {
            size - 1
        }
    } else {
        match parse_numeral(end) {
            Some(to) => to,
            None => {
                return Err(());
            },
        }
    };
    if size == 0 || from >= size || to < from {
        return Err(());
    }
    if to < size {
        Ok((from, to))
    } else {
        Ok((from, size - 1))
    }
}

/// Reads the value of a `Range` header.
pub fn parse_range_value(value: &str, size: u64) -> (r: Result<(u64, u64), ()>)
    ensures
        range_outcome(r) == range_of(value@, size),
{
    if !starts_with(value, "bytes=") {
        return Err(());
    }
    let chars = chars_of(value);
    let front = chars_of("bytes=").len();
    let range = text_of(&chars, front, chars.len());
    assert(range@ =~= value@.skip("bytes="@.len() as int));
    if contains_char(range.as_str(), ',') {
        return Err(());
    }
    let rest = chars_of(range.as_str());
    let at = index_of(&rest, '-');
    proof {
        lemma_first_at(range@, '-');
    }
    if at >= rest.len() {
        return Err(());
    }
    let start = text_of(&rest, 0, at);
    let end = text_of(&rest, at + 1, rest.len());
    assert(start@ =~= range@.take(at as int));
    assert(end@ =~= range@.skip(at + 1));
    parse_span(start.as_str(), end.as_str(), size)
}

/// A range lies within the file.
pub proof fn range_is_within_file(value: Seq<char>, size: u64)
    ensures
        range_of(value, size) matches Some((start, end)) ==> start <= end < size,
{
}

/// The value of the first header of this name, whatever its case.
pub open spec fn header_value(headers: Seq<(Seq<char>, Seq<char>)>, name: Seq<char>) -> Option<
    Seq<char>,
>
    decreases headers.len(),
{
    if headers.len() == 0 {
        None
    } else if lower(headers[0].0) == lower(name) {
        Some(headers[0].1)
    } else {
        header_value(headers.drop_first(), name)
    }
}

/// The model of headers.
pub open spec fn headers_view(headers: Seq<(String, String)>) -> Seq<(Seq<char>, Seq<char>)> {
    headers.map_values(|pair: (String, String)| (pair.0@, pair.1@))
}

fn find_header<'a>(headers: &'a Vec<(String, String)>, name: &str) -> (r: Option<&'a String>)
    ensures
        match r {
            Some(value) => header_value(headers_view(headers@), name@) == Some(value@),
            None => header_value(headers_view(headers@), name@) is None,
        },
{
    let ghost model = headers_view(headers@);
    assert(model.skip(0) =~= model);
    let mut i: usize = 0;
    while i < headers.len()
        invariant
            i <= headers.len(),
            model == headers_view(headers@),
            header_value(model, name@) == header_value(model.skip(i as int), name@),
        decreases headers.len() - i,
    {
        proof {
            assert(model.skip(i as int)[0] == (headers@[i as int].0@, headers@[i as int].1@));
            assert(model.skip(i as int).drop_first() =~= model.skip(i + 1));
        }
        if same(lower_text(headers[i].0.as_str()).as_str(), lower_text(name).as_str()) {
            return Some(&headers[i].1);
        }
        i += 1;
    }
    None
}

/// The range that the headers of a request ask for: none, one, or one that
/// cannot be given.
pub open spec fn asked_range(headers: Seq<(Seq<char>, Seq<char>)>, size: u64) -> Result<
    Option<(u64, u64)>,
    (),
> {
    match header_value(headers, "Range"@) {
        None => Ok(None),
        Some(value) => match range_of(value, size) {
            Some(range) => Ok(Some(range)),
            None => Err(()),
        },
    }
}

/// Reads the range that the headers of a request ask for.
pub fn parse_range(headers: &Vec<(String, String)>, size: u64) -> (r: Result<
    Option<(u64, u64)>,
    (),
>)
    ensures
        r == asked_range(headers_view(headers@), size),
{
    match find_header(headers, "Range") {
        None => Ok(None),
        Some(value) => match parse_range_value(value.as_str(), size) {
            Ok(range) => Ok(Some(range)),
            Err(_) => Err(()),
        },
    }
}

// ---------------------------------------------------------------------------
// Identifiers in URLs
// ---------------------------------------------------------------------------

pub open spec fn is_media_letter(c: char) -> bool {
    is_alphanumeric(c) || c == '-' || c == '_'
}

/// An identifier that can stand in a URL: one to 64 letters, digits, hyphens
/// and underscores.
pub open spec fn is_safe_id(id: Seq<char>) -> bool {
    id.len() > 0 && byte_len(id) <= 64 && each(id, |c: char| is_media_letter(c))
}

/// A safe identifier cannot leave the directory: it holds no separator and no
/// step upwards.
pub proof fn safe_id_stays_inside(id: Seq<char>)
    requires
        is_safe_id(id),
    ensures
        !id.contains('/'),
        !id.contains('\\'),
        !id.contains('?'),
        !has_part(id, ".."@),
{
    let p = |c: char| is_media_letter(c);
    assert forall|i: int| 0 <= i < id.len() implies is_media_letter(#[trigger] id[i]) by {
        assert(p(id[i]));
    }
    if has_part(id, ".."@) {
        reveal_strlit("..");
        let at = choose|at: int| occurs_at(id, ".."@, at);
        assert(occurs_at(id, ".."@, at));
        assert(id.subrange(at, at + ".."@.len())[0] == '.');
        assert(id[at] == '.');
        assert(is_media_letter(id[at]));
    }
}

/// Whether an identifier can stand in a URL.
pub fn is_safe_media_id(id: &str) -> (r: bool)
    ensures
        r == is_safe_id(id@),
{
    if id.is_empty() || byte_count(id) > 64 {
        return false;
    }
    for c in it: id.chars()
        invariant
            it.seq() == id@,
            forall|k: int| 0 <= k < it.index() ==> is_media_letter(#[trigger] id@[k]),
    {
        if !(alphanumeric(c) || c == '-' || c == '_') {
            assert(!is_media_letter(id@[it.index() as int]));
            return false;
        }
    }
    true
}

/// The identifier that a request for a path names.
pub open spec fn media_id_in(url: Seq<char>, token: Seq<char>) -> Option<Seq<char>> {
    let path = url.take(first_at(url, '?'));
    let front = "/"@ + token + "/media/"@;
    if token.len() == 0 || token.contains('/') || has_part(token, ".."@) {
        None
    } else if !has_prefix(path, front) {
        None
    } else if !is_safe_id(path.skip(front.len() as int)) {
        None
    } else {
        Some(path.skip(front.len() as int))
    }
}

/// Reads the identifier that a request for a path names.
pub fn extract_media_id(url_path: &str, token: &str) -> (r: Option<String>)
    ensures
        (match r {
            Some(id) => Some(id@),
            None => None,
        }) == media_id_in(url_path@, token@),
{
    proof {
        lemma_first_at(url_path@, '?');
    }
    let chars = chars_of(url_path);
    let cut = index_of(&chars, '?');
    let path = text_of(&chars, 0, cut);
    assert(path@ =~= url_path@.take(cut as int));
    if token.is_empty() || contains_char(token, '/') || contains_text(token, "..") {
        return None;
    }
    let front = "/".to_string().concat(token).concat("/media/");
    if !starts_with(path.as_str(), front.as_str()) {
        return None;
    }
    let letters = chars_of(path.as_str());
    let id = text_of(&letters, chars_of(front.as_str()).len(), letters.len());
    assert(id@ =~= path@.skip(front@.len() as int));
    if is_safe_media_id(id.as_str()) {
        Some(id)
    } else {
        None
    }
}

/// A request is let in only with the token, and only for a safe identifier.
pub proof fn requests_need_the_token(url: Seq<char>, token: Seq<char>)
    ensures
        media_id_in(url, token) matches Some(id) ==> is_safe_id(id) && token.len() > 0
            && has_prefix(url, "/"@ + token + "/media/"@),
{
    lemma_first_at(url, '?');
    let path = url.take(first_at(url, '?'));
    let front = "/"@ + token + "/media/"@;
    if has_prefix(path, front) {
        assert(url.subrange(0, front.len() as int) =~= path.subrange(0, front.len() as int));
    }
}

// ---------------------------------------------------------------------------
// Answers
// ---------------------------------------------------------------------------

/// A file that is served under an identifier.
pub struct ServedMedia {
    pub path: String,
    pub mime_type: String,
    pub byte_size: u64,
    pub revision: String,
}

/// The model of a served file.
pub struct ServedV {
    pub path: Seq<char>,
    pub mime_type: Seq<char>,
    pub byte_size: u64,
    pub revision: Seq<char>,
}

impl View for ServedMedia {
    type V = ServedV;

    open spec fn view(&self) -> ServedV {
        ServedV {
            path: self.path@,
            mime_type: self.mime_type@,
            byte_size: self.byte_size,
            revision: self.revision@,
        }
    }
}

impl ServedMedia {
    pub fn copy(&self) -> (r: ServedMedia)
        ensures
            r@ == self@,
    {
        ServedMedia {
            path: self.path.clone(),
            mime_type: self.mime_type.clone(),
            byte_size: self.byte_size,
            revision: self.revision.clone(),
        }
    }
}

/// The method of a request.
#[derive(Clone, Copy, Debug, PartialEq, Eq, Structural)]
pub enum Verb {
    Get,
    Head,
    Other,
}

/// What an answer carries.
#[derive(Clone, Copy, Debug, PartialEq, Eq, Structural)]
pub enum Body {
    /// Nothing, in an answer without a body.
    Empty,
    /// An empty text.
    Blank,
    /// The whole file, of this size.
    Whole(u64),
    /// A part of the file: its start and its length.
    Part(u64, u64),
}

/// An answer to a request.
pub struct Answer {
    pub status: u16,
    pub headers: Vec<(String, String)>,
    pub body: Body,
}

/// The model of an answer.
pub struct AnswerV {
    pub status: u16,
    pub headers: Seq<(Seq<char>, Seq<char>)>,
    pub body: Body,
}

impl View for Answer {
    type V = AnswerV;

    open spec fn view(&self) -> AnswerV {
        AnswerV { status: self.status, headers: headers_view(self.headers@), body: self.body }
    }
}

/// An answer that only has a status.
pub open spec fn plain_answer(status: u16) -> AnswerV {
    AnswerV {
        status,
        headers: seq![
            ("Cache-Control"@, "no-store"@),
            ("Access-Control-Allow-Origin"@, "*"@),
        ],
        body: Body::Blank,
    }
}

fn header(name: &str, value: &str) -> (r: (String, String))
    ensures
        (r.0@, r.1@) == (name@, value@),
{
    (name.to_string(), value.to_string())
}

/// An answer that only has a status.
pub fn plain(status: u16) -> (r: Answer)
    ensures
        r@ == plain_answer(status),
{
    let r = Answer {
        status,
        headers: vec![
            header("Cache-Control", "no-store"),
            header("Access-Control-Allow-Origin", "*"),
        ],
        body: Body::Blank,
    };
    assert(r@.headers =~= plain_answer(status).headers);
    r
}

/// The headers of every answer that carries a file.
pub open spec fn file_headers(mime_type: Seq<char>) -> Seq<(Seq<char>, Seq<char>)> {
    seq![
        ("Content-Type"@, mime_type),
        ("Accept-Ranges"@, "bytes"@),
        ("Cache-Control"@, "private, max-age=3600"@),
        ("Cross-Origin-Resource-Policy"@, "cross-origin"@),
        ("Access-Control-Allow-Origin"@, "*"@),
        ("X-Content-Type-Options"@, "nosniff"@),
    ]
}

/// The headers of every answer that carries a file.
pub fn common_headers(mime_type: &str) -> (r: Vec<(String, String)>)
    ensures
        headers_view(r@) == file_headers(mime_type@),
{
    let r: Vec<(String, String)> = vec![
        header("Content-Type", mime_type),
        header("Accept-Ranges", "bytes"),
        header("Cache-Control", "private, max-age=3600"),
        header("Cross-Origin-Resource-Policy", "cross-origin"),
        header("Access-Control-Allow-Origin", "*"),
        header("X-Content-Type-Options", "nosniff"),
    ];
    assert(headers_view(r@) =~= file_headers(mime_type@));
    r
}

/// What the file system says of a served file: where it really lies, whether
/// it could be opened, and its size where that is known.
pub struct FoundFile {
    pub canonical: Option<String>,
    pub opened: bool,
    pub size: Option<u64>,
}

/// The text of a range in a header.
pub open spec fn range_text(start: u64, end: u64, size: u64) -> Seq<char> {
    "bytes "@ + decimal(start as nat) + "-"@ + decimal(end as nat) + "/"@ + decimal(size as nat)
}

/// The answer to a request for a file that could be opened.
pub open spec fn file_answer(
    verb: Verb,
    headers: Seq<(Seq<char>, Seq<char>)>,
    item: ServedV,
    size: u64,
) -> AnswerV {
    match asked_range(headers, size) {
        Err(_) => AnswerV {
            status: 416,
            headers: seq![("Content-Range"@, "bytes */"@ + decimal(size as nat))],
            body: Body::Empty,
        },
        Ok(Some((start, end))) => {
            let length = (end - start + 1) as u64;
            let with_range = file_headers(item.mime_type).push(
                ("Content-Range"@, range_text(start, end, size)),
            );
            if verb == Verb::Head {
                AnswerV {
                    status: 206,
                    headers: with_range.push(("Content-Length"@, decimal(length as nat))),
                    body: Body::Empty,
                }
            } else {
                AnswerV { status: 206, headers: with_range, body: Body::Part(start, length) }
            }
        },
        Ok(None) => if verb == Verb::Head {
            AnswerV {
                status: 200,
                headers: file_headers(item.mime_type).push(
                    ("Content-Length"@, decimal(size as nat)),
                ),
                body: Body::Empty,
            }
        } else {
            AnswerV {
                status: 200,
                headers: file_headers(item.mime_type),
                body: Body::Whole(size),
            }
        },
    }
}

/// The file that a request asks for, or the status with which it is refused.
pub open spec fn request_target(
    verb: Verb,
    url: Seq<char>,
    token: Seq<char>,
    media: Map<Seq<char>, ServedV>,
) -> Result<ServedV, u16> {
    if verb == Verb::Other {
        Err(405)
    } else {
        match media_id_in(url, token) {
            None => Err(404),
            Some(id) => if media.contains_key(id) {
                Ok(media[id])
            } else {
                Err(404)
            },
        }
    }
}

/// The answer to a request for a served file.
pub open spec fn served_answer(
    verb: Verb,
    headers: Seq<(Seq<char>, Seq<char>)>,
    item: ServedV,
    canonical: Option<Seq<char>>,
    opened: bool,
    size: Option<u64>,
) -> AnswerV {
    if canonical != Some(item.path) || !opened {
        plain_answer(404)
    } else {
        file_answer(
            verb,
            headers,
            item,
            match size {
                Some(known) => known,
                None => item.byte_size,
            },
        )
    }
}

fn push_header(headers: &mut Vec<(String, String)>, name: &str, value: &str)
    ensures
        headers_view(final(headers)@) == headers_view(old(headers)@).push((name@, value@)),
{
    let ghost start = headers@;
    headers.push(header(name, value));
    assert(headers_view(headers@) =~= headers_view(start).push((name@, value@)));
}

fn answer_file(
    verb: Verb,
    headers: &Vec<(String, String)>,
    item: &ServedMedia,
    size: u64,
) -> (r: Answer)
    ensures
        r@ == file_answer(verb, headers_view(headers@), item@, size),
{
    proof {
        match header_value(headers_view(headers@), "Range"@) {
            Some(value) => {
                range_is_within_file(value, size);
            },
            None => {},
        }
    }
    match parse_range(headers, size) {
        Err(_) => {
            let text = "bytes */".to_string().concat(decimal_text(size).as_str());
            let r = Answer {
                status: 416,
                headers: vec![header("Content-Range", text.as_str())],
                body: Body::Empty,
            };
            assert(r@.headers =~= seq![
                ("Content-Range"@, "bytes */"@ + decimal(size as nat)),
            ]);
            r
        },
        Ok(Some((start, end))) => {
            let length: u64 = end - start + 1;
            let mut out = common_headers(item.mime_type.as_str());
            let text = "bytes ".to_string().concat(decimal_text(start).as_str()).concat(
                "-",
            ).concat(decimal_text(end).as_str()).concat("/").concat(decimal_text(size).as_str());
            push_header(&mut out, "Content-Range", text.as_str());
            if matches!(verb, Verb::Head) {
                push_header(&mut out, "Content-Length", decimal_text(length).as_str());
                return Answer { status: 206, headers: out, body: Body::Empty };
            }
            Answer { status: 206, headers: out, body: Body::Part(start, length) }
        },
        Ok(None) => {
            let mut out = common_headers(item.mime_type.as_str());
            if matches!(verb, Verb::Head) {
                push_header(&mut out, "Content-Length", decimal_text(size).as_str());
                return Answer { status: 200, headers: out, body: Body::Empty };
            }
            Answer { status: 200, headers: out, body: Body::Whole(size) }
        },
    }
}

/// Answers a request for a served file, given what the file system says of
/// it.
pub fn serve(
    verb: Verb,
    headers: &Vec<(String, String)>,
    item: &ServedMedia,
    found: &FoundFile,
) -> (r: Answer)
    ensures
        r@ == served_answer(
            verb,
            headers_view(headers@),
            item@,
            crate::text::opt_view(found.canonical),
            found.opened,
            found.size,
        ),
{
    let in_place = match &found.canonical {
        Some(path) => same(path.as_str(), item.path.as_str()),
        None => false,
    };
    if !in_place || !found.opened {
        return plain(404);
    }
    let size: u64 = match found.size {
        Some(known) => known,
        None => item.byte_size,
    };
    answer_file(verb, headers, item, size)
}

/// What an answer carries lies within the file.
pub proof fn answers_stay_within_file(
    verb: Verb,
    headers: Seq<(Seq<char>, Seq<char>)>,
    item: ServedV,
    size: u64,
)
    ensures
        match file_answer(verb, headers, item, size).body {
            Body::Part(start, length) => 0 < length && start + length <= size,
            Body::Whole(length) => length == size,
            _ => true,
        },
{
    match header_value(headers, "Range"@) {
        Some(value) => {
            range_is_within_file(value, size);
        },
        None => {},
    }
}

// ---------------------------------------------------------------------------
// The server
// ---------------------------------------------------------------------------

/// The bytes whose digest marks a version of a served file.
pub open spec fn revision_source(path: Seq<char>, media: ResolvedV) -> Seq<u8> {
    vstd::utf8::encode_utf8(path) + vstd::bytes::spec_u64_to_le_bytes(media.byte_size)
        + vstd::utf8::encode_utf8(media.sha256)
}

/// The mark of a version of a served file, which lies at `path`.
pub fn preview_revision(path: &str, media: &ResolvedMedia) -> (r: String)
    ensures
        r@ == sha256_of(revision_source(path@, media@)),
        is_digest(r@),
{
    let mut data: Vec<u8> = Vec::new();
    push_bytes(&mut data, path.as_bytes());
    let size = vstd::bytes::u64_to_le_bytes(media.byte_size);
    push_bytes(&mut data, size.as_slice());
    push_bytes(&mut data, media.sha256.as_str().as_bytes());
    assert(data@ =~= revision_source(path@, media@));
    sha256_hex(data.as_slice())
}

/// The media server of a session: the secret in its URLs, its address, and the
/// files that it serves.
pub struct MediaServer {
    token: String,
    origin: String,
    media: Table<ServedMedia>,
}

/// The model of the server.
pub struct ServerV {
    pub token: Seq<char>,
    pub origin: Seq<char>,
    pub media: Map<Seq<char>, ServedV>,
}

impl View for MediaServer {
    type V = ServerV;

    closed spec fn view(&self) -> ServerV {
        ServerV {
            token: self.token@,
            origin: self.origin@,
            media: self.media@.map_values(|item: ServedMedia| item@),
        }
    }
}

/// A library item that may be served: its identifier, and the file with its
/// path where it could be resolved.
pub struct ServedEntry {
    pub id: String,
    pub media: Option<ResolvedMedia>,
    pub path: String,
}

/// The model of an entry.
pub struct EntryV {
    pub id: Seq<char>,
    pub media: Option<ResolvedV>,
    pub path: Seq<char>,
}

/// The models of entries.
pub open spec fn entries_view(entries: Seq<ServedEntry>) -> Seq<EntryV> {
    entries.map_values(
        |entry: ServedEntry|
            EntryV {
                id: entry.id@,
                media: match entry.media {
                    Some(media) => Some(media@),
                    None => None,
                },
                path: entry.path@,
            },
    )
}

/// A resolved file as it is served.
pub open spec fn served_media(path: Seq<char>, media: ResolvedV) -> ServedV {
    ServedV {
        path,
        mime_type: media.mime_type,
        byte_size: media.byte_size,
        revision: sha256_of(revision_source(path, media)),
    }
}

/// The files that are served: those of the entries that could be resolved.
pub open spec fn served_map(entries: Seq<EntryV>) -> Map<Seq<char>, ServedV>
    decreases entries.len(),
{
    if entries.len() == 0 {
        Map::empty()
    } else {
        match entries.last().media {
            Some(media) => served_map(entries.drop_last()).insert(
                entries.last().id,
                served_media(entries.last().path, media),
            ),
            None => served_map(entries.drop_last()),
        }
    }
}

/// Each served file has a digest for the mark of its version.
pub open spec fn marks_are_digests(server: ServerV) -> bool {
    forall|id: Seq<char>| #[trigger]
        server.media.contains_key(id) ==> is_digest(server.media[id].revision)
}

/// The URL of a served file.
pub open spec fn media_url(server: ServerV, id: Seq<char>) -> Option<Seq<char>> {
    if is_safe_id(id) && server.media.contains_key(id) {
        Some(
            server.origin + "/"@ + server.token + "/media/"@ + id + "?v="@
                + server.media[id].revision,
        )
    } else {
        None
    }
}

impl MediaServer {
    /// A server that listens at `port` and serves nothing yet.
    pub fn with_token(port: u16, token: String) -> (r: MediaServer)
        ensures
            r@.token == token@,
            r@.origin == "http://127.0.0.1:"@ + decimal(port as nat),
            r@.media == Map::<Seq<char>, ServedV>::empty(),
    {
        let origin = "http://127.0.0.1:".to_string().concat(decimal_text(port as u64).as_str());
        let r = MediaServer { token, origin, media: Table::new() };
        assert(r@.media =~= Map::empty());
        r
    }

    /// A server with a fresh secret.
    pub fn start(port: u16) -> (r: MediaServer)
        ensures
            r@.origin == "http://127.0.0.1:"@ + decimal(port as nat),
            r@.media == Map::<Seq<char>, ServedV>::empty(),
            is_token(r@.token),
    {
        MediaServer::with_token(port, new_token())
    }

    pub fn origin(&self) -> (r: &str)
        ensures
            r@ == self@.origin,
    {
        self.origin.as_str()
    }

    pub fn token(&self) -> (r: &str)
        ensures
            r@ == self@.token,
    {
        self.token.as_str()
    }

    /// Serves exactly the entries that could be resolved.
    pub fn sync(&mut self, entries: &Vec<ServedEntry>)
        ensures
            final(self)@ == (ServerV {
                media: served_map(entries_view(entries@)),
                ..old(self)@
            }),
            marks_are_digests(final(self)@),
    {
        let ghost model = entries_view(entries@);
        let mut served: Table<ServedMedia> = Table::new();
        let ghost f = |item: ServedMedia| item@;
        assert(served@.map_values(f) =~= served_map(model.take(0)));
        let mut i: usize = 0;
        while i < entries.len()
            invariant
                i <= entries.len(),
                model == entries_view(entries@),
                f == |item: ServedMedia| item@,
                served@.map_values(f) == served_map(model.take(i as int)),
                forall|id: Seq<char>| #[trigger]
                    served@.contains_key(id) ==> is_digest(served@[id].revision@),
            decreases entries.len() - i,
        {
            let ghost before = served@;
            assert(model.take(i + 1).drop_last() =~= model.take(i as int));
            assert(model.take(i + 1).last() == model[i as int]);
            if let Some(media) = &entries[i].media {
                let path = &entries[i].path;
                let item = ServedMedia {
                    path: path.clone(),
                    mime_type: media.mime_type.clone(),
                    byte_size: media.byte_size,
                    revision: preview_revision(path.as_str(), media),
                };
                assert(item@ == served_media(path@, media@));
                served.insert(entries[i].id.clone(), item);
                assert(served@.map_values(f) =~= before.map_values(f).insert(
                    entries@[i as int].id@,
                    item@,
                ));
            }
            i += 1;
        }
        assert(model.take(i as int) =~= model);
        self.media = served;
    }

    /// Serves one more file.
    pub fn register(&mut self, id: &str, item: ServedMedia)
        ensures
            final(self)@ == (ServerV {
                media: old(self)@.media.insert(id@, item@),
                ..old(self)@
            }),
    {
        let ghost before = self.media@;
        self.media.insert(id.to_string(), item);
        assert(before.insert(id@, item).map_values(|m: ServedMedia| m@) =~= before.map_values(
            |m: ServedMedia| m@,
        ).insert(id@, item@));
    }

    /// The file that a request asks for, or the answer that refuses it.
    pub fn target(&self, verb: Verb, url: &str) -> (r: Result<ServedMedia, Answer>)
        ensures
            match request_target(verb, url@, self@.token, self@.media) {
                Ok(item) => r matches Ok(found) && found@ == item,
                Err(status) => r matches Err(answer) && answer@ == plain_answer(status),
            },
    {
        if matches!(verb, Verb::Other) {
            return Err(plain(405));
        }
        match extract_media_id(url, self.token.as_str()) {
            None => Err(plain(404)),
            Some(id) => match self.media.get(id.as_str()) {
                None => Err(plain(404)),
                Some(item) => {
                    assert(self@.media[id@] == item@);
                    Ok(item.copy())
                },
            },
        }
    }

    /// The URL of a served file.
    pub fn url_for(&self, id: &str) -> (r: Option<String>)
        ensures
            (match r {
                Some(url) => Some(url@),
                None => None,
            }) == media_url(self@, id@),
    {
        if !is_safe_media_id(id) {
            return None;
        }
        match self.media.get(id) {
            None => None,
            Some(item) => {
                assert(self@.media[id@] == item@);
                Some(
                    self.origin.clone().concat("/").concat(self.token.as_str()).concat(
                        "/media/",
                    ).concat(id).concat("?v=").concat(item.revision.as_str()),
                )
            },
        }
    }
}

/// The URL of a served file leads back to it: the path that it asks the server
/// for names the identifier.
pub proof fn url_leads_to_its_file(token: Seq<char>, id: Seq<char>, revision: Seq<char>)
    requires
        is_safe_id(token),
        is_safe_id(id),
    ensures
        media_id_in("/"@ + token + "/media/"@ + id + "?v="@ + revision, token) == Some(id),
{
    safe_id_stays_inside(token);
    safe_id_stays_inside(id);
    reveal_strlit("/");
    reveal_strlit("/media/");
    reveal_strlit("?v=");
    let front = "/"@ + token + "/media/"@;
    let path = front + id;
    let url = "/"@ + token + "/media/"@ + id + "?v="@ + revision;
    lemma_first_at(url, '?');
    assert(url[path.len() as int] == '?');
    assert forall|k: int| 0 <= k < path.len() implies url[k] != '?' by {
        if k >= 1 && k < 1 + token.len() {
            assert(url[k] == token[k - 1]);
            assert(token.contains(token[k - 1]));
        } else if k >= front.len() {
            assert(url[k] == id[k - front.len()]);
            assert(id.contains(id[k - front.len()]));
        }
    }
    assert(first_at(url, '?') == path.len());
    assert(url.take(path.len() as int) =~= path);
    assert(path.subrange(0, front.len() as int) =~= front);
    assert(path.skip(front.len() as int) =~= id);
}

/// Secrets and fresh identifiers can stand in a URL.
pub proof fn fresh_ids_are_safe(s: Seq<char>)
    requires
        is_token(s) || is_uuid(s),
    ensures
        is_safe_id(s),
{
    assert forall|i: int| 0 <= i < s.len() implies is_media_letter(#[trigger] s[i]) by {
        if is_uuid(s) {
            assert(is_id_letter(s[i]));
        } else {
            assert(is_hex_digit(s[i]));
        }
    }
    assert(vstd::utf8::is_ascii_chars(s)) by {
        assert forall|i: int| 0 <= i < s.len() implies '\0' <= #[trigger] s[i] <= '\u{7f}' by {
            assert(is_media_letter(s[i]));
        }
    }
    vstd::utf8::is_ascii_chars_encode_utf8(s);
}

/// Whoever asks for the URL of a served file gets that file.
pub proof fn served_url_is_answered(server: ServerV, id: Seq<char>)
    requires
        is_token(server.token),
        media_url(server, id) is Some,
    ensures
        request_target(
            Verb::Get,
            media_url(server, id)->0.skip(server.origin.len() as int),
            server.token,
            server.media,
        ) == Ok::<ServedV, u16>(server.media[id]),
{
    fresh_ids_are_safe(server.token);
    let revision = server.media[id].revision;
    url_leads_to_its_file(server.token, id, revision);
    assert(media_url(server, id)->0.skip(server.origin.len() as int) =~= "/"@ + server.token
        + "/media/"@ + id + "?v="@ + revision);
}

/// A file has a URL once it is registered, if its identifier can stand in one,
/// and no other file gets one by that. The URL starts with the server's address,
/// and the path behind it leads to the file.
pub proof fn registered_file_has_its_url(
    server: ServerV,
    registered: Seq<char>,
    item: ServedV,
    id: Seq<char>,
)
    requires
        is_token(server.token),
        server.media == Map::<Seq<char>, ServedV>::empty(),
    ensures
        ({
            let after = ServerV { media: server.media.insert(registered, item), ..server };
            &&& media_url(after, id) is Some <==> id == registered && is_safe_id(id)
            &&& media_url(after, id) matches Some(url) ==> {
                &&& url.len() >= server.origin.len()
                &&& url.take(server.origin.len() as int) == server.origin
                &&& media_id_in(url.skip(server.origin.len() as int), server.token) == Some(id)
            }
        }),
{
    let after = ServerV { media: server.media.insert(registered, item), ..server };
    if media_url(after, id) is Some {
        let url = media_url(after, id)->0;
        let revision = after.media[id].revision;
        fresh_ids_are_safe(server.token);
        url_leads_to_its_file(server.token, id, revision);
        assert(url.take(server.origin.len() as int) =~= server.origin);
        assert(url.skip(server.origin.len() as int) =~= "/"@ + server.token + "/media/"@ + id
            + "?v="@ + revision);
    }
}

proof fn lemma_short_decimal(n: nat)
    requires
        n < 100000,
    ensures
        decimal(n).len() <= 5,
{
    reveal_with_fuel(decimal, 6);
}

/// The URL of a served file is one of this machine, and passes the check of the
/// media that are sent to plugins.
pub proof fn served_url_is_sent(server: ServerV, port: u16, id: Seq<char>, parsed: Option<UrlV>)
    requires
        server.origin == "http://127.0.0.1:"@ + decimal(port as nat),
        is_token(server.token),
        marks_are_digests(server),
        media_url(server, id) is Some,
        reads_local(media_url(server, id)->0, parsed),
    ensures
        is_local_url(media_url(server, id)->0),
        byte_len(media_url(server, id)->0) <= MAX_STRING_BYTES,
        media_url_check(media_url(server, id)->0, parsed) is Ok,
{
    let url = media_url(server, id)->0;
    let revision = server.media[id].revision;
    let rest = server.token + "/media/"@ + id + "?v="@ + revision;
    assert(url =~= local_url(port, rest));
    lemma_decimal_digits(port as nat);
    lemma_short_decimal(port as nat);
    fresh_ids_are_safe(server.token);
    lemma_not_fewer_bytes(id);
    reveal_strlit("http://127.0.0.1:");
    reveal_strlit("/");
    reveal_strlit("/media/");
    reveal_strlit("?v=");
    assert(is_digest(revision));
    assert(vstd::utf8::is_ascii_chars(url)) by {
        let start = "http://127.0.0.1:"@;
        let digits = decimal(port as nat);
        assert forall|i: int| 0 <= i < url.len() implies '\0' <= #[trigger] url[i] <= '\u{7f}' by {
            let a = start.len() as int;
            let b = a + digits.len();
            let c = b + 1 + server.token.len();
            let d = c + 7 + id.len();
            if a <= i < b {
                assert(url[i] == digits[i - a]);
            } else if b < i < c {
                assert(url[i] == server.token[i - b - 1]);
            } else if c + 7 <= i < d {
                assert(url[i] == id[i - c - 7]);
                assert(is_media_letter(id[i - c - 7]));
            } else if i >= d + 3 {
                assert(url[i] == revision[i - d - 3]);
            }
        }
    }
    vstd::utf8::is_ascii_chars_encode_utf8(url);
    assert(url.len() <= 17 + 5 + 1 + 64 + 7 + 64 + 3 + 64);
    assert(loopback_check(local_parts()) is Ok);
}

} // verus!
