//! Laws of the media server: which requests are answered, with what, and under
//! which addresses files are found.
use vstd::prelude::*;

use crate::digest::sha256_of;
use crate::media::ResolvedV;
use crate::media_server::{
    asked_range, file_answer, file_headers, header_value, is_safe_id, media_id_in, media_url,
    plain_answer, range_of, request_target, served_answer, served_map, served_media, span_of, Body,
    EntryV, ServedV, ServerV, Verb,
};
use crate::text::{
    byte_len, decimal, first_at, has_part, is_digit, lemma_decimal_digits, lemma_first_at, lower,
    numeral_reads_back_decimal,
};

verus! {

// ---------------------------------------------------------------------------
// Ranges
// ---------------------------------------------------------------------------

proof fn lemma_range_parts(front: Seq<char>, back: Seq<char>)
    requires
        !front.contains('-'),
        !front.contains(','),
        !back.contains(','),
    ensures
        ({
            let range = front + "-"@ + back;
            &&& first_at(range, '-') == front.len()
            &&& first_at(range, '-') < range.len()
            &&& !range.contains(',')
            &&& range.take(front.len() as int) == front
            &&& range.skip((front.len() + 1) as int) == back
        }),
{
    reveal_strlit("-");
    let range = front + "-"@ + back;
    lemma_first_at(range, '-');
    assert(range[front.len() as int] == '-');
    let at = first_at(range, '-');
    if at < front.len() {
        assert(range[at] == front[at]);
        assert(front.contains(front[at]));
    }
    if at > front.len() {
        assert(range[front.len() as int] != '-');
    }
    if range.contains(',') {
        let k = choose|k: int| 0 <= k < range.len() && range[k] == ',';
        if k < front.len() {
            assert(front.contains(front[k]));
        } else if k > front.len() {
            assert(back.contains(back[k - front.len() - 1]));
        }
    }
    assert(range.take(front.len() as int) =~= front);
    assert(range.skip((front.len() + 1) as int) =~= back);
}

proof fn lemma_only_digits(n: nat)
    ensures
        decimal(n).len() > 0,
        !decimal(n).contains('-'),
        !decimal(n).contains(','),
{
    lemma_decimal_digits(n);
    let s = decimal(n);
    if s.contains('-') {
        let k = choose|k: int| 0 <= k < s.len() && s[k] == '-';
        assert(is_digit(s[k]));
    }
    if s.contains(',') {
        let k = choose|k: int| 0 <= k < s.len() && s[k] == ',';
        assert(is_digit(s[k]));
    }
}

proof fn lemma_range_of(front: Seq<char>, back: Seq<char>, size: u64)
    requires
        !front.contains('-'),
        !front.contains(','),
        !back.contains(','),
    ensures
        range_of("bytes="@ + front + "-"@ + back, size) == span_of(front, back, size),
{
    lemma_range_parts(front, back);
    let range = front + "-"@ + back;
    let value = "bytes="@ + front + "-"@ + back;
    assert(value =~= "bytes="@ + range);
    assert(value.subrange(0, "bytes="@.len() as int) =~= "bytes="@);
    assert(value.skip("bytes="@.len() as int) =~= range);
}

/// A range from one byte to another is given as far as the file goes; one that
/// begins behind the end of the file, or ends before it begins, is not given.
pub proof fn closed_range_is_given(from: u64, to: u64, size: u64)
    ensures
        range_of("bytes="@ + decimal(from as nat) + "-"@ + decimal(to as nat), size) == (if from
            >= size || to < from {
            None
        } else if to < size {
            Some((from, to))
        } else {
            Some((from, (size - 1) as u64))
        }),
{
    lemma_only_digits(from as nat);
    lemma_only_digits(to as nat);
    numeral_reads_back_decimal(from);
    numeral_reads_back_decimal(to);
    lemma_range_of(decimal(from as nat), decimal(to as nat), size);
}

/// A range without an end goes to the last byte of the file.
pub proof fn open_range_is_given(from: u64, size: u64)
    ensures
        range_of("bytes="@ + decimal(from as nat) + "-"@ + Seq::<char>::empty(), size) == (if from
            >= size {
            None
        } else {
            Some((from, (size - 1) as u64))
        }),
{
    lemma_only_digits(from as nat);
    numeral_reads_back_decimal(from);
    lemma_range_of(decimal(from as nat), Seq::empty(), size);
}

/// A range without a start is that many bytes at the end of the file.
pub proof fn last_bytes_are_given(count: u64, size: u64)
    ensures
        range_of("bytes="@ + Seq::<char>::empty() + "-"@ + decimal(count as nat), size) == (if size
            == 0 || count == 0 {
            None
        } else if count >= size {
            Some((0u64, (size - 1) as u64))
        } else {
            Some(((size - count) as u64, (size - 1) as u64))
        }),
{
    lemma_only_digits(count as nat);
    numeral_reads_back_decimal(count);
    lemma_range_of(Seq::empty(), decimal(count as nat), size);
}

/// Several ranges, and a range in other units than bytes, are not given.
pub proof fn other_ranges_are_not_given(value: Seq<char>, size: u64)
    ensures
        value.len() < 6 || value.take(6) != "bytes="@ ==> range_of(value, size) is None,
        value.skip(6).contains(',') ==> range_of(value, size) is None,
{
    reveal_strlit("bytes=");
    assert("bytes="@.len() == 6);
    if value.len() >= 6 {
        assert(value.subrange(0, 6) =~= value.take(6));
    }
}

/// A header is found by its name, in whatever case it is written, the first where
/// there are several.
pub proof fn header_is_found_by_name(
    headers: Seq<(Seq<char>, Seq<char>)>,
    name: Seq<char>,
    i: int,
)
    requires
        0 <= i <= headers.len(),
        i < headers.len() ==> lower(headers[i].0) == lower(name),
        forall|k: int| 0 <= k < i ==> lower((#[trigger] headers[k]).0) != lower(name),
    ensures
        header_value(headers, name) == (if i < headers.len() {
            Some(headers[i].1)
        } else {
            None
        }),
    decreases headers.len(),
{
    if i > 0 {
        assert(lower(headers[0].0) != lower(name));
        let rest = headers.drop_first();
        assert forall|k: int| 0 <= k < i - 1 implies lower((#[trigger] rest[k]).0) != lower(
            name,
        ) by {
            assert(rest[k] == headers[k + 1]);
        }
        if i < headers.len() {
            assert(rest[i - 1] == headers[i]);
        }
        header_is_found_by_name(rest, name, i - 1);
    }
}

// ---------------------------------------------------------------------------
// Answers
// ---------------------------------------------------------------------------

/// The headers name the type of the file and allow any page to show it.
pub open spec fn describes_file(headers: Seq<(Seq<char>, Seq<char>)>, mime_type: Seq<char>) -> bool {
    &&& headers.contains(("Content-Type"@, mime_type))
    &&& headers.contains(("Accept-Ranges"@, "bytes"@))
    &&& headers.contains(("Access-Control-Allow-Origin"@, "*"@))
    &&& headers.contains(("Cross-Origin-Resource-Policy"@, "cross-origin"@))
    &&& headers.contains(("X-Content-Type-Options"@, "nosniff"@))
    &&& headers.contains(("Cache-Control"@, "private, max-age=3600"@))
}

proof fn lemma_file_headers(mime_type: Seq<char>, more: Seq<(Seq<char>, Seq<char>)>)
    ensures
        describes_file(file_headers(mime_type) + more, mime_type),
        describes_file(file_headers(mime_type), mime_type),
{
    let headers = file_headers(mime_type);
    let all = headers + more;
    assert(headers[0] == ("Content-Type"@, mime_type) && all[0] == headers[0]);
    assert(headers[1] == ("Accept-Ranges"@, "bytes"@) && all[1] == headers[1]);
    assert(headers[2] == ("Cache-Control"@, "private, max-age=3600"@) && all[2] == headers[2]);
    assert(headers[3] == ("Cross-Origin-Resource-Policy"@, "cross-origin"@) && all[3]
        == headers[3]);
    assert(headers[4] == ("Access-Control-Allow-Origin"@, "*"@) && all[4] == headers[4]);
    assert(headers[5] == ("X-Content-Type-Options"@, "nosniff"@) && all[5] == headers[5]);
}

/// A file is answered whole, with 200, where no part of it was asked for, and in
/// part, with 206 and the place of that part, where one was; a part that cannot be
/// given is answered with 416 and the size of the file.
pub proof fn file_is_answered_as_asked(
    headers: Seq<(Seq<char>, Seq<char>)>,
    item: ServedV,
    size: u64,
)
    ensures
        ({
            let answer = file_answer(Verb::Get, headers, item, size);
            &&& header_value(headers, "Range"@) is None ==> {
                &&& answer.status == 200
                &&& answer.body == Body::Whole(size)
                &&& describes_file(answer.headers, item.mime_type)
            }
            &&& header_value(headers, "Range"@) matches Some(value) ==> {
                &&& range_of(value, size) matches Some((start, end)) ==> {
                    &&& answer.status == 206
                    &&& answer.body == Body::Part(start, (end - start + 1) as u64)
                    &&& describes_file(answer.headers, item.mime_type)
                    &&& answer.headers.contains(
                        (
                            "Content-Range"@,
                            "bytes "@ + decimal(start as nat) + "-"@ + decimal(end as nat) + "/"@
                                + decimal(size as nat),
                        ),
                    )
                }
                &&& range_of(value, size) is None ==> {
                    &&& answer.status == 416
                    &&& answer.body == Body::Empty
                    &&& answer.headers.contains(
                        ("Content-Range"@, "bytes */"@ + decimal(size as nat)),
                    )
                }
            }
        }),
{
    lemma_file_headers(item.mime_type, Seq::empty());
    let answer = file_answer(Verb::Get, headers, item, size);
    if let Some(value) = header_value(headers, "Range"@) {
        if let Some((start, end)) = range_of(value, size) {
            let place = (
                "Content-Range"@,
                "bytes "@ + decimal(start as nat) + "-"@ + decimal(end as nat) + "/"@ + decimal(
                    size as nat,
                ),
            );
            assert(answer.headers == file_headers(item.mime_type).push(place));
            assert(file_headers(item.mime_type).push(place) =~= file_headers(item.mime_type)
                + seq![place]);
            lemma_file_headers(item.mime_type, seq![place]);
            assert(answer.headers[6] == place);
        } else {
            assert(answer.headers[0] == ("Content-Range"@, "bytes */"@ + decimal(size as nat)));
        }
    }
}

/// A request for the head alone is answered as the file would be, without the file
/// and with the length of what would have been sent.
pub proof fn head_is_answered_without_the_file(
    headers: Seq<(Seq<char>, Seq<char>)>,
    item: ServedV,
    size: u64,
)
    ensures
        ({
            let head = file_answer(Verb::Head, headers, item, size);
            let whole = file_answer(Verb::Get, headers, item, size);
            &&& head.status == whole.status
            &&& head.body == Body::Empty
            &&& whole.body matches Body::Whole(length) ==> head.headers == whole.headers.push(
                ("Content-Length"@, decimal(length as nat)),
            )
            &&& whole.body matches Body::Part(_, length) ==> head.headers == whole.headers.push(
                ("Content-Length"@, decimal(length as nat)),
            )
        }),
{
}

/// A request is refused with 405 where it wants neither a file nor its head, and
/// with 404 where its address has no file.
pub proof fn request_is_for_a_served_file(
    url: Seq<char>,
    token: Seq<char>,
    media: Map<Seq<char>, ServedV>,
)
    ensures
        request_target(Verb::Other, url, token, media) == Err::<ServedV, u16>(405),
        media_id_in(url, token) is None ==> request_target(Verb::Get, url, token, media) == Err::<
            ServedV,
            u16,
        >(404),
        media_id_in(url, token) matches Some(id) ==> request_target(Verb::Get, url, token, media)
            == (if media.contains_key(id) {
            Ok::<ServedV, u16>(media[id])
        } else {
            Err::<ServedV, u16>(404)
        }),
        request_target(Verb::Head, url, token, media) == request_target(
            Verb::Get,
            url,
            token,
            media,
        ),
{
}

/// A file that is not where it was is answered with 404; one that is has the size
/// that is found, or the noted one.
pub proof fn moved_file_is_not_answered(
    verb: Verb,
    headers: Seq<(Seq<char>, Seq<char>)>,
    item: ServedV,
    canonical: Option<Seq<char>>,
    opened: bool,
    size: Option<u64>,
)
    ensures
        canonical != Some(item.path) || !opened ==> served_answer(
            verb,
            headers,
            item,
            canonical,
            opened,
            size,
        ).status == 404 && served_answer(verb, headers, item, canonical, opened, size).body
            == Body::Blank,
        canonical == Some(item.path) && opened ==> served_answer(
            verb,
            headers,
            item,
            canonical,
            opened,
            size,
        ) == file_answer(
            verb,
            headers,
            item,
            match size {
                Some(found) => found,
                None => item.byte_size,
            },
        ),
{
}

// ---------------------------------------------------------------------------
// Addresses
// ---------------------------------------------------------------------------

/// An identifier may stand in an address where it has from 1 to 64 bytes, all of
/// them letters, digits, `-` or `_`.
pub proof fn safe_identifier(id: Seq<char>)
    ensures
        is_safe_id(id) <==> id.len() > 0 && byte_len(id) <= 64 && forall|i: int|
            0 <= i < id.len() ==> {
                let c = #[trigger] id[i];
                ('0' <= c && c <= '9') || ('a' <= c && c <= 'z') || ('A' <= c && c <= 'Z') || c
                    == '-' || c == '_'
            },
{
    if is_safe_id(id) {
        assert forall|i: int| 0 <= i < id.len() implies {
            let c = #[trigger] id[i];
            ('0' <= c && c <= '9') || ('a' <= c && c <= 'z') || ('A' <= c && c <= 'Z') || c == '-'
                || c == '_'
        } by {
            assert(crate::media_server::is_media_letter(id[i]));
        }
    }
}

/// A file has the address of the server, with the token, its identifier and its
/// revision, where it is served and its identifier may stand there.
pub proof fn served_file_has_this_address(server: ServerV, id: Seq<char>)
    ensures
        media_url(server, id) is Some <==> is_safe_id(id) && server.media.contains_key(id),
        media_url(server, id) matches Some(url) ==> url == server.origin + "/"@ + server.token
            + "/media/"@ + id + "?v="@ + server.media[id].revision,
{
}

/// What is served of a file is its path, its type and its size, under a mark that
/// is the digest of its path, size and digest.
pub proof fn served_file_is_the_resolved_one(path: Seq<char>, media: ResolvedV)
    ensures
        ({
            let served = served_media(path, media);
            &&& served.path == path
            &&& served.mime_type == media.mime_type
            &&& served.byte_size == media.byte_size
            &&& served.revision == sha256_of(
                vstd::utf8::encode_utf8(path) + vstd::bytes::spec_u64_to_le_bytes(media.byte_size)
                    + vstd::utf8::encode_utf8(media.sha256),
            )
        }),
{
}

/// A file is served exactly where it is among the files that were handed over and
/// could be resolved; the last of an identifier counts.
pub proof fn handed_over_file_is_served(entries: Seq<EntryV>, id: Seq<char>)
    ensures
        served_map(entries).contains_key(id) <==> exists|k: int|
            0 <= k < entries.len() && (#[trigger] entries[k]).id == id && entries[k].media is Some,
        entries.len() > 0 && entries.last().id == id && entries.last().media is Some ==> served_map(
            entries,
        )[id] == served_media(entries.last().path, entries.last().media->0),
        entries.len() > 0 && (entries.last().id != id || entries.last().media is None)
            && served_map(entries).contains_key(id) ==> served_map(entries)[id] == served_map(
            entries.drop_last(),
        )[id],
    decreases entries.len(),
{
    if entries.len() > 0 {
        let front = entries.drop_last();
        handed_over_file_is_served(front, id);
        if served_map(front).contains_key(id) {
            let k = choose|k: int|
                0 <= k < front.len() && (#[trigger] front[k]).id == id && front[k].media is Some;
            assert(entries[k].id == id);
        }
        assert(entries[entries.len() - 1] == entries.last());
        if exists|k: int|
            0 <= k < entries.len() && (#[trigger] entries[k]).id == id && entries[k].media
                is Some {
            let k = choose|k: int|
                0 <= k < entries.len() && (#[trigger] entries[k]).id == id && entries[k].media
                    is Some;
            if k < front.len() {
                assert(front[k].id == id);
            }
        }
    }
}

/// An answer without a file may not be kept, and may be read from anywhere.
pub proof fn plain_answer_is_not_kept(status: u16)
    ensures
        plain_answer(status).status == status,
        plain_answer(status).body == Body::Blank,
        plain_answer(status).headers.contains(("Cache-Control"@, "no-store"@)),
        plain_answer(status).headers.contains(("Access-Control-Allow-Origin"@, "*"@)),
{
    assert(plain_answer(status).headers[0] == ("Cache-Control"@, "no-store"@));
    assert(plain_answer(status).headers[1] == ("Access-Control-Allow-Origin"@, "*"@));
}

/// A part of a file is asked for by the header `Range`.
pub proof fn part_is_asked_for_by_range(headers: Seq<(Seq<char>, Seq<char>)>, size: u64)
    ensures
        header_value(headers, "Range"@) is None ==> asked_range(headers, size) == Ok::<
            Option<(u64, u64)>,
            (),
        >(None),
        header_value(headers, "Range"@) matches Some(value) ==> {
            &&& range_of(value, size) matches Some(range) ==> asked_range(headers, size) == Ok::<
                Option<(u64, u64)>,
                (),
            >(Some(range))
            &&& range_of(value, size) is None ==> asked_range(headers, size) is Err
        },
{
}

/// An address leads to an identifier exactly where what stands in front of its query
/// is the token, `media` and the identifier.
pub proof fn address_leads_to_its_identifier(
    url: Seq<char>,
    token: Seq<char>,
    id: Seq<char>,
    at: int,
)
    requires
        0 <= at <= url.len(),
        forall|i: int| 0 <= i < at ==> (#[trigger] url[i]) != '?',
        at == url.len() || url[at] == '?',
    ensures
        media_id_in(url, token) == Some(id) <==> token.len() > 0 && !token.contains('/')
            && !has_part(token, ".."@) && is_safe_id(id) && url.take(at) == "/"@ + token
            + "/media/"@ + id,
{
    crate::laws::store::character_is_first_at_its_place(url, '?');
    let first = first_at(url, '?');
    if first < at {
        assert(url[first] == '?');
    }
    if at < first {
        assert(url[at] != '?');
    }
    let path = url.take(at);
    let front = "/"@ + token + "/media/"@;
    crate::laws::store::text_has_its_front_and_its_end(front, id, path);
    if path == front + id {
        assert(path.skip(front.len() as int) =~= id);
    }
}

} // verus!
