//! Laws of the stored media catalogue, and of names and texts.
use vstd::prelude::*;

use crate::config::config_from;
use crate::protocol::{response_of, ResponseV};
use crate::proxy::{proxy_from, ProxyMode, ProxyV};
use crate::catalog::{catalog_from, def_from, defs_from, DefV};
use crate::plugins::{record_from, state_from, RecordV, StateV};
use crate::json::{lemma_collected_member, lemma_pair_found, names_differ, precedes, JsonV, Num};
use crate::models::{
    catalog_json, item_from, item_json, item_pairs, kind_name, kind_named, origin_name,
    origin_named, ItemV, MediaKind, MediaOrigin,
};
use crate::paths::{
    after_point, extension_of, file_name_of, in_path_order, is_plain_name, parts_of, sort_key,
    stands_after,
};
use crate::text::{
    first_at, has_part, has_prefix, has_suffix, is_alphanumeric, is_control, is_digit,
    is_white_space, joined, lower, occurs_at, position_of, trimmed, without_back, without_front,
};

verus! {

// ---------------------------------------------------------------------------
// Items
// ---------------------------------------------------------------------------

/// Kinds and origins have these names, and are found by them.
pub proof fn kinds_and_origins_have_names(name: Seq<char>)
    ensures
        kind_name(MediaKind::Image) == "image"@,
        kind_name(MediaKind::Video) == "video"@,
        origin_name(MediaOrigin::Local) == "local"@,
        origin_name(MediaOrigin::Remote) == "remote"@,
        origin_name(MediaOrigin::Api) == "api"@,
        origin_name(MediaOrigin::Folder) == "folder"@,
        kind_named(name) == Some(MediaKind::Image) <==> name == "image"@,
        kind_named(name) == Some(MediaKind::Video) <==> name == "video"@,
        origin_named(name) == Some(MediaOrigin::Local) <==> name == "local"@,
        origin_named(name) == Some(MediaOrigin::Remote) <==> name == "remote"@,
        origin_named(name) == Some(MediaOrigin::Api) <==> name == "api"@,
        origin_named(name) == Some(MediaOrigin::Folder) <==> name == "folder"@,
{
    reveal_strlit("image");
    reveal_strlit("video");
    reveal_strlit("local");
    reveal_strlit("remote");
    reveal_strlit("api");
    reveal_strlit("folder");
    assert("image"@[0] == 'i' && "video"@[0] == 'v');
    assert("local"@.len() == 5 && "api"@.len() == 3);
    assert("remote"@.len() == 6 && "remote"@[0] == 'r');
    assert("folder"@.len() == 6 && "folder"@[0] == 'f');
}

/// An item is stored with each of its parts under its name; what it does not have
/// is left out.
pub proof fn item_is_stored_by_name(item: ItemV)
    ensures
        ({
            let value = item_json(item);
            &&& value.get_str("id"@) == Some(item.id)
            &&& value.get_str("name"@) == Some(item.name)
            &&& value.get_str("kind"@) == Some(
                match item.kind {
                    MediaKind::Image => "image"@,
                    MediaKind::Video => "video"@,
                },
            )
            &&& value.get_str("origin"@) == Some(
                match item.origin {
                    MediaOrigin::Local => "local"@,
                    MediaOrigin::Remote => "remote"@,
                    MediaOrigin::Api => "api"@,
                    MediaOrigin::Folder => "folder"@,
                },
            )
            &&& value.get_str("fileName"@) == Some(item.file_name)
            &&& value.get_str("mimeType"@) == Some(item.mime_type)
            &&& value.get("byteSize"@) == Some(JsonV::Num(Num::PosInt(item.byte_size)))
            &&& value.get_str("sha256"@) == Some(item.sha256)
            &&& value.get_str("createdAt"@) == Some(item.created_at)
            &&& value.get_str("sourceUrl"@) == item.source_url
            &&& item.file_count matches Some(count) ==> value.get("fileCount"@) == Some(
                JsonV::Num(Num::PosInt(count)),
            )
            &&& item.file_count is None ==> value.get("fileCount"@) is None
        }),
{
    reveal_strlit("id");
    reveal_strlit("name");
    reveal_strlit("kind");
    reveal_strlit("origin");
    reveal_strlit("fileName");
    reveal_strlit("mimeType");
    reveal_strlit("byteSize");
    reveal_strlit("sha256");
    reveal_strlit("sourceUrl");
    reveal_strlit("fileCount");
    reveal_strlit("createdAt");
    reveal_strlit("previewUrl");
    assert("id"@.len() == 2);
    assert("name"@.len() == 4 && "name"@[0] == 'n');
    assert("kind"@.len() == 4 && "kind"@[0] == 'k');
    assert("origin"@.len() == 6 && "origin"@[0] == 'o');
    assert("fileName"@.len() == 8 && "fileName"@[0] == 'f');
    assert("mimeType"@.len() == 8 && "mimeType"@[0] == 'm');
    assert("byteSize"@.len() == 8 && "byteSize"@[0] == 'b');
    assert("sha256"@.len() == 6 && "sha256"@[0] == 's');
    assert("sourceUrl"@.len() == 9 && "sourceUrl"@[0] == 's');
    assert("fileCount"@.len() == 9 && "fileCount"@[0] == 'f');
    assert("createdAt"@.len() == 9 && "createdAt"@[0] == 'c');
    assert("previewUrl"@.len() == 10);
    let pairs = item_pairs(item);
    assert(names_differ(pairs));
    assert forall|i: int| 0 <= i < pairs.len() implies item_json(item).get((#[trigger] pairs[i]).0)
        == Some(pairs[i].1) by {
        lemma_pair_found(pairs, i);
        lemma_collected_member(pairs, pairs[i].0);
    }
    assert(item_json(item).get(pairs[0].0) == Some(pairs[0].1));
    assert(item_json(item).get(pairs[1].0) == Some(pairs[1].1));
    assert(item_json(item).get(pairs[2].0) == Some(pairs[2].1));
    assert(item_json(item).get(pairs[3].0) == Some(pairs[3].1));
    assert(item_json(item).get(pairs[4].0) == Some(pairs[4].1));
    assert(item_json(item).get(pairs[5].0) == Some(pairs[5].1));
    assert(item_json(item).get(pairs[6].0) == Some(pairs[6].1));
    assert(item_json(item).get(pairs[7].0) == Some(pairs[7].1));
    assert(item_json(item).get(pairs[8].0) == Some(pairs[8].1));
    lemma_collected_member(pairs, "sourceUrl"@);
    lemma_collected_member(pairs, "fileCount"@);
    match item.source_url {
        Some(url) => {
            assert(pairs[9].0 == "sourceUrl"@);
            assert(item_json(item).get(pairs[9].0) == Some(pairs[9].1));
            if let Some(count) = item.file_count {
                assert(pairs[10].0 == "fileCount"@);
                assert(item_json(item).get(pairs[10].0) == Some(pairs[10].1));
            } else {
                crate::json::lemma_pair_missing(pairs, "fileCount"@);
            }
        },
        None => {
            crate::json::lemma_pair_missing(pairs, "sourceUrl"@);
            if let Some(count) = item.file_count {
                assert(pairs[9].0 == "fileCount"@);
                assert(item_json(item).get(pairs[9].0) == Some(pairs[9].1));
            } else {
                crate::json::lemma_pair_missing(pairs, "fileCount"@);
            }
        },
    }
}

/// An item is read by the names of its parts.
pub proof fn item_is_read_by_name(value: JsonV)
    requires
        value is Object,
    ensures
        item_from(value) matches Some(item) ==> {
            &&& value.get_str("id"@) == Some(item.id)
            &&& value.get_str("name"@) == Some(item.name)
            &&& value.get_str("kind"@) matches Some(name) ==> (item.kind == MediaKind::Video <==> name
                == "video"@)
            &&& value.get_str("origin"@) matches Some(name) ==> (item.origin == MediaOrigin::Folder
                <==> name == "folder"@) && (item.origin == MediaOrigin::Api <==> name == "api"@)
                && (item.origin == MediaOrigin::Remote <==> name == "remote"@)
            &&& value.get_str("fileName"@) == Some(item.file_name)
            &&& value.get_str("mimeType"@) == Some(item.mime_type)
            &&& value.get("byteSize"@) == Some(JsonV::Num(Num::PosInt(item.byte_size)))
            &&& value.get_str("sha256"@) == Some(item.sha256)
            &&& value.get_str("createdAt"@) == Some(item.created_at)
            &&& value.get_str("sourceUrl"@) == item.source_url
        },
{
    kinds_and_origins_have_names(
        match value.get_str("kind"@) {
            Some(name) => name,
            None => Seq::empty(),
        },
    );
    kinds_and_origins_have_names(
        match value.get_str("origin"@) {
            Some(name) => name,
            None => Seq::empty(),
        },
    );
}

/// A catalogue is stored with its items in their order, without the addresses of
/// their previews.
pub proof fn catalogue_is_stored_in_order(items: Seq<ItemV>, i: int)
    ensures
        catalog_json(items) matches JsonV::Array(values) && values.len() == items.len() && (0 <= i
            < items.len() ==> values[i] == item_json(ItemV { preview_url: None, ..items[i] })),
{
}

// ---------------------------------------------------------------------------
// Texts and names
// ---------------------------------------------------------------------------

/// Small letters are made of capitals, and nothing else changes.
pub proof fn capitals_become_small(s: Seq<char>, i: int)
    requires
        0 <= i < s.len(),
    ensures
        lower(s).len() == s.len(),
        'A' <= s[i] && s[i] <= 'Z' ==> lower(s)[i] as int == s[i] as int + 32,
        !('A' <= s[i] && s[i] <= 'Z') ==> lower(s)[i] == s[i],
{
}

/// A trimmed text is a part of the text that begins and ends with no blank; what is
/// left out before and behind it is blank.
pub proof fn trimmed_text_has_no_blank_ends(s: Seq<char>)
    ensures
        ({
            let t = trimmed(s);
            &&& t.len() > 0 ==> !is_white_space(t[0]) && !is_white_space(t.last())
            &&& exists|from: int, to: int|
                0 <= from <= to <= s.len() && t == #[trigger] s.subrange(from, to) && all_blank(
                    s.subrange(0, from),
                ) && all_blank(s.subrange(to, s.len() as int))
        }),
{
    let p = |c: char| is_white_space(c);
    let from = lemma_front(s);
    let rest = without_front(s, p);
    let length = lemma_back(rest);
    let t = without_back(rest, p);
    let to = from + length;
    assert(t =~= s.subrange(from, to));
    let tail = s.subrange(to, s.len() as int);
    assert forall|i: int| 0 <= i < tail.len() implies is_white_space(#[trigger] tail[i]) by {
        assert(tail[i] == rest[length + i]);
    }
    assert(all_blank(tail));
    if t.len() > 0 {
        assert(t[0] == rest[0]);
    }
}

/// The text is made of blanks alone.
pub open spec fn all_blank(s: Seq<char>) -> bool {
    forall|i: int| 0 <= i < s.len() ==> is_white_space(#[trigger] s[i])
}

proof fn lemma_front(s: Seq<char>) -> (from: int)
    ensures
        0 <= from <= s.len(),
        without_front(s, |c: char| is_white_space(c)) == s.subrange(from, s.len() as int),
        all_blank(s.subrange(0, from)),
        from < s.len() ==> !is_white_space(s[from]),
    decreases s.len(),
{
    let p = |c: char| is_white_space(c);
    if s.len() > 0 && is_white_space(s[0]) {
        assert(p(s[0]));
        let rest = lemma_front(s.drop_first());
        let from = rest + 1;
        assert(s.drop_first().subrange(rest, s.len() - 1) =~= s.subrange(from, s.len() as int));
        assert forall|i: int| 0 <= i < from implies is_white_space(
            #[trigger] s.subrange(0, from)[i],
        ) by {
            if i > 0 {
                assert(s.subrange(0, from)[i] == s.drop_first().subrange(0, rest)[i - 1]);
            }
        }
        if from < s.len() {
            assert(s.drop_first()[rest] == s[from]);
        }
        from
    } else {
        assert(s.subrange(0, s.len() as int) =~= s);
        0
    }
}

proof fn lemma_back(s: Seq<char>) -> (length: int)
    ensures
        0 <= length <= s.len(),
        without_back(s, |c: char| is_white_space(c)) == s.subrange(0, length),
        forall|i: int| length <= i < s.len() ==> is_white_space(#[trigger] s[i]),
        length > 0 ==> !is_white_space(s[length - 1]),
    decreases s.len(),
{
    let p = |c: char| is_white_space(c);
    if s.len() > 0 && is_white_space(s.last()) {
        assert(p(s.last()));
        let length = lemma_back(s.drop_last());
        assert(s.drop_last().subrange(0, length) =~= s.subrange(0, length));
        assert forall|i: int| length <= i < s.len() implies is_white_space(#[trigger] s[i]) by {
            if i < s.len() - 1 {
                assert(s.drop_last()[i] == s[i]);
            }
        }
        length
    } else {
        assert(s.subrange(0, s.len() as int) =~= s);
        s.len() as int
    }
}

proof fn lemma_one_part(name: Seq<char>)
    requires
        forall|i: int| 0 <= i < name.len() ==> name[i] != '/' && name[i] != '\\',
    ensures
        parts_of(name) == seq![name],
    decreases name.len(),
{
    if name.len() > 0 {
        let front = name.drop_last();
        assert forall|i: int| 0 <= i < front.len() implies front[i] != '/' && front[i] != '\\' by {
            assert(front[i] == name[i]);
        }
        lemma_one_part(front);
        assert(name[name.len() - 1] == name.last());
        assert(parts_of(name) =~= seq![name]) by {
            assert(front.push(name.last()) =~= name);
        }
    } else {
        assert(name =~= Seq::empty());
    }
}

proof fn lemma_after_point(name: Seq<char>, at: int)
    requires
        0 <= at < name.len(),
        name[at] == '.',
        forall|i: int| at < i < name.len() ==> name[i] != '.',
    ensures
        after_point(name) == at + 1,
    decreases name.len(),
{
    if at < name.len() - 1 {
        assert(name[name.len() - 1] == name.last());
        let front = name.drop_last();
        assert(front[at] == name[at]);
        assert forall|i: int| at < i < front.len() implies front[i] != '.' by {
            assert(front[i] == name[i]);
        }
        lemma_after_point(front, at);
    }
}

/// The extension of a file name is what stands behind its last point, in small
/// letters, with the point; a name that only begins with a point has none.
pub proof fn extension_stands_behind_the_last_point(base: Seq<char>, ext: Seq<char>)
    requires
        forall|i: int| 0 <= i < base.len() ==> base[i] != '/' && base[i] != '\\',
        forall|i: int| 0 <= i < ext.len() ==> ext[i] != '/' && ext[i] != '\\' && ext[i] != '.',
    ensures
        base.len() > 0 && base + seq!['.'] + ext != ".."@ ==> extension_of(base + seq!['.'] + ext)
            == seq!['.'] + lower(ext),
        base.len() == 0 && ext.len() > 0 ==> extension_of(base + seq!['.'] + ext).len() == 0,
{
    reveal_strlit(".");
    reveal_strlit("..");
    let name = base + seq!['.'] + ext;
    assert forall|i: int| 0 <= i < name.len() implies name[i] != '/' && name[i] != '\\' by {
        if i < base.len() {
            assert(name[i] == base[i]);
        } else if i > base.len() {
            assert(name[i] == ext[i - base.len() - 1]);
        }
    }
    lemma_one_part(name);
    let at = base.len() as int;
    assert(name[at] == '.');
    assert forall|i: int| at < i < name.len() implies name[i] != '.' by {
        assert(name[i] == ext[i - base.len() - 1]);
    }
    lemma_after_point(name, at);
    assert(seq![name].last() == name);
    assert(seq![name].drop_last() =~= Seq::empty());
    if base.len() > 0 || ext.len() > 0 {
        assert(name.len() >= 2);
        assert(name != "."@);
    }
    assert(name.skip(at + 1) =~= ext);
    if base.len() == 0 && ext.len() > 0 {
        assert(name[1] == ext[0]);
        assert(".."@[1] == '.');
    }
}

/// A name without a point has no extension.
pub proof fn name_without_point_has_no_extension(name: Seq<char>)
    requires
        name.len() > 0,
        forall|i: int| 0 <= i < name.len() ==> name[i] != '/' && name[i] != '\\' && name[i] != '.',
    ensures
        extension_of(name).len() == 0,
        file_name_of(name) == Some(name),
{
    reveal_strlit(".");
    reveal_strlit("..");
    lemma_one_part(name);
    assert(seq![name].last() == name);
    assert(name[0] != '.');
    assert("."@[0] == '.' && ".."@[0] == '.');
    lemma_no_point(name);
}

proof fn lemma_no_point(name: Seq<char>)
    requires
        forall|i: int| 0 <= i < name.len() ==> name[i] != '.',
    ensures
        after_point(name) == 0,
    decreases name.len(),
{
    if name.len() > 0 {
        assert(name[name.len() - 1] == name.last());
        assert forall|i: int| 0 <= i < name.drop_last().len() implies name.drop_last()[i]
            != '.' by {
            assert(name.drop_last()[i] == name[i]);
        }
        lemma_no_point(name.drop_last());
    }
}

/// A name stays in its directory where it has no separator and is neither empty nor
/// made of points, nor the name of a drive.
pub proof fn plain_name_stays_in_its_directory(name: Seq<char>)
    requires
        forall|i: int| 0 <= i < name.len() ==> name[i] != '/' && name[i] != '\\',
    ensures
        is_plain_name(name) <==> name.len() > 0 && name != "."@ && name != ".."@ && !(name.len()
            >= 2 && name[1] == ':' && (('a' <= name[0] && name[0] <= 'z') || ('A' <= name[0]
            && name[0] <= 'Z'))),
{
    lemma_one_part(name);
    assert(seq![name][0] == name);
}

// ---------------------------------------------------------------------------
// Characters and parts of texts
// ---------------------------------------------------------------------------

/// Digits, letters and control characters are told apart by their codes.
pub proof fn characters_are_told_apart(c: char)
    ensures
        is_digit(c) <==> 0x30 <= c as u32 <= 0x39,
        is_alphanumeric(c) <==> 0x30 <= c as u32 <= 0x39 || 0x41 <= c as u32 <= 0x5a || 0x61
            <= c as u32 <= 0x7a,
        is_control(c) <==> c as u32 <= 0x1f || 0x7f <= c as u32 <= 0x9f,
{
}

/// A text has in front what the rest was put behind, and at its end what was put
/// behind the rest.
pub proof fn text_has_its_front_and_its_end(part: Seq<char>, rest: Seq<char>, s: Seq<char>)
    ensures
        has_prefix(part + rest, part),
        has_suffix(rest + part, part),
        has_part(rest + part + rest, part),
        has_prefix(s, part) ==> s == part + s.skip(part.len() as int),
        has_suffix(s, part) ==> s == s.take(s.len() - part.len()) + part,
{
    assert((part + rest).subrange(0, part.len() as int) =~= part);
    assert((rest + part).subrange(rest.len() as int, (rest + part).len() as int) =~= part);
    assert((rest + part + rest).subrange(
        rest.len() as int,
        (rest.len() + part.len()) as int,
    ) =~= part);
    assert(occurs_at(rest + part + rest, part, rest.len() as int));
    if has_prefix(s, part) {
        assert(s =~= s.subrange(0, part.len() as int) + s.skip(part.len() as int));
    }
    if has_suffix(s, part) {
        assert(s =~= s.take(s.len() - part.len()) + s.subrange(
            s.len() - part.len(),
            s.len() as int,
        ));
    }
}

/// The first place of a character is where it stands and not before; where it does
/// not stand, it is the end.
pub proof fn character_is_first_at_its_place(s: Seq<char>, c: char)
    ensures
        0 <= first_at(s, c) <= s.len(),
        first_at(s, c) < s.len() ==> s[first_at(s, c)] == c,
        forall|i: int| 0 <= i < first_at(s, c) ==> (#[trigger] s[i]) != c,
    decreases s.len(),
{
    if s.len() > 0 && s[0] != c {
        character_is_first_at_its_place(s.drop_first(), c);
        let at = first_at(s.drop_first(), c);
        assert forall|i: int| 0 <= i < first_at(s, c) implies (#[trigger] s[i]) != c by {
            if i > 0 {
                assert(s.drop_first()[i - 1] == s[i]);
            }
        }
    }
}

/// A text is found in a list at its first place, and nowhere where it is not in it.
pub proof fn text_is_found_at_its_first_place(list: Seq<Seq<char>>, wanted: Seq<char>)
    ensures
        position_of(list, wanted) is None <==> !list.contains(wanted),
        position_of(list, wanted) matches Some(at) ==> 0 <= at < list.len() && list[at] == wanted
            && forall|i: int| 0 <= i < at ==> (#[trigger] list[i]) != wanted,
    decreases list.len(),
{
    if list.len() > 0 {
        let rest = list.drop_first();
        text_is_found_at_its_first_place(rest, wanted);
        if list[0] == wanted {
            assert(list.contains(wanted));
        } else {
            if rest.contains(wanted) {
                let k = choose|k: int| 0 <= k < rest.len() && rest[k] == wanted;
                assert(list[k + 1] == wanted);
            }
            if list.contains(wanted) {
                let k = choose|k: int| 0 <= k < list.len() && list[k] == wanted;
                assert(rest[k - 1] == wanted);
            }
            if let Some(at) = position_of(rest, wanted) {
                assert forall|i: int| 0 <= i < at + 1 implies (#[trigger] list[i]) != wanted by {
                    if i > 0 {
                        assert(rest[i - 1] == list[i]);
                    }
                }
            }
        }
    }
}

/// Texts are joined with the separator between each two of them.
pub proof fn separator_stands_between(
    parts: Seq<Seq<char>>,
    separator: Seq<char>,
    last: Seq<char>,
)
    ensures
        joined(Seq::empty(), separator) == Seq::<char>::empty(),
        joined(seq![last], separator) == last,
        parts.len() > 0 ==> joined(parts.push(last), separator) == joined(parts, separator)
            + separator + last,
{
    if parts.len() > 0 {
        assert(parts.push(last).drop_last() =~= parts);
    }
}

proof fn lemma_order_behind(front: Seq<char>, a: Seq<char>, b: Seq<char>)
    ensures
        precedes(front + a, front + b) == precedes(a, b),
    decreases front.len(),
{
    if front.len() == 0 {
        assert(front + a =~= a);
        assert(front + b =~= b);
    } else {
        let rest = front.drop_first();
        lemma_order_behind(rest, a, b);
        assert((front + a).drop_first() =~= rest + a);
        assert((front + b).drop_first() =~= rest + b);
    }
}

/// What lies in a directory comes before its siblings whose names go on, and paths
/// that differ elsewhere come in the order of the first character in which they do.
pub proof fn paths_are_in_order(front: Seq<char>, x: Seq<char>, y: Seq<char>, c: char, d: char)
    requires
        c != '\0',
        c != '/',
        c != '\\',
        d != '/',
        d != '\\',
    ensures
        stands_after(front + (seq![c] + y), front + (seq!['\\'] + x)),
        !stands_after(front + (seq!['\\'] + x), front + (seq![c] + y)),
        stands_after(front + (seq![c] + y), front + (seq!['/'] + x)),
        c > d ==> stands_after(front + (seq![c] + y), front + (seq![d] + x)),
        c > d ==> !stands_after(front + (seq![d] + x), front + (seq![c] + y)),
{
    let k = sort_key(front);
    let kx = sort_key(x);
    let ky = sort_key(y);
    assert(sort_key(front + (seq![c] + y)) =~= k + (seq![c] + ky));
    assert(sort_key(front + (seq!['\\'] + x)) =~= k + (seq!['\0'] + kx));
    assert(sort_key(front + (seq!['/'] + x)) =~= k + (seq!['\0'] + kx));
    assert(sort_key(front + (seq![d] + x)) =~= k + (seq![d] + kx));
    lemma_order_behind(k, seq!['\0'] + kx, seq![c] + ky);
    lemma_order_behind(k, seq![c] + ky, seq!['\0'] + kx);
    lemma_order_behind(k, seq![d] + kx, seq![c] + ky);
    lemma_order_behind(k, seq![c] + ky, seq![d] + kx);
}

/// Of two files of a list that is in order, none stands after one behind it.
pub proof fn list_is_in_path_order(paths: Seq<Seq<char>>, i: int, j: int)
    requires
        in_path_order(paths),
        0 <= i < j < paths.len(),
    ensures
        !stands_after(paths[i], paths[j]),
{
}

// ---------------------------------------------------------------------------
// Lists in place of objects
// ---------------------------------------------------------------------------

/// What is stored of a plugin can be read from a list too: identifier, whether it is
/// on, and its version.
pub proof fn record_is_read_by_place(id: Seq<char>, on: bool, version: Seq<char>, more: JsonV)
    ensures
        record_from(
            JsonV::Array(seq![JsonV::Text(id), JsonV::Bool(on), JsonV::Text(version)]),
        ) == Some(RecordV { id, enabled: on, installed_version: Some(version) }),
        record_from(JsonV::Array(seq![JsonV::Text(id), JsonV::Bool(on), JsonV::Null])) == Some(
            RecordV { id, enabled: on, installed_version: None },
        ),
        record_from(JsonV::Array(seq![JsonV::Text(id), JsonV::Bool(on)])) is None,
        record_from(
            JsonV::Array(seq![JsonV::Text(id), JsonV::Bool(on), JsonV::Text(version), more]),
        ) is None,
{
}

/// A plugin of the catalog can be read from a list of its parts in order.
pub proof fn plugin_is_read_by_place(parts: Seq<JsonV>, def: DefV, icon: Seq<char>)
    requires
        def.icon == Some(icon),
        parts == seq![
            JsonV::Text(def.id),
            JsonV::Text(def.display_name),
            JsonV::Text(def.owner),
            JsonV::Text(def.repo),
            JsonV::Text(def.asset_prefix),
            JsonV::Text(def.exe_name),
            JsonV::Text(def.pipe_name),
            JsonV::Text(def.target_hint),
            JsonV::Text(icon),
        ],
    ensures
        def_from(JsonV::Array(parts)) == Some(def),
        def_from(JsonV::Array(parts.take(7))) == Some(
            DefV { target_hint: Seq::empty(), icon: None, ..def },
        ),
        def_from(JsonV::Array(parts.take(6))) is None,
        def_from(JsonV::Array(parts.push(JsonV::Null))) is None,
{
}

/// An item of the library can be read from a list of its parts in order.
pub proof fn item_is_read_by_place(parts: Seq<JsonV>, item: ItemV, count: u64, url: Seq<char>)
    requires
        item.kind == MediaKind::Video,
        item.origin == MediaOrigin::Folder,
        item.source_url == Some(url),
        item.file_count == Some(count),
        item.preview_url is None,
        parts == seq![
            JsonV::Text(item.id),
            JsonV::Text(item.name),
            JsonV::Text("video"@),
            JsonV::Text("folder"@),
            JsonV::Text(item.file_name),
            JsonV::Text(item.mime_type),
            JsonV::Num(Num::PosInt(item.byte_size)),
            JsonV::Text(item.sha256),
            JsonV::Text(url),
            JsonV::Num(Num::PosInt(count)),
            JsonV::Text(item.created_at),
            JsonV::Null,
        ],
    ensures
        item_from(JsonV::Array(parts)) == Some(item),
        item_from(JsonV::Array(parts.take(11))) == Some(item),
        item_from(JsonV::Array(parts.take(10))) is None,
        item_from(JsonV::Array(parts.push(JsonV::Null))) is None,
{
    kinds_and_origins_have_names("video"@);
    kinds_and_origins_have_names("folder"@);
}

/// The settings of a proxy can be read from a list: the mode and the address.
pub proof fn proxy_is_read_by_place(url: Seq<char>, more: JsonV)
    ensures
        proxy_from(JsonV::Array(seq![JsonV::Text("custom"@), JsonV::Text(url)])) == Some(
            ProxyV { mode: ProxyMode::Custom, url },
        ),
        proxy_from(JsonV::Array(Seq::empty())) == Some(
            ProxyV { mode: ProxyMode::Off, url: Seq::empty() },
        ),
        proxy_from(JsonV::Array(seq![JsonV::Text("custom"@), JsonV::Text(url), more])) is None,
{
    reveal_strlit("off");
    reveal_strlit("system");
    reveal_strlit("custom");
    assert("off"@.len() == 3 && "system"@[0] == 's' && "custom"@[0] == 'c');
    assert("custom"@.len() == 6);
}

/// The state can be read from a list: the records, the two flags, and the proxy.
pub proof fn state_is_read_by_place(starts: bool, minimized: bool, proxy: JsonV)
    ensures
        state_from(
            JsonV::Array(
                seq![JsonV::Array(Seq::empty()), JsonV::Bool(starts), JsonV::Bool(minimized)],
            ),
        ) == Some(
            StateV {
                plugins: Seq::empty(),
                auto_start_with_windows: starts,
                start_minimized: minimized,
                proxy: ProxyV { mode: ProxyMode::Off, url: Seq::empty() },
            },
        ),
        proxy_from(proxy) matches Some(settings) ==> state_from(
            JsonV::Array(
                seq![
                    JsonV::Array(Seq::empty()),
                    JsonV::Bool(starts),
                    JsonV::Bool(minimized),
                    proxy,
                ],
            ),
        ) == Some(
            StateV {
                plugins: Seq::empty(),
                auto_start_with_windows: starts,
                start_minimized: minimized,
                proxy: settings,
            },
        ),
{
}

/// A response can be read from a list: identifier, success, result and reason.
pub proof fn response_is_read_by_place(
    id: Seq<char>,
    ok: bool,
    result: JsonV,
    reason: Seq<char>,
    more: JsonV,
)
    requires
        !(result is Null),
    ensures
        response_of(
            JsonV::Array(seq![JsonV::Text(id), JsonV::Bool(ok), result, JsonV::Text(reason)]),
        ) == Some(ResponseV { id, ok, result: Some(result), error: Some(reason) }),
        response_of(JsonV::Array(seq![JsonV::Text(id), JsonV::Bool(ok)])) == Some(
            ResponseV { id, ok, result: None, error: None },
        ),
        response_of(
            JsonV::Array(
                seq![JsonV::Text(id), JsonV::Bool(ok), result, JsonV::Text(reason), more],
            ),
        ) is None,
{
}

/// The configuration can be read from a list of up to one part.
pub proof fn configuration_is_read_by_place(root: Seq<char>, more: JsonV)
    ensures
        config_from(JsonV::Array(seq![JsonV::Text(root)])) == Some(Some(root)),
        config_from(JsonV::Array(seq![JsonV::Null])) == Some(None::<Seq<char>>),
        config_from(JsonV::Array(Seq::empty())) == Some(None::<Seq<char>>),
        config_from(JsonV::Array(seq![JsonV::Text(root), more])) is None,
{
}

/// A catalog can be read from a list: the protocol and the plugins.
pub proof fn catalog_is_read_by_place(protocol: u32, values: Seq<JsonV>, more: JsonV)
    ensures
        catalog_from(
            JsonV::Array(seq![JsonV::Num(Num::PosInt(protocol as u64)), JsonV::Array(values)]),
        ) == defs_from(values),
        catalog_from(JsonV::Array(seq![JsonV::Num(Num::PosInt(protocol as u64))])) is None,
        catalog_from(
            JsonV::Array(
                seq![JsonV::Num(Num::PosInt(protocol as u64)), JsonV::Array(values), more],
            ),
        ) is None,
{
}

} // verus!
