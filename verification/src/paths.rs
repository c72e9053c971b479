//! Names of files and the order of paths. A path is a string whose parts are
//! set apart by `/` or `\`.
use vstd::prelude::*;

use crate::json::{
    before, lemma_precedes_not_itself, lemma_precedes_total, lemma_precedes_transitive, precedes,
};
use crate::text::{
    chars_of, is_ascii_lower, is_ascii_upper, list_view, lower, lower_text, same, text_of,
};

verus! {

pub open spec fn is_separator(c: char) -> bool {
    c == '/' || c == '\\'
}

fn separator(c: char) -> (r: bool)
    ensures
        r == is_separator(c),
{
    c == '/' || c == '\\'
}

/// The parts of a path between its separators.
pub open spec fn parts_of(path: Seq<char>) -> Seq<Seq<char>>
    decreases path.len(),
{
    if path.len() == 0 {
        seq![Seq::empty()]
    } else {
        let front = parts_of(path.drop_last());
        if is_separator(path.last()) {
            front.push(Seq::empty())
        } else {
            front.drop_last().push(front.last().push(path.last()))
        }
    }
}

proof fn lemma_parts_of(path: Seq<char>)
    ensures
        parts_of(path).len() > 0,
    decreases path.len(),
{
    if path.len() > 0 {
        lemma_parts_of(path.drop_last());
    }
}

/// The parts of a path between its separators.
pub fn split_path(path: &str) -> (r: Vec<String>)
    ensures
        list_view(r@) == parts_of(path@),
        r.len() > 0,
{
    let chars = chars_of(path);
    let mut done: Vec<String> = Vec::new();
    let mut from: usize = 0;
    let mut i: usize = 0;
    assert(path@.take(0) =~= Seq::empty());
    assert(list_view(done@).push(chars@.subrange(0, 0)) =~= parts_of(path@.take(0)));
    while i < chars.len()
        invariant
            from <= i <= chars.len(),
            chars@ == path@,
            list_view(done@).push(chars@.subrange(from as int, i as int)) == parts_of(
                path@.take(i as int),
            ),
        decreases chars.len() - i,
    {
        let ghost front = list_view(done@).push(chars@.subrange(from as int, i as int));
        proof {
            assert(path@.take(i + 1).drop_last() =~= path@.take(i as int));
            assert(front.drop_last() =~= list_view(done@));
        }
        if separator(chars[i]) {
            done.push(text_of(&chars, from, i));
            proof {
                assert(list_view(done@) =~= front);
                assert(chars@.subrange(i + 1, i + 1) =~= Seq::empty());
            }
            from = i + 1;
        } else {
            assert(chars@.subrange(from as int, i + 1) =~= chars@.subrange(
                from as int,
                i as int,
            ).push(chars@[i as int]));
        }
        i += 1;
    }
    let ghost front = list_view(done@);
    done.push(text_of(&chars, from, chars.len()));
    proof {
        assert(path@.take(i as int) =~= path@);
        assert(list_view(done@) =~= front.push(chars@.subrange(from as int, i as int)));
    }
    done
}

/// A part that a path can do without.
pub open spec fn is_blank_part(part: Seq<char>) -> bool {
    part.len() == 0 || part == "."@
}

fn blank_part(part: &str) -> (r: bool)
    ensures
        r == is_blank_part(part@),
{
    part.is_empty() || same(part, ".")
}

/// The last part that names something, where it does not step upwards.
pub open spec fn name_in(parts: Seq<Seq<char>>) -> Option<Seq<char>>
    decreases parts.len(),
{
    if parts.len() == 0 {
        None
    } else if is_blank_part(parts.last()) {
        name_in(parts.drop_last())
    } else if parts.last() == ".."@ {
        None
    } else {
        Some(parts.last())
    }
}

/// The name of the file that a path leads to.
pub open spec fn file_name_of(path: Seq<char>) -> Option<Seq<char>> {
    name_in(parts_of(path))
}

/// The name of the file that a path leads to.
pub fn file_name(path: &str) -> (r: Option<String>)
    ensures
        match r {
            Some(name) => file_name_of(path@) == Some(name@),
            None => file_name_of(path@) is None,
        },
{
    let parts = split_path(path);
    let ghost model = list_view(parts@);
    let mut n: usize = parts.len();
    assert(model.take(n as int) =~= model);
    while n > 0
        invariant
            n <= parts.len(),
            model == list_view(parts@),
            model == parts_of(path@),
            name_in(model) == name_in(model.take(n as int)),
        decreases n,
    {
        let part = &parts[n - 1];
        proof {
            assert(model.take(n as int).last() == part@);
            assert(model.take(n as int).drop_last() =~= model.take(n - 1));
        }
        if !blank_part(part.as_str()) {
            if same(part.as_str(), "..") {
                return None;
            }
            return Some(part.clone());
        }
        n -= 1;
    }
    None
}

/// The place after the last point of a name, or 0.
pub open spec fn after_point(name: Seq<char>) -> int
    decreases name.len(),
{
    if name.len() == 0 {
        0
    } else if name.last() == '.' {
        name.len() as int
    } else {
        after_point(name.drop_last())
    }
}

/// The extension of a file's name in lower case, with its point. A point at
/// the front of a name starts no extension.
pub open spec fn extension_in(name: Option<Seq<char>>) -> Seq<char> {
    match name {
        Some(text) => if after_point(text) >= 2 {
            seq!['.'] + lower(text.skip(after_point(text)))
        } else {
            Seq::empty()
        },
        None => Seq::empty(),
    }
}

fn find_point(chars: &Vec<char>) -> (r: usize)
    ensures
        r == after_point(chars@),
        r <= chars.len(),
{
    let mut n: usize = chars.len();
    assert(chars@.take(n as int) =~= chars@);
    while n > 0
        invariant
            n <= chars.len(),
            after_point(chars@) == after_point(chars@.take(n as int)),
        decreases n,
    {
        assert(chars@.take(n as int).drop_last() =~= chars@.take(n - 1));
        if chars[n - 1] == '.' {
            return n;
        }
        n -= 1;
    }
    0
}

/// The extension of a file's name.
pub fn name_extension(name: &Option<String>) -> (r: String)
    ensures
        r@ == extension_in(crate::text::opt_view(*name)),
{
    match name {
        Some(text) => {
            let chars = chars_of(text.as_str());
            let at = find_point(&chars);
            if at >= 2 {
                let rest = text_of(&chars, at, chars.len());
                assert(rest@ =~= text@.skip(at as int));
                proof {
                    reveal_strlit(".");
                    assert("."@ =~= seq!['.']);
                }
                ".".to_string().concat(lower_text(rest.as_str()).as_str())
            } else {
                String::new()
            }
        },
        None => String::new(),
    }
}

/// The extension of the file that a path leads to.
pub open spec fn extension_of(path: Seq<char>) -> Seq<char> {
    extension_in(file_name_of(path))
}

/// The extension of the file that a path leads to.
pub fn extension(path: &str) -> (r: String)
    ensures
        r@ == extension_of(path@),
{
    name_extension(&file_name(path))
}

/// The path starts with the letter of a drive.
pub open spec fn has_drive(path: Seq<char>) -> bool {
    path.len() >= 2 && path[1] == ':' && (is_ascii_lower(path[0]) || is_ascii_upper(path[0]))
}

/// The path is the name of a file and nothing else: one part, from no drive,
/// that neither stays nor steps upwards.
pub open spec fn is_plain_name(path: Seq<char>) -> bool {
    let parts = parts_of(path);
    &&& !has_drive(path)
    &&& !is_blank_part(parts[0])
    &&& parts[0] != ".."@
    &&& forall|i: int| 1 <= i < parts.len() ==> is_blank_part(#[trigger] parts[i])
}

/// Whether a path is the name of a file and nothing else.
pub fn plain_name(path: &str) -> (r: bool)
    ensures
        r == is_plain_name(path@),
{
    let chars = chars_of(path);
    if chars.len() >= 2 && chars[1] == ':' && (('a' <= chars[0] && chars[0] <= 'z') || ('A'
        <= chars[0] && chars[0] <= 'Z')) {
        return false;
    }
    let parts = split_path(path);
    let ghost model = parts_of(path@);
    assert(model[0] == parts@[0]@);
    if blank_part(parts[0].as_str()) || same(parts[0].as_str(), "..") {
        return false;
    }
    let mut i: usize = 1;
    while i < parts.len()
        invariant
            1 <= i <= parts.len(),
            model == list_view(parts@),
            model == parts_of(path@),
            forall|k: int| 1 <= k < i ==> is_blank_part(#[trigger] model[k]),
        decreases parts.len() - i,
    {
        if !blank_part(parts[i].as_str()) {
            assert(!is_blank_part(model[i as int]));
            return false;
        }
        i += 1;
    }
    true
}

// ---------------------------------------------------------------------------
// The order of paths
// ---------------------------------------------------------------------------

/// A path with its separators below every other character, so that the order
/// of characters is the order of the parts.
pub open spec fn sort_key(path: Seq<char>) -> Seq<char> {
    path.map_values(|c: char| if is_separator(c) { '\0' } else { c })
}

/// The first path stands after the second.
pub open spec fn stands_after(a: Seq<char>, b: Seq<char>) -> bool {
    precedes(sort_key(b), sort_key(a))
}

/// No path stands after a later one.
pub open spec fn in_path_order(paths: Seq<Seq<char>>) -> bool {
    forall|i: int, j: int|
        0 <= i < j < paths.len() ==> !stands_after(#[trigger] paths[i], #[trigger] paths[j])
}

fn key_of(path: &str) -> (r: String)
    ensures
        r@ == sort_key(path@),
{
    let mut out = String::new();
    for c in it: path.chars()
        invariant
            it.seq() == path@,
            out@ == sort_key(path@.take(it.index() as int)),
    {
        let ghost at = it.index() as int;
        proof {
            assert(path@.take(at + 1) =~= path@.take(at).push(path@[at]));
            assert(sort_key(path@.take(at + 1)) =~= sort_key(path@.take(at)).push(
                if is_separator(c) {
                    '\0'
                } else {
                    c
                },
            ));
        }
        if separator(c) {
            out.push('\0');
        } else {
            out.push(c);
        }
    }
    assert(path@.take(path@.len() as int) =~= path@);
    out
}

fn comes_after(a: &str, b: &str) -> (r: bool)
    ensures
        r == stands_after(a@, b@),
{
    before(key_of(b).as_str(), key_of(a).as_str())
}

proof fn lemma_after_transitive(a: Seq<char>, b: Seq<char>, c: Seq<char>)
    requires
        !stands_after(a, b),
        !stands_after(b, c),
    ensures
        !stands_after(a, c),
{
    let (x, y, z) = (sort_key(a), sort_key(b), sort_key(c));
    lemma_precedes_total(x, y);
    lemma_precedes_total(y, z);
    if precedes(z, x) {
        if x == y {
        } else if y == z {
        } else {
            assert(precedes(x, y) && precedes(y, z));
            lemma_precedes_transitive(x, y, z);
            lemma_precedes_transitive(x, z, x);
            lemma_precedes_not_itself(x);
        }
    }
}

/// Puts a path where it belongs.
fn insert_in_order(sorted: &mut Vec<String>, path: String)
    requires
        in_path_order(list_view(old(sorted)@)),
    ensures
        in_path_order(list_view(final(sorted)@)),
        list_view(final(sorted)@).to_multiset() == list_view(old(sorted)@).to_multiset().insert(
            path@,
        ),
{
    let ghost start = list_view(sorted@);
    let mut at: usize = 0;
    while at < sorted.len() && !comes_after(sorted[at].as_str(), path.as_str())
        invariant
            at <= sorted.len(),
            start == list_view(sorted@),
            forall|k: int| 0 <= k < at ==> !stands_after(#[trigger] start[k], path@),
        decreases sorted.len() - at,
    {
        at += 1;
    }
    let ghost name = path@;
    proof {
        if at < start.len() {
            assert(stands_after(start[at as int], name));
        }
    }
    sorted.insert(at, path);
    proof {
        let after = list_view(sorted@);
        assert(after =~= start.insert(at as int, name));
        vstd::seq_lib::to_multiset_insert(start, at as int, name);
        assert forall|i: int, j: int| 0 <= i < j < after.len() implies !stands_after(
            #[trigger] after[i],
            #[trigger] after[j],
        ) by {
            if j < at {
                assert(after[i] == start[i] && after[j] == start[j]);
            } else if j == at {
                assert(after[i] == start[i]);
            } else if i < at {
                assert(after[i] == start[i] && after[j] == start[j - 1]);
            } else if i == at {
                assert(after[j] == start[j - 1]);
                lemma_above(name, start, at as int, j - 1);
            } else {
                assert(after[i] == start[i - 1] && after[j] == start[j - 1]);
            }
        }
    }
}

/// What stands after a path that stands after another stands after that one.
proof fn lemma_above(name: Seq<char>, sorted: Seq<Seq<char>>, at: int, j: int)
    requires
        in_path_order(sorted),
        0 <= at <= j < sorted.len(),
        stands_after(sorted[at], name),
    ensures
        !stands_after(name, sorted[j]),
{
    let x = sort_key(name);
    let y = sort_key(sorted[at]);
    lemma_precedes_total(x, y);
    if precedes(y, x) {
        lemma_precedes_transitive(x, y, x);
        lemma_precedes_not_itself(x);
    }
    assert(!stands_after(name, sorted[at]));
    if at < j {
        lemma_after_transitive(name, sorted[at], sorted[j]);
    }
}

/// Sorts paths.
pub fn sort_paths(paths: Vec<String>) -> (r: Vec<String>)
    ensures
        in_path_order(list_view(r@)),
        list_view(r@).to_multiset() == list_view(paths@).to_multiset(),
        r.len() == paths.len(),
{
    let ghost model = list_view(paths@);
    let mut sorted: Vec<String> = Vec::new();
    let mut i: usize = 0;
    proof {
        assert(list_view(sorted@) =~= model.take(0));
    }
    while i < paths.len()
        invariant
            i <= paths.len(),
            model == list_view(paths@),
            in_path_order(list_view(sorted@)),
            list_view(sorted@).to_multiset() == model.take(i as int).to_multiset(),
        decreases paths.len() - i,
    {
        insert_in_order(&mut sorted, paths[i].clone());
        proof {
            assert(model.take(i + 1) =~= model.take(i as int).push(model[i as int]));
            broadcast use vstd::seq_lib::group_to_multiset_ensures;
        }
        i += 1;
    }
    proof {
        assert(model.take(i as int) =~= model);
        broadcast use vstd::seq_lib::group_to_multiset_ensures;
        assert(list_view(sorted@).len() == list_view(sorted@).to_multiset().len());
    }
    sorted
}

} // verus!
