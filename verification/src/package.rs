//! Unpacking the archive of a plugin.
use vstd::prelude::*;

use crate::paths::{is_blank_part, parts_of};
use crate::plugins::{check_archive, check_entry, entry_check, MAX_ARCHIVE_ENTRIES};
use crate::text::decimal;

verus! {

/// An entry of an archive, as its directory describes it: its path, how large
/// it is once unpacked, and whether it is a directory.
pub struct PackedEntry {
    pub path: String,
    pub size: u64,
    pub is_directory: bool,
}

/// The model of an entry.
pub struct PackedV {
    pub path: Seq<char>,
    pub size: u64,
    pub is_directory: bool,
}

impl View for PackedEntry {
    type V = PackedV;

    open spec fn view(&self) -> PackedV {
        PackedV { path: self.path@, size: self.size, is_directory: self.is_directory }
    }
}

/// Name: how many entries `zip::ZipArchive` finds in these bytes, or what is
/// wrong with them.
pub uninterp spec fn zip_count(bytes: Seq<u8>) -> Result<usize, Seq<char>>;

/// Name: what `zip::ZipArchive::by_index` says of an entry of these bytes.
pub uninterp spec fn zip_entry(bytes: Seq<u8>, index: usize) -> Result<PackedV, Seq<char>>;

/// Name: what reading an entry of these bytes to its end gives.
pub uninterp spec fn zip_content(bytes: Seq<u8>, index: usize) -> Result<Seq<u8>, Seq<char>>;

/// Outside function: `zip::ZipArchive::new` over the bytes, with
/// `zip::ZipArchive::len`. The number is named.
#[verifier::external_body]
fn count_entries(bytes: &Vec<u8>) -> (r: Result<usize, String>)
    ensures
        (match r {
            Ok(count) => Ok(count),
            Err(message) => Err(message@),
        }) == zip_count(bytes@),
{
    let archive = zip::ZipArchive::new(std::io::Cursor::new(bytes.as_slice()));
    archive.map(|found| found.len()).map_err(|error| error.to_string())
}

/// Outside function: `zip::ZipArchive::by_index` over the bytes, with `name`,
/// `size` and `is_dir` of the entry. What they give is named.
#[verifier::external_body]
fn read_entry(bytes: &Vec<u8>, index: usize) -> (r: Result<PackedEntry, String>)
    ensures
        (match r {
            Ok(entry) => Ok(entry@),
            Err(message) => Err(message@),
        }) == zip_entry(bytes@, index),
{
    let mut archive = zip::ZipArchive::new(std::io::Cursor::new(bytes.as_slice())).map_err(
        |error| error.to_string(),
    )?;
    let entry = archive.by_index(index).map_err(|error| error.to_string())?;
    let path = entry.name().to_string();
    Ok(PackedEntry { path, size: entry.size(), is_directory: entry.is_dir() })
}

/// How deep the parts of a path lead: an ordinary part leads down, and `..`
/// leads up.
pub open spec fn depth_of(parts: Seq<Seq<char>>) -> int
    decreases parts.len(),
{
    if parts.len() == 0 {
        0
    } else if is_blank_part(parts.last()) {
        depth_of(parts.drop_last())
    } else if parts.last() == ".."@ {
        depth_of(parts.drop_last()) - 1
    } else {
        depth_of(parts.drop_last()) + 1
    }
}

/// On no part of its way does a path leave the directory that it starts in.
pub open spec fn stays_below(path: Seq<char>) -> bool {
    let parts = parts_of(path);
    forall|count: int| 0 <= count <= parts.len() ==> depth_of(#[trigger] parts.take(count)) >= 0
}

/// The path can be joined to a directory: it holds no NUL, does not start at
/// the root, and stays below.
pub open spec fn is_inner_path(path: Seq<char>) -> bool {
    &&& !path.contains('\0')
    &&& !(path.len() > 0 && path[0] == '/')
    &&& stays_below(path)
}

/// Every machine takes the path apart in the same way.
pub open spec fn is_portable(path: Seq<char>) -> bool {
    !path.contains('\\') && !path.contains(':')
}

/// The path is one that some machine takes for an inner one.
pub open spec fn is_kept_path(path: Seq<char>) -> bool {
    &&& !path.contains('\0')
    &&& !(path.len() > 0 && path[0] == '/')
    &&& !path.contains('\\') ==> stays_below(path)
}

/// The entry can be read, and some machine takes its path for an inner one.
pub open spec fn may_be_enclosed(entry: Result<PackedV, Seq<char>>) -> bool {
    match entry {
        Ok(found) => is_kept_path(found.path),
        Err(_) => false,
    }
}

/// The entry can be read, and every machine takes its path for an inner one.
pub open spec fn must_be_enclosed(entry: Result<PackedV, Seq<char>>) -> bool {
    match entry {
        Ok(found) => is_portable(found.path) && is_inner_path(found.path),
        Err(_) => false,
    }
}

/// Outside function: `enclosed_name` of the entry that
/// `zip::ZipArchive::by_index` gives over the bytes. It gives the path of the
/// entry where that holds no NUL, does not start at a root or a drive, and has
/// at no point more `..` than ordinary parts before it. Machines differ in
/// whether a backslash parts a path and a colon ends a drive's name: of paths
/// that hold one of them the answer is left open as far as they do.
#[verifier::external_body]
fn is_enclosed(bytes: &Vec<u8>, index: usize) -> (r: bool)
    ensures
        r ==> may_be_enclosed(zip_entry(bytes@, index)),
        must_be_enclosed(zip_entry(bytes@, index)) ==> r,
{
    let archive = zip::ZipArchive::new(std::io::Cursor::new(bytes.as_slice())).ok();
    archive.is_some_and(
        |mut found| found.by_index(index).is_ok_and(|entry| entry.enclosed_name().is_some()),
    )
}

/// Outside function: `std::io::Read::read_to_end` on the entry that
/// `zip::ZipArchive::by_index` gives over the bytes. What it reads is named.
#[verifier::external_body]
fn read_content(bytes: &Vec<u8>, index: usize) -> (r: Result<Vec<u8>, String>)
    ensures
        (match r {
            Ok(content) => Ok(content@),
            Err(message) => Err(message@),
        }) == zip_content(bytes@, index),
{
    let mut archive = zip::ZipArchive::new(std::io::Cursor::new(bytes.as_slice())).map_err(
        |error| error.to_string(),
    )?;
    let mut entry = archive.by_index(index).map_err(|error| error.to_string())?;
    let mut content = Vec::new();
    std::io::Read::read_to_end(&mut entry, &mut content).map_err(|error| error.to_string())?;
    Ok(content)
}

/// What is to be written of an entry: its path, and its content where it is no
/// directory.
pub struct Unpacked {
    pub path: String,
    pub content: Option<Vec<u8>>,
}

/// The model of what is to be written.
pub struct UnpackedV {
    pub path: Seq<char>,
    pub content: Option<Seq<u8>>,
}

impl View for Unpacked {
    type V = UnpackedV;

    open spec fn view(&self) -> UnpackedV {
        UnpackedV {
            path: self.path@,
            content: match self.content {
                Some(bytes) => Some(bytes@),
                None => None,
            },
        }
    }
}

/// The models of what is to be written.
pub open spec fn unpacked_view(entries: Seq<Unpacked>) -> Seq<UnpackedV> {
    entries.map_values(|entry: Unpacked| entry@)
}

/// What one entry gives, given what was read of it, whether its path stays
/// inside, and the size of all entries so far.
pub open spec fn unpacked_entry(
    total: u64,
    entry: Result<PackedV, Seq<char>>,
    enclosed: bool,
    content: Result<Seq<u8>, Seq<char>>,
) -> Result<(u64, UnpackedV), Seq<char>> {
    match entry {
        Err(message) => Err(message),
        Ok(found) => match entry_check(total, found.size, enclosed) {
            Err(message) => Err(message),
            Ok(sum) => if found.is_directory {
                Ok((sum, UnpackedV { path: found.path, content: None }))
            } else {
                match content {
                    Err(message) => Err(message),
                    Ok(bytes) => Ok((sum, UnpackedV { path: found.path, content: Some(bytes) })),
                }
            },
        },
    }
}

/// The path of the entry at a place stays inside.
pub open spec fn stays_inside(enclosed: Seq<bool>, index: int) -> bool {
    index < enclosed.len() && enclosed[index]
}

/// What the first entries of an archive give, and their size: the first that
/// is refused decides.
pub open spec fn unpacked_first(bytes: Seq<u8>, enclosed: Seq<bool>, count: nat) -> Result<
    (u64, Seq<UnpackedV>),
    Seq<char>,
>
    decreases count,
{
    if count == 0 {
        Ok((0, Seq::empty()))
    } else {
        match unpacked_first(bytes, enclosed, (count - 1) as nat) {
            Err(message) => Err(message),
            Ok((total, entries)) => match unpacked_entry(
                total,
                zip_entry(bytes, (count - 1) as usize),
                stays_inside(enclosed, count - 1),
                zip_content(bytes, (count - 1) as usize),
            ) {
                Err(message) => Err(message),
                Ok((sum, entry)) => Ok((sum, entries.push(entry))),
            },
        }
    }
}

/// What an archive gives, given which paths stay inside.
pub open spec fn unpacked_archive(bytes: Seq<u8>, enclosed: Seq<bool>) -> Result<
    Seq<UnpackedV>,
    Seq<char>,
> {
    match zip_count(bytes) {
        Err(message) => Err(message),
        Ok(count) => if count > MAX_ARCHIVE_ENTRIES {
            Err("插件包文件数超过 "@ + decimal(MAX_ARCHIVE_ENTRIES as nat) + " 项上限。"@)
        } else {
            match unpacked_first(bytes, enclosed, count as nat) {
                Err(message) => Err(message),
                Ok((_, entries)) => Ok(entries),
            }
        },
    }
}

/// The outcome of unpacking, as its model.
pub open spec fn unpacked_outcome(r: Result<Vec<Unpacked>, String>) -> Result<
    Seq<UnpackedV>,
    Seq<char>,
> {
    match r {
        Ok(entries) => Ok(unpacked_view(entries@)),
        Err(message) => Err(message@),
    }
}

proof fn lemma_refused_entry_decides(
    bytes: Seq<u8>,
    enclosed: Seq<bool>,
    few: nat,
    count: nat,
)
    requires
        few <= count,
        unpacked_first(bytes, enclosed, few) is Err,
    ensures
        unpacked_first(bytes, enclosed, count) == unpacked_first(bytes, enclosed, few),
    decreases count,
{
    if few < count {
        lemma_refused_entry_decides(bytes, enclosed, few, (count - 1) as nat);
    }
}

/// Unpacks an archive, given which of its paths stay inside.
pub fn unpack_enclosed(bytes: &Vec<u8>, enclosed: &Vec<bool>) -> (r: Result<
    Vec<Unpacked>,
    String,
>)
    ensures
        unpacked_outcome(r) == unpacked_archive(bytes@, enclosed@),
{
    let count = count_entries(bytes)?;
    check_archive(count)?;
    let mut out: Vec<Unpacked> = Vec::new();
    let mut total: u64 = 0;
    let mut i: usize = 0;
    assert(unpacked_view(out@) =~= Seq::<UnpackedV>::empty());
    while i < count
        invariant
            i <= count <= MAX_ARCHIVE_ENTRIES,
            zip_count(bytes@) == Ok::<usize, Seq<char>>(count),
            unpacked_first(bytes@, enclosed@, i as nat) == Ok::<
                (u64, Seq<UnpackedV>),
                Seq<char>,
            >((total, unpacked_view(out@))),
        decreases count - i,
    {
        let ghost before = unpacked_view(out@);
        proof {
            if unpacked_first(bytes@, enclosed@, (i + 1) as nat) is Err {
                lemma_refused_entry_decides(bytes@, enclosed@, (i + 1) as nat, count as nat);
            }
        }
        let inside = i < enclosed.len() && enclosed[i];
        let entry = read_entry(bytes, i)?;
        let sum = check_entry(total, entry.size, inside)?;
        let content = if entry.is_directory {
            None
        } else {
            Some(read_content(bytes, i)?)
        };
        out.push(Unpacked { path: entry.path, content });
        assert(unpacked_view(out@) =~= before.push(out@.last()@));
        total = sum;
        i += 1;
    }
    Ok(out)
}

/// How many entries the archive has, where it can be read.
pub open spec fn entry_count(bytes: Seq<u8>) -> nat {
    match zip_count(bytes) {
        Ok(count) => count as nat,
        Err(_) => 0,
    }
}

/// Of each entry it is said whether its path stays inside, as some machine says
/// it.
pub open spec fn answers_fit(bytes: Seq<u8>, enclosed: Seq<bool>) -> bool {
    &&& enclosed.len() == entry_count(bytes)
    &&& forall|k: int|
        0 <= k < enclosed.len() ==> answer_fits(zip_entry(bytes, k as usize), #[trigger] enclosed[k])
}

/// Some machine says of the entry that its path stays inside, or that it does
/// not.
pub open spec fn answer_fits(entry: Result<PackedV, Seq<char>>, enclosed: bool) -> bool {
    &&& enclosed ==> may_be_enclosed(entry)
    &&& must_be_enclosed(entry) ==> enclosed
}

/// Which entries have an inner path.
pub open spec fn inner_paths(bytes: Seq<u8>) -> Seq<bool> {
    Seq::new(
        entry_count(bytes),
        |k: int|
            match zip_entry(bytes, k as usize) {
                Ok(entry) => is_inner_path(entry.path),
                Err(_) => false,
            },
    )
}

/// Every path of the archive is taken apart in the same way on every machine.
pub open spec fn has_portable_paths(bytes: Seq<u8>) -> bool {
    forall|k: int|
        0 <= k < entry_count(bytes) ==> ((#[trigger] zip_entry(bytes, k as usize)) matches Ok(entry)
            ==> is_portable(entry.path))
}

/// Where all paths are portable, every machine says the same of them.
pub proof fn portable_paths_are_judged_alike(bytes: Seq<u8>, enclosed: Seq<bool>)
    requires
        has_portable_paths(bytes),
        answers_fit(bytes, enclosed),
    ensures
        enclosed == inner_paths(bytes),
{
    assert forall|k: int| 0 <= k < enclosed.len() implies enclosed[k] == inner_paths(bytes)[k] by {
        assert(answer_fits(zip_entry(bytes, k as usize), enclosed[k]));
    }
    assert(enclosed =~= inner_paths(bytes));
}

/// An archive with a path that leads out of its directory is refused, unless a
/// backslash in the path hides the way.
pub proof fn climbing_archive_is_refused(bytes: Seq<u8>, enclosed: Seq<bool>, index: usize)
    requires
        answers_fit(bytes, enclosed),
        index < entry_count(bytes),
        zip_entry(bytes, index) matches Ok(entry) && !entry.path.contains('\\')
            && !is_inner_path(entry.path),
    ensures
        unpacked_archive(bytes, enclosed) is Err,
{
    let count = entry_count(bytes);
    assert(answer_fits(zip_entry(bytes, index), enclosed[index as int]));
    assert(unpacked_first(bytes, enclosed, (index + 1) as nat) is Err);
    lemma_refused_entry_decides(bytes, enclosed, (index + 1) as nat, count);
}

/// Unpacks an archive: every entry has to stay within the limits, and inside
/// the directory it is unpacked to. Where all its paths are portable, what comes
/// of it is the same on every machine.
pub fn unpack(bytes: &Vec<u8>) -> (r: Result<Vec<Unpacked>, String>)
    ensures
        exists|enclosed: Seq<bool>| #[trigger]
            unpacked_archive(bytes@, enclosed) == unpacked_outcome(r) && answers_fit(
                bytes@,
                enclosed,
            ),
        has_portable_paths(bytes@) ==> unpacked_outcome(r) == unpacked_archive(
            bytes@,
            inner_paths(bytes@),
        ),
        r matches Ok(entries) ==> forall|i: int|
            0 <= i < entries.len() ==> is_kept_path((#[trigger] entries@[i]).path@),
{
    let count = match count_entries(bytes) {
        Ok(count) => count,
        Err(message) => {
            assert(answers_fit(bytes@, Seq::empty()));
            assert(unpacked_archive(bytes@, Seq::empty()) == Err::<Seq<UnpackedV>, Seq<char>>(
                message@,
            ));
            return Err(message);
        },
    };
    if let Err(message) = check_archive(count) {
        proof {
            let sure = Seq::new(
                count as nat,
                |k: int| must_be_enclosed(zip_entry(bytes@, k as usize)),
            );
            assert(answers_fit(bytes@, sure));
            assert(unpacked_archive(bytes@, sure) == Err::<Seq<UnpackedV>, Seq<char>>(message@));
        }
        return Err(message);
    }
    let mut enclosed: Vec<bool> = Vec::new();
    let mut i: usize = 0;
    while i < count
        invariant
            i <= count,
            enclosed.len() == i,
            forall|k: int|
                0 <= k < i ==> answer_fits(
                    zip_entry(bytes@, k as usize),
                    #[trigger] enclosed@[k],
                ),
        decreases count - i,
    {
        enclosed.push(is_enclosed(bytes, i));
        i += 1;
    }
    let r = unpack_enclosed(bytes, &enclosed);
    proof {
        assert(answers_fit(bytes@, enclosed@));
        assert(unpacked_archive(bytes@, enclosed@) == unpacked_outcome(r));
        if has_portable_paths(bytes@) {
            portable_paths_are_judged_alike(bytes@, enclosed@);
        }
        if r is Ok {
            let entries = r->Ok_0;
            lemma_kept_paths(bytes@, enclosed@, count as nat);
            assert forall|i: int| 0 <= i < entries.len() implies is_kept_path(
                (#[trigger] entries@[i]).path@,
            ) by {
                assert(unpacked_view(entries@)[i] == entries@[i]@);
            }
        }
    }
    r
}

proof fn lemma_kept_paths(bytes: Seq<u8>, enclosed: Seq<bool>, count: nat)
    requires
        count <= MAX_ARCHIVE_ENTRIES,
        unpacked_first(bytes, enclosed, count) is Ok,
        forall|k: int|
            0 <= k < enclosed.len() ==> answer_fits(
                zip_entry(bytes, k as usize),
                #[trigger] enclosed[k],
            ),
    ensures
        unpacked_first(bytes, enclosed, count)->Ok_0.1.len() == count,
        forall|i: int|
            0 <= i < count ==> is_kept_path(
                (#[trigger] unpacked_first(bytes, enclosed, count)->Ok_0.1[i]).path,
            ),
    decreases count,
{
    if count > 0 {
        lemma_kept_paths(bytes, enclosed, (count - 1) as nat);
        assert(stays_inside(enclosed, count - 1));
        assert(answer_fits(zip_entry(bytes, (count - 1) as usize), enclosed[count - 1]));
    }
}

} // verus!
