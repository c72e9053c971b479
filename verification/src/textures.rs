//! The thumbnails that are held in memory, the least recently used leaving
//! first.
use vstd::prelude::*;

use crate::text::{contains_item, list_view, remove_text, same, without_text};
use crate::thumbnails::{TEXTURE_CACHE_BYTES, TEXTURE_CACHE_ENTRIES};

verus! {

/// Outside type: `lru::LruCache`.
#[verifier::external_type_specification]
#[verifier::external_body]
#[verifier::reject_recursive_types(K)]
#[verifier::reject_recursive_types(V)]
#[verifier::reject_recursive_types(S)]
pub struct ExLruCache<K, V, S>(lru::LruCache<K, V, S>);

/// Outside type: `lru::DefaultHasher`.
#[verifier::external_type_specification]
#[verifier::external_body]
pub struct ExDefaultHasher(lru::DefaultHasher);

/// Name: what a cache holds, from the least to the most recently used entry.
pub uninterp spec fn held_entries(cache: lru::LruCache<String, usize>) -> Seq<(Seq<char>, usize)>;

/// Name: how many entries a cache was made for.
pub uninterp spec fn held_limit(cache: lru::LruCache<String, usize>) -> nat;

/// What entries give for a key.
pub open spec fn entry_in(entries: Seq<(Seq<char>, usize)>, key: Seq<char>) -> Option<usize>
    decreases entries.len(),
{
    if entries.len() == 0 {
        None
    } else if entries.last().0 == key {
        Some(entries.last().1)
    } else {
        entry_in(entries.drop_last(), key)
    }
}

/// The entries without those of a key.
pub open spec fn without_entry(entries: Seq<(Seq<char>, usize)>, key: Seq<char>) -> Seq<
    (Seq<char>, usize),
>
    decreases entries.len(),
{
    if entries.len() == 0 {
        Seq::empty()
    } else if entries.last().0 == key {
        without_entry(entries.drop_last(), key)
    } else {
        without_entry(entries.drop_last(), key).push(entries.last())
    }
}

/// The entries after one more was put in. Where the key is new and there is no
/// room, the least recently used entry leaves.
pub open spec fn with_entry(
    entries: Seq<(Seq<char>, usize)>,
    limit: nat,
    key: Seq<char>,
    value: usize,
) -> Seq<(Seq<char>, usize)> {
    if entry_in(entries, key) is Some {
        without_entry(entries, key).push((key, value))
    } else if entries.len() == limit {
        entries.drop_first().push((key, value))
    } else {
        entries.push((key, value))
    }
}

/// The entries after a key was asked for.
pub open spec fn after_use(entries: Seq<(Seq<char>, usize)>, key: Seq<char>) -> Seq<
    (Seq<char>, usize),
> {
    match entry_in(entries, key) {
        Some(value) => without_entry(entries, key).push((key, value)),
        None => entries,
    }
}

/// Outside function: `lru::LruCache::new`, which makes an empty cache for at
/// most so many entries. It sets aside room for all of them at once.
#[verifier::external_body]
fn lru_new(limit: usize) -> (r: lru::LruCache<String, usize>)
    requires
        0 < limit <= 65_536,
    ensures
        held_entries(r) == Seq::<(Seq<char>, usize)>::empty(),
        held_limit(r) == limit,
{
    lru::LruCache::new(std::num::NonZeroUsize::new(limit).unwrap())
}

/// Outside function: `lru::LruCache::put`, which makes the entry the most
/// recently used one and gives back the value that the key had. An entry that
/// leaves for want of room is not given back.
#[verifier::external_body]
fn lru_put(cache: &mut lru::LruCache<String, usize>, key: String, value: usize) -> (r: Option<
    usize,
>)
    ensures
        r == entry_in(held_entries(*old(cache)), key@),
        held_entries(*final(cache)) == with_entry(
            held_entries(*old(cache)),
            held_limit(*old(cache)),
            key@,
            value,
        ),
        held_limit(*final(cache)) == held_limit(*old(cache)),
{
    cache.put(key, value)
}

/// Outside function: `lru::LruCache::get`, which gives the value of a key and
/// makes its entry the most recently used one.
#[verifier::external_body]
fn lru_get(cache: &mut lru::LruCache<String, usize>, key: &str) -> (r: Option<usize>)
    ensures
        r == entry_in(held_entries(*old(cache)), key@),
        held_entries(*final(cache)) == after_use(held_entries(*old(cache)), key@),
        held_limit(*final(cache)) == held_limit(*old(cache)),
{
    cache.get(key).copied()
}

/// Outside function: `lru::LruCache::contains`, which says whether there is an
/// entry for a key and leaves the order as it is.
#[verifier::external_body]
fn lru_contains(cache: &lru::LruCache<String, usize>, key: &str) -> (r: bool)
    ensures
        r == (entry_in(held_entries(*cache), key@) is Some),
{
    cache.contains(key)
}

/// Outside function: `lru::LruCache::pop_lru`, which takes the least recently
/// used entry out.
#[verifier::external_body]
fn lru_pop(cache: &mut lru::LruCache<String, usize>) -> (r: Option<(String, usize)>)
    ensures
        match r {
            Some((key, value)) => held_entries(*old(cache)).len() > 0 && held_entries(
                *old(cache),
            )[0] == (key@, value) && held_entries(*final(cache)) == held_entries(
                *old(cache),
            ).drop_first(),
            None => held_entries(*old(cache)).len() == 0 && held_entries(*final(cache))
                == held_entries(*old(cache)),
        },
        held_limit(*final(cache)) == held_limit(*old(cache)),
{
    cache.pop_lru()
}

/// Outside function: `lru::LruCache::clear`, which takes all entries out.
#[verifier::external_body]
fn lru_clear(cache: &mut lru::LruCache<String, usize>)
    ensures
        held_entries(*final(cache)) == Seq::<(Seq<char>, usize)>::empty(),
        held_limit(*final(cache)) == held_limit(*old(cache)),
{
    cache.clear()
}

// ---------------------------------------------------------------------------
// The cache
// ---------------------------------------------------------------------------

/// The thumbnails in memory, by how many bytes each takes, and those that are
/// being made.
pub struct TextureCache {
    entries: lru::LruCache<String, usize>,
    loading: Vec<String>,
    bytes: usize,
    directory: String,
}

/// The model of the thumbnails in memory.
pub struct TexturesV {
    pub entries: Seq<(Seq<char>, usize)>,
    pub limit: nat,
    pub loading: Seq<Seq<char>>,
    pub bytes: usize,
    pub directory: Seq<char>,
}

impl View for TextureCache {
    type V = TexturesV;

    closed spec fn view(&self) -> TexturesV {
        TexturesV {
            entries: held_entries(self.entries),
            limit: held_limit(self.entries),
            loading: list_view(self.loading@),
            bytes: self.bytes,
            directory: self.directory@,
        }
    }
}

/// The first number less the second, and no less than zero.
pub open spec fn less(a: usize, b: usize) -> usize {
    if a < b {
        0
    } else {
        (a - b) as usize
    }
}

/// The sum of two numbers, as far as it can be held.
pub open spec fn more(a: usize, b: usize) -> usize {
    if a + b > usize::MAX {
        usize::MAX
    } else {
        (a + b) as usize
    }
}

/// What stays where entries leave until the bytes are within the limit.
pub open spec fn trimmed_entries(entries: Seq<(Seq<char>, usize)>, bytes: usize) -> (
    Seq<(Seq<char>, usize)>,
    usize,
)
    decreases entries.len(),
{
    if bytes > TEXTURE_CACHE_BYTES && entries.len() > 0 {
        trimmed_entries(entries.drop_first(), less(bytes, entries[0].1))
    } else {
        (entries, bytes)
    }
}

/// The cache after a thumbnail was made.
pub open spec fn stored_texture(cache: TexturesV, key: Seq<char>, bytes: usize) -> TexturesV {
    let before = match entry_in(cache.entries, key) {
        Some(previous) => less(cache.bytes, previous),
        None => cache.bytes,
    };
    let kept = trimmed_entries(
        with_entry(cache.entries, cache.limit, key, bytes),
        more(before, bytes),
    );
    TexturesV {
        entries: kept.0,
        bytes: kept.1,
        loading: without_text(cache.loading, key),
        ..cache
    }
}

/// What to do for a thumbnail that is to be shown.
#[derive(Clone, Copy, Debug, PartialEq, Eq, Structural)]
pub enum TextureStep {
    /// It is in memory.
    Show,
    /// It has to be made.
    Make,
    /// It is being made.
    Wait,
}

/// What to do for a thumbnail, and the cache afterwards.
pub open spec fn asked_texture(cache: TexturesV, key: Seq<char>) -> (TextureStep, TexturesV) {
    if entry_in(cache.entries, key) is Some {
        (TextureStep::Show, TexturesV { entries: after_use(cache.entries, key), ..cache })
    } else if cache.loading.contains(key) {
        (TextureStep::Wait, cache)
    } else {
        (TextureStep::Make, TexturesV { loading: cache.loading.push(key), ..cache })
    }
}

/// The empty cache for a data directory.
pub open spec fn empty_textures(directory: Seq<char>) -> TexturesV {
    TexturesV {
        entries: Seq::empty(),
        limit: TEXTURE_CACHE_ENTRIES as nat,
        loading: Seq::empty(),
        bytes: 0,
        directory,
    }
}

/// The cache once the data lie in a directory.
pub open spec fn textures_in(cache: TexturesV, directory: Seq<char>) -> TexturesV {
    if cache.directory == directory {
        cache
    } else {
        TexturesV {
            entries: Seq::empty(),
            loading: Seq::empty(),
            bytes: 0,
            directory,
            ..cache
        }
    }
}

impl TextureCache {
    /// The empty cache.
    pub fn new(directory: String) -> (r: TextureCache)
        ensures
            r@ == empty_textures(directory@),
    {
        let r = TextureCache {
            entries: lru_new(TEXTURE_CACHE_ENTRIES),
            loading: Vec::new(),
            bytes: 0,
            directory,
        };
        assert(r@.loading =~= Seq::<Seq<char>>::empty());
        r
    }

    /// Whether a thumbnail is in memory.
    pub fn holds(&self, key: &str) -> (r: bool)
        ensures
            r == (entry_in(self@.entries, key@) is Some),
    {
        lru_contains(&self.entries, key)
    }

    /// Asks for a thumbnail that is to be shown.
    pub fn ask(&mut self, key: &str) -> (r: TextureStep)
        ensures
            (r, final(self)@) == asked_texture(old(self)@, key@),
    {
        if lru_get(&mut self.entries, key).is_some() {
            return TextureStep::Show;
        }
        if contains_item(&self.loading, key) {
            return TextureStep::Wait;
        }
        let ghost before = self.loading@;
        self.loading.push(key.to_string());
        assert(list_view(self.loading@) =~= list_view(before).push(key@));
        TextureStep::Make
    }

    /// Notes that a thumbnail could not be made.
    pub fn fail(&mut self, key: &str)
        ensures
            final(self)@ == (TexturesV {
                loading: without_text(old(self)@.loading, key@),
                ..old(self)@
            }),
    {
        self.loading = remove_text(&self.loading, key);
    }

    /// Takes a thumbnail in that was made.
    pub fn store(&mut self, key: String, bytes: usize)
        ensures
            final(self)@ == stored_texture(old(self)@, key@, bytes),
    {
        self.loading = remove_text(&self.loading, key.as_str());
        if let Some(previous) = lru_put(&mut self.entries, key, bytes) {
            self.bytes = self.bytes.saturating_sub(previous);
        }
        self.bytes = self.bytes.saturating_add(bytes);
        let ghost entries = held_entries(self.entries);
        let ghost counted = self.bytes;
        let ghost loading = self.loading@;
        let ghost directory = self.directory@;
        while self.bytes > TEXTURE_CACHE_BYTES
            invariant_except_break
                trimmed_entries(held_entries(self.entries), self.bytes) == trimmed_entries(
                    entries,
                    counted,
                ),
            invariant
                held_limit(self.entries) == old(self)@.limit,
                self.loading@ == loading,
                self.directory@ == directory,
            ensures
                (held_entries(self.entries), self.bytes) == trimmed_entries(entries, counted),
            decreases held_entries(self.entries).len(),
        {
            match lru_pop(&mut self.entries) {
                Some((_, evicted)) => {
                    self.bytes = self.bytes.saturating_sub(evicted);
                },
                None => {
                    break;
                },
            }
        }
    }

    /// Notes where the data lie. Where that changed, all thumbnails leave.
    pub fn move_to(&mut self, directory: &str)
        ensures
            final(self)@ == textures_in(old(self)@, directory@),
    {
        if same(self.directory.as_str(), directory) {
            return ;
        }
        self.directory = directory.to_string();
        lru_clear(&mut self.entries);
        self.loading = Vec::new();
        self.bytes = 0;
        assert(self@.loading =~= Seq::<Seq<char>>::empty());
    }
}

// ---------------------------------------------------------------------------
// Laws
// ---------------------------------------------------------------------------

/// How many bytes entries take.
pub open spec fn total_bytes(entries: Seq<(Seq<char>, usize)>) -> nat
    decreases entries.len(),
{
    if entries.len() == 0 {
        0
    } else {
        total_bytes(entries.drop_last()) + entries.last().1 as nat
    }
}

proof fn lemma_total_drop_first(entries: Seq<(Seq<char>, usize)>)
    requires
        entries.len() > 0,
    ensures
        total_bytes(entries) == entries[0].1 + total_bytes(entries.drop_first()),
    decreases entries.len(),
{
    if entries.len() == 1 {
        assert(total_bytes(entries.drop_last()) == 0);
        assert(total_bytes(entries.drop_first()) == 0);
    } else {
        lemma_total_drop_first(entries.drop_last());
        assert(entries.drop_last().drop_first() =~= entries.drop_first().drop_last());
        assert(entries.drop_first().last() == entries.last());
    }
}

proof fn lemma_total_without(entries: Seq<(Seq<char>, usize)>, key: Seq<char>)
    ensures
        total_bytes(without_entry(entries, key)) + (match entry_in(entries, key) {
            Some(value) => value as nat,
            None => 0,
        }) <= total_bytes(entries),
        without_entry(entries, key).len() <= entries.len(),
        entry_in(entries, key) is Some ==> without_entry(entries, key).len() < entries.len(),
    decreases entries.len(),
{
    if entries.len() > 0 {
        lemma_total_without(entries.drop_last(), key);
        let rest = without_entry(entries.drop_last(), key);
        assert(rest.push(entries.last()).drop_last() =~= rest);
    }
}

proof fn lemma_trimmed(entries: Seq<(Seq<char>, usize)>, bytes: usize)
    requires
        total_bytes(entries) <= bytes,
    ensures
        total_bytes(trimmed_entries(entries, bytes).0) <= trimmed_entries(entries, bytes).1,
        trimmed_entries(entries, bytes).1 <= TEXTURE_CACHE_BYTES || trimmed_entries(
            entries,
            bytes,
        ).0.len() == 0,
        trimmed_entries(entries, bytes).0.len() <= entries.len(),
    decreases entries.len(),
{
    if bytes > TEXTURE_CACHE_BYTES && entries.len() > 0 {
        lemma_total_drop_first(entries);
        lemma_trimmed(entries.drop_first(), less(bytes, entries[0].1));
    }
}

/// The cache keeps to its limits: it holds no more entries than it was made
/// for, and counts no fewer bytes than they take.
pub open spec fn keeps_limits(cache: TexturesV) -> bool {
    &&& cache.entries.len() <= cache.limit
    &&& cache.limit > 0
    &&& total_bytes(cache.entries) <= cache.bytes
    &&& cache.bytes <= TEXTURE_CACHE_BYTES || cache.entries.len() == 0
}

/// A cache that keeps to its limits keeps to them whatever thumbnail it takes
/// in, and the thumbnails in memory never take more than the limit. A thumbnail
/// so large that the bytes could not be counted is left out.
pub proof fn textures_stay_within_limits(cache: TexturesV, key: Seq<char>, bytes: usize)
    requires
        keeps_limits(cache),
        TEXTURE_CACHE_BYTES + bytes <= usize::MAX,
    ensures
        keeps_limits(stored_texture(cache, key, bytes)),
        total_bytes(stored_texture(cache, key, bytes).entries) <= TEXTURE_CACHE_BYTES,
{
    let before = match entry_in(cache.entries, key) {
        Some(previous) => less(cache.bytes, previous),
        None => cache.bytes,
    };
    let entries = with_entry(cache.entries, cache.limit, key, bytes);
    assert(entries.last() == (key, bytes));
    lemma_total_without(cache.entries, key);
    if entry_in(cache.entries, key) is Some {
        assert(entries.drop_last() =~= without_entry(cache.entries, key));
    } else if cache.entries.len() == cache.limit {
        lemma_total_drop_first(cache.entries);
        assert(entries.drop_last() =~= cache.entries.drop_first());
    } else {
        assert(entries.drop_last() =~= cache.entries);
    }
    lemma_trimmed(entries, more(before, bytes));
}

/// The empty cache keeps to its limits, and so does one that has moved.
pub proof fn moved_textures_keep_limits(cache: TexturesV, directory: Seq<char>)
    requires
        keeps_limits(cache),
    ensures
        keeps_limits(empty_textures(directory)),
        keeps_limits(textures_in(cache, directory)),
{
}

/// A cache that was asked for a thumbnail keeps to its limits, and a thumbnail
/// that is being made is not made again.
pub proof fn thumbnail_is_made_once(cache: TexturesV, key: Seq<char>)
    requires
        keeps_limits(cache),
    ensures
        keeps_limits(asked_texture(cache, key).1),
        asked_texture(cache, key).0 == TextureStep::Make ==> asked_texture(
            asked_texture(cache, key).1,
            key,
        ).0 == TextureStep::Wait,
{
    lemma_total_without(cache.entries, key);
    if let Some(value) = entry_in(cache.entries, key) {
        let rest = without_entry(cache.entries, key);
        assert(rest.push((key, value)).drop_last() =~= rest);
    } else {
        let asked = asked_texture(cache, key).1;
        if asked_texture(cache, key).0 == TextureStep::Make {
            assert(asked.loading.last() == key);
        }
    }
}

} // verus!
