//! A cache for one document, with a memory tier and a file tier that are
//! accounted for apart.

use crate::http::error::{HttpError, HttpErrorView};
use crate::keyed::KeyedList;
use crate::text::{byte_len, has_control};
use vstd::prelude::*;

verus! {

/// Most bytes that a cache may hold in memory.
pub const HARD_MAX_MEMORY_BYTES: usize = 67_108_864;

/// Most bytes that a cache may hold in files.
pub const HARD_MAX_FILE_BYTES: usize = 536_870_912;

/// Most bytes of one value.
pub const HARD_MAX_ENTRY_BYTES: usize = 67_108_864;

/// Most values.
pub const HARD_MAX_ENTRIES: usize = 1_024;

/// Most bytes of a key.
pub const HARD_MAX_KEY_BYTES: usize = 512;

/// The quotas of a cache.
#[derive(Clone, Copy, Debug, PartialEq, Eq, Structural)]
pub struct DocumentCacheLimits {
    pub memory_bytes: usize,
    pub file_bytes: usize,
    /// For one value, in either tier.
    pub entry_bytes: usize,
    pub entries: usize,
}

impl Default for DocumentCacheLimits {
    fn default() -> (limits: DocumentCacheLimits)
        ensures
            limits == (DocumentCacheLimits {
                memory_bytes: 8_388_608,
                file_bytes: 67_108_864,
                entry_bytes: 16_777_216,
                entries: 256,
            }),
            limits.error() is None,
    {
        DocumentCacheLimits {
            memory_bytes: 8_388_608,
            file_bytes: 67_108_864,
            entry_bytes: 16_777_216,
            entries: 256,
        }
    }
}

impl DocumentCacheLimits {
    /// The first quota that a cache may not have.
    pub open spec fn error(self) -> Option<HttpErrorView> {
        if self.memory_bytes > HARD_MAX_MEMORY_BYTES {
            Some(
                HttpErrorView::CacheQuotaExceeded {
                    quota: "memory"@,
                    limit: HARD_MAX_MEMORY_BYTES,
                },
            )
        } else if self.file_bytes > HARD_MAX_FILE_BYTES {
            Some(
                HttpErrorView::CacheQuotaExceeded { quota: "file"@, limit: HARD_MAX_FILE_BYTES },
            )
        } else if self.entry_bytes == 0 || self.entry_bytes > HARD_MAX_ENTRY_BYTES {
            Some(
                HttpErrorView::CacheQuotaExceeded {
                    quota: "single-entry"@,
                    limit: HARD_MAX_ENTRY_BYTES,
                },
            )
        } else if self.entries == 0 || self.entries > HARD_MAX_ENTRIES {
            Some(
                HttpErrorView::CacheQuotaExceeded {
                    quota: "entry-count"@,
                    limit: HARD_MAX_ENTRIES,
                },
            )
        } else if self.memory_bytes == 0 && self.file_bytes == 0 {
            Some(HttpErrorView::Cache("at least one cache tier must be enabled"@))
        } else {
            None
        }
    }

    /// Checks the quotas.
    pub fn validate(self) -> (checked: Result<DocumentCacheLimits, HttpError>)
        ensures
            match self.error() {
                Some(error) => crate::http::error::fails_with(checked, error),
                None => checked == Ok::<DocumentCacheLimits, HttpError>(self),
            },
    {
        if self.memory_bytes > HARD_MAX_MEMORY_BYTES {
            return Err(
                HttpError::CacheQuotaExceeded { quota: "memory", limit: HARD_MAX_MEMORY_BYTES },
            );
        }
        if self.file_bytes > HARD_MAX_FILE_BYTES {
            return Err(HttpError::CacheQuotaExceeded { quota: "file", limit: HARD_MAX_FILE_BYTES });
        }
        if self.entry_bytes == 0 || self.entry_bytes > HARD_MAX_ENTRY_BYTES {
            return Err(
                HttpError::CacheQuotaExceeded {
                    quota: "single-entry",
                    limit: HARD_MAX_ENTRY_BYTES,
                },
            );
        }
        if self.entries == 0 || self.entries > HARD_MAX_ENTRIES {
            return Err(
                HttpError::CacheQuotaExceeded { quota: "entry-count", limit: HARD_MAX_ENTRIES },
            );
        }
        if self.memory_bytes == 0 && self.file_bytes == 0 {
            return Err(HttpError::Cache("at least one cache tier must be enabled".to_owned()));
        }
        Ok(self)
    }
}

/// How much of a cache is in use.
#[derive(Clone, Copy, Debug, PartialEq, Eq, Structural)]
pub struct DocumentCacheUsage {
    pub entries: usize,
    pub memory_bytes: usize,
    pub file_bytes: usize,
}

impl Default for DocumentCacheUsage {
    fn default() -> (usage: DocumentCacheUsage)
        ensures
            usage == (DocumentCacheUsage { entries: 0, memory_bytes: 0, file_bytes: 0 }),
    {
        DocumentCacheUsage { entries: 0, memory_bytes: 0, file_bytes: 0 }
    }
}

/// A value in the cache. `F` owns a file; dropping it removes the file.
#[derive(Debug)]
pub enum StoredEntry<F> {
    Memory(Vec<u8>),
    File { file: F, len: usize },
}

impl<F> StoredEntry<F> {
    /// How many bytes the value has.
    pub open spec fn size(&self) -> usize {
        match *self {
            StoredEntry::Memory(bytes) => bytes@.len() as usize,
            StoredEntry::File { len, .. } => len,
        }
    }

    /// How many of them count against the memory quota.
    pub open spec fn memory_size(&self) -> int {
        match *self {
            StoredEntry::Memory(bytes) => bytes@.len() as int,
            StoredEntry::File { .. } => 0,
        }
    }

    /// How many of them count against the file quota.
    pub open spec fn file_size(&self) -> int {
        match *self {
            StoredEntry::Memory(_) => 0,
            StoredEntry::File { len, .. } => len as int,
        }
    }

    fn len(&self) -> (len: usize)
        ensures
            len == self.memory_size() + self.file_size(),
    {
        match self {
            StoredEntry::Memory(bytes) => bytes.len(),
            StoredEntry::File { len, .. } => *len,
        }
    }

    fn is_memory(&self) -> (memory: bool)
        ensures
            memory == (*self is Memory),
            memory ==> self.file_size() == 0,
            !memory ==> self.memory_size() == 0,
    {
        match self {
            StoredEntry::Memory(_) => true,
            StoredEntry::File { .. } => false,
        }
    }
}

/// What a lookup finds.
#[derive(Clone, Debug)]
pub enum DocumentCacheEntry<'a, F> {
    /// The bytes.
    Memory(&'a Vec<u8>),
    /// The file, valid until the key is removed or the cache is purged.
    File { file: &'a F, len: usize },
}

impl<'a, F> DocumentCacheEntry<'a, F> {
    /// The entry is this stored value.
    pub open spec fn shows(&self, stored: StoredEntry<F>) -> bool {
        match (*self, stored) {
            (DocumentCacheEntry::Memory(bytes), StoredEntry::Memory(stored)) => *bytes == stored,
            (
                DocumentCacheEntry::File { file, len },
                StoredEntry::File { file: stored, len: stored_len },
            ) => *file == stored && len == stored_len,
            _ => false,
        }
    }

    /// How many bytes the value has.
    pub fn len(&self) -> (len: usize)
        ensures
            len == match *self {
                DocumentCacheEntry::Memory(bytes) => bytes@.len(),
                DocumentCacheEntry::File { len, .. } => len as nat,
            },
    {
        match self {
            DocumentCacheEntry::Memory(bytes) => bytes.len(),
            DocumentCacheEntry::File { len, .. } => *len,
        }
    }

    /// Whether the value has no byte.
    pub fn is_empty(&self) -> (empty: bool)
        ensures
            empty == match *self {
                DocumentCacheEntry::Memory(bytes) => bytes@.len() == 0,
                DocumentCacheEntry::File { len, .. } => len == 0,
            },
    {
        self.len() == 0
    }
}

/// The memory bytes of a list of entries.
pub open spec fn memory_total<F>(entries: Seq<(String, StoredEntry<F>)>) -> int
    decreases entries.len(),
{
    if entries.len() == 0 {
        0
    } else {
        memory_total(entries.drop_last()) + entries.last().1.memory_size()
    }
}

/// The file bytes of a list of entries.
pub open spec fn file_total<F>(entries: Seq<(String, StoredEntry<F>)>) -> int
    decreases entries.len(),
{
    if entries.len() == 0 {
        0
    } else {
        file_total(entries.drop_last()) + entries.last().1.file_size()
    }
}

proof fn lemma_totals_after_remove<F>(entries: Seq<(String, StoredEntry<F>)>, at: int)
    requires
        0 <= at < entries.len(),
    ensures
        memory_total(entries.remove(at)) == memory_total(entries) - entries[at].1.memory_size(),
        file_total(entries.remove(at)) == file_total(entries) - entries[at].1.file_size(),
    decreases entries.len(),
{
    let last = entries.len() - 1;
    if at == last {
        assert(entries.remove(at) =~= entries.drop_last());
    } else {
        lemma_totals_after_remove(entries.drop_last(), at);
        assert(entries.remove(at).drop_last() =~= entries.drop_last().remove(at));
        assert(entries.remove(at).last() == entries.last());
    }
}

proof fn lemma_totals_after_push<F>(
    entries: Seq<(String, StoredEntry<F>)>,
    entry: (String, StoredEntry<F>),
)
    ensures
        memory_total(entries.push(entry)) == memory_total(entries) + entry.1.memory_size(),
        file_total(entries.push(entry)) == file_total(entries) + entry.1.file_size(),
{
    assert(entries.push(entry).drop_last() =~= entries);
}

proof fn lemma_totals_cover<F>(entries: Seq<(String, StoredEntry<F>)>, at: int)
    requires
        0 <= at < entries.len(),
    ensures
        0 <= entries[at].1.memory_size() <= memory_total(entries),
        0 <= entries[at].1.file_size() <= file_total(entries),
    decreases entries.len(),
{
    lemma_totals_positive(entries.drop_last());
    if at < entries.len() - 1 {
        lemma_totals_cover(entries.drop_last(), at);
    }
}

proof fn lemma_totals_positive<F>(entries: Seq<(String, StoredEntry<F>)>)
    ensures
        0 <= memory_total(entries),
        0 <= file_total(entries),
    decreases entries.len(),
{
    if entries.len() > 0 {
        lemma_totals_positive(entries.drop_last());
    }
}

/// What is wrong with a cache key.
pub open spec fn key_error(key: Seq<char>) -> Option<HttpErrorView> {
    if key.len() == 0 || crate::text::utf8_len(key) > HARD_MAX_KEY_BYTES
        || crate::text::holds_control(key) {
        Some(HttpErrorView::Cache("cache key must contain 1..=512 non-control bytes"@))
    } else {
        None
    }
}

/// Checks a cache key.
pub fn validate_cache_key(key: &str) -> (checked: Result<(), HttpError>)
    ensures
        match key_error(key@) {
            Some(error) => crate::http::error::fails_with(checked, error),
            None => checked is Ok,
        },
{
    if key.is_empty() || byte_len(key) > HARD_MAX_KEY_BYTES || has_control(key) {
        return Err(
            HttpError::Cache("cache key must contain 1..=512 non-control bytes".to_owned()),
        );
    }
    Ok(())
}

/// The cache of one document. Its owner drops or purges it with the document.
#[derive(Debug)]
pub struct DocumentCache<F> {
    limits: DocumentCacheLimits,
    entries: KeyedList<String, StoredEntry<F>>,
    memory_bytes: usize,
    file_bytes: usize,
}

/// A value that is being streamed into a file and is not in the cache yet.
#[derive(Debug)]
pub struct FileInsert {
    pub key: String,
    pub len: usize,
}

impl<F> DocumentCache<F> {
    /// The values by key.
    pub closed spec fn contents(&self) -> Map<Seq<char>, StoredEntry<F>> {
        self.entries@
    }

    /// The quotas.
    pub closed spec fn spec_limits(&self) -> DocumentCacheLimits {
        self.limits
    }

    /// The memory bytes in use.
    pub closed spec fn memory_used(&self) -> int {
        self.memory_bytes as int
    }

    /// The file bytes in use.
    pub closed spec fn file_used(&self) -> int {
        self.file_bytes as int
    }

    /// The accounts agree with the values, and no quota is exceeded.
    pub closed spec fn wf(&self) -> bool {
        &&& self.entries.wf()
        &&& self.limits.error() is None
        &&& self.memory_bytes == memory_total(self.entries.entries@)
        &&& self.file_bytes == file_total(self.entries.entries@)
        &&& self.memory_bytes <= self.limits.memory_bytes
        &&& self.file_bytes <= self.limits.file_bytes
        &&& self.entries.entries@.len() <= self.limits.entries
        &&& forall|i: int|
            0 <= i < self.entries.entries@.len() ==> (#[trigger] self.entries.entries@[i]).1.size()
                <= self.limits.entry_bytes
    }

    /// The memory bytes under a key.
    pub open spec fn memory_at(&self, key: Seq<char>) -> int {
        if self.contents().contains_key(key) {
            self.contents()[key].memory_size()
        } else {
            0
        }
    }

    /// The file bytes under a key.
    pub open spec fn file_at(&self, key: Seq<char>) -> int {
        if self.contents().contains_key(key) {
            self.contents()[key].file_size()
        } else {
            0
        }
    }

    /// Why a value cannot take the place under a key: the number of values, the
    /// memory quota and the file quota are checked in this order.
    pub open spec fn replacement_error(
        &self,
        key: Seq<char>,
        memory: int,
        file: int,
    ) -> Option<HttpErrorView> {
        let more = if self.contents().contains_key(key) {
            0int
        } else {
            1
        };
        if self.contents().dom().len() + more > self.spec_limits().entries {
            Some(
                HttpErrorView::CacheQuotaExceeded {
                    quota: "entry-count"@,
                    limit: self.spec_limits().entries,
                },
            )
        } else if self.memory_used() - self.memory_at(key) + memory
            > self.spec_limits().memory_bytes {
            Some(
                HttpErrorView::CacheQuotaExceeded {
                    quota: "memory"@,
                    limit: self.spec_limits().memory_bytes,
                },
            )
        } else if self.file_used() - self.file_at(key) + file > self.spec_limits().file_bytes {
            Some(
                HttpErrorView::CacheQuotaExceeded {
                    quota: "file"@,
                    limit: self.spec_limits().file_bytes,
                },
            )
        } else {
            None
        }
    }

    /// Why a value is too long on its own.
    pub open spec fn length_error(&self, len: int) -> Option<HttpErrorView> {
        if len > self.spec_limits().entry_bytes {
            Some(
                HttpErrorView::CacheQuotaExceeded {
                    quota: "single-entry"@,
                    limit: self.spec_limits().entry_bytes,
                },
            )
        } else {
            None
        }
    }

    /// The key holds a new value and everything else is as it was.
    pub open spec fn stored(self, before: Self, key: Seq<char>, entry: StoredEntry<F>) -> bool {
        &&& self.contents() == before.contents().insert(key, entry)
        &&& self.memory_used() == before.memory_used() - before.memory_at(key)
            + entry.memory_size()
        &&& self.file_used() == before.file_used() - before.file_at(key) + entry.file_size()
        &&& self.spec_limits() == before.spec_limits()
    }

    /// An empty cache.
    pub fn new(limits: DocumentCacheLimits) -> (cache: Result<Self, HttpError>)
        ensures
            match limits.error() {
                Some(error) => crate::http::error::fails_with(cache, error),
                None => cache matches Ok(cache) && {
                    &&& cache.wf()
                    &&& cache.spec_limits() == limits
                    &&& cache.contents() == Map::<Seq<char>, StoredEntry<F>>::empty()
                    &&& cache.memory_used() == 0
                    &&& cache.file_used() == 0
                },
            },
    {
        match limits.validate() {
            Ok(limits) => Ok(
                DocumentCache {
                    limits,
                    entries: KeyedList::new(),
                    memory_bytes: 0,
                    file_bytes: 0,
                },
            ),
            Err(error) => Err(error),
        }
    }

    /// The value under a key.
    pub fn get(&self, key: &str) -> (found: Option<DocumentCacheEntry<'_, F>>)
        requires
            self.wf(),
        ensures
            match found {
                Some(entry) => self.contents().contains_key(key@) && entry.shows(
                    self.contents()[key@],
                ),
                None => !self.contents().contains_key(key@),
            },
    {
        match self.entries.get(&key.to_owned()) {
            Some(StoredEntry::Memory(bytes)) => Some(DocumentCacheEntry::Memory(bytes)),
            Some(StoredEntry::File { file, len }) => Some(
                DocumentCacheEntry::File { file, len: *len },
            ),
            None => None,
        }
    }

    fn validate_entry_len(&self, len: usize) -> (checked: Result<(), HttpError>)
        ensures
            match self.length_error(len as int) {
                Some(error) => crate::http::error::fails_with(checked, error),
                None => checked is Ok,
            },
    {
        if len > self.limits.entry_bytes {
            return Err(
                HttpError::CacheQuotaExceeded {
                    quota: "single-entry",
                    limit: self.limits.entry_bytes,
                },
            );
        }
        Ok(())
    }

    fn validate_replacement_quota(&self, key: &String, replacement: &StoredEntry<F>) -> (checked:
        Result<(), HttpError>)
        requires
            self.wf(),
            replacement.memory_size() + replacement.file_size() <= self.spec_limits().entry_bytes,
        ensures
            match self.replacement_error(
                key@,
                replacement.memory_size(),
                replacement.file_size(),
            ) {
                Some(error) => crate::http::error::fails_with(checked, error),
                None => checked is Ok,
            },
    {
        let existing = self.entries.position(key);
        let more: usize = match existing {
            Some(_) => 0,
            None => 1,
        };
        if self.entries.len() + more > self.limits.entries {
            return Err(
                HttpError::CacheQuotaExceeded { quota: "entry-count", limit: self.limits.entries },
            );
        }
        let (old_memory, old_file): (usize, usize) = match existing {
            Some(at) => {
                let entry = &self.entries.entries[at].1;
                proof {
                    lemma_totals_cover(self.entries.entries@, at as int);
                }
                if entry.is_memory() {
                    (entry.len(), 0)
                } else {
                    (0, entry.len())
                }
            },
            None => (0, 0),
        };
        let (new_memory, new_file): (usize, usize) = if replacement.is_memory() {
            (replacement.len(), 0)
        } else {
            (0, replacement.len())
        };
        if self.memory_bytes - old_memory + new_memory > self.limits.memory_bytes {
            return Err(
                HttpError::CacheQuotaExceeded { quota: "memory", limit: self.limits.memory_bytes },
            );
        }
        if self.file_bytes - old_file + new_file > self.limits.file_bytes {
            return Err(
                HttpError::CacheQuotaExceeded { quota: "file", limit: self.limits.file_bytes },
            );
        }
        Ok(())
    }

    fn subtract_usage(&mut self, entry: &StoredEntry<F>)
        requires
            old(self).memory_used() >= entry.memory_size(),
            old(self).file_used() >= entry.file_size(),
        ensures
            final(self).memory_used() == old(self).memory_used() - entry.memory_size(),
            final(self).file_used() == old(self).file_used() - entry.file_size(),
            final(self).entries == old(self).entries,
            final(self).limits == old(self).limits,
    {
        if entry.is_memory() {
            self.memory_bytes = self.memory_bytes - entry.len();
        } else {
            self.file_bytes = self.file_bytes - entry.len();
        }
    }

    /// Takes the value under a key out and its bytes off the accounts.
    fn take(&mut self, key: &String) -> (taken: Option<StoredEntry<F>>)
        requires
            old(self).wf(),
        ensures
            final(self).wf(),
            final(self).contents() == old(self).contents().remove(key@),
            final(self).spec_limits() == old(self).spec_limits(),
            final(self).memory_used() == old(self).memory_used() - old(self).memory_at(key@),
            final(self).file_used() == old(self).file_used() - old(self).file_at(key@),
            match taken {
                Some(entry) => old(self).contents().contains_key(key@) && entry == old(self).contents()[key@],
                None => !old(self).contents().contains_key(key@),
            },
    {
        match self.entries.position(key) {
            Some(at) => {
                proof {
                    lemma_totals_cover(self.entries.entries@, at as int);
                    lemma_totals_after_remove(self.entries.entries@, at as int);
                    crate::keyed::lemma_remove(self.entries.entries@, at as int);
                }
                let (_, entry) = self.entries.entries.remove(at);
                self.subtract_usage(&entry);
                Some(entry)
            },
            None => {
                assert(self.contents() =~= self.contents().remove(key@));
                None
            },
        }
    }

    /// Puts a value under a key. The quotas leave room for it.
    fn replace_entry(&mut self, key: String, replacement: StoredEntry<F>) -> (previous: Option<
        StoredEntry<F>,
    >)
        requires
            old(self).wf(),
            replacement.memory_size() + replacement.file_size() <= old(self).spec_limits().entry_bytes,
            old(self).replacement_error(
                key@,
                replacement.memory_size(),
                replacement.file_size(),
            ) is None,
        ensures
            final(self).wf(),
            final(self).stored(*old(self), key@, replacement),
            match previous {
                Some(entry) => old(self).contents().contains_key(key@) && entry == old(self).contents()[key@],
                None => !old(self).contents().contains_key(key@),
            },
    {
        proof {
            crate::keyed::lemma_size(self.entries.entries@);
        }
        let ghost start = *self;
        let previous = self.take(&key);
        proof {
            crate::keyed::lemma_size(self.entries.entries@);
            assert(self.contents().dom() =~= start.contents().dom().remove(key@));
            lemma_totals_after_push(self.entries.entries@, (key, replacement));
            crate::keyed::lemma_push(self.entries.entries@, (key, replacement));
            assert(start.contents().remove(key@).insert(key@, replacement)
                =~= start.contents().insert(key@, replacement));
        }
        if replacement.is_memory() {
            self.memory_bytes = self.memory_bytes + replacement.len();
        } else {
            self.file_bytes = self.file_bytes + replacement.len();
        }
        self.entries.entries.push((key, replacement));
        previous
    }

    /// Stores bytes in memory under a key, in place of what was there.
    pub fn insert_memory(&mut self, key: &str, bytes: Vec<u8>) -> (outcome: Result<(), HttpError>)
        requires
            old(self).wf(),
        ensures
            final(self).wf(),
            ({
                let error = if key_error(key@) is Some {
                    key_error(key@)
                } else if old(self).length_error(bytes@.len() as int) is Some {
                    old(self).length_error(bytes@.len() as int)
                } else {
                    old(self).replacement_error(key@, bytes@.len() as int, 0)
                };
                match error {
                    Some(error) => {
                        &&& crate::http::error::fails_with(outcome, error)
                        &&& *final(self) == *old(self)
                    },
                    None => outcome is Ok && final(self).stored(
                        *old(self),
                        key@,
                        StoredEntry::Memory(bytes),
                    ),
                }
            }),
    {
        if let Err(error) = validate_cache_key(key) {
            return Err(error);
        }
        if let Err(error) = self.validate_entry_len(bytes.len()) {
            return Err(error);
        }
        let key = key.to_owned();
        let entry = StoredEntry::Memory(bytes);
        if let Err(error) = self.validate_replacement_quota(&key, &entry) {
            return Err(error);
        }
        let _ = self.replace_entry(key, entry);
        Ok(())
    }

    /// Begins to stream a value into a file.
    pub fn begin_file(&self, key: &str) -> (begun: Result<FileInsert, HttpError>)
        ensures
            match key_error(key@) {
                Some(error) => crate::http::error::fails_with(begun, error),
                None => begun matches Ok(begun) && begun.key@ == key@ && begun.len == 0,
            },
    {
        match validate_cache_key(key) {
            Ok(()) => Ok(FileInsert { key: key.to_owned(), len: 0 }),
            Err(error) => Err(error),
        }
    }

    /// Counts a piece of a streamed value before it is written.
    pub fn extend_file(&self, insert: &mut FileInsert, read: usize) -> (outcome: Result<
        (),
        HttpError,
    >)
        requires
            self.wf(),
        ensures
            final(insert).key == old(insert).key,
            match self.length_error(old(insert).len + read) {
                Some(error) => {
                    &&& crate::http::error::fails_with(outcome, error)
                    &&& final(insert).len == old(insert).len
                },
                None => outcome is Ok && final(insert).len == old(insert).len + read,
            },
    {
        let len: usize = match insert.len.checked_add(read) {
            Some(len) => len,
            None => {
                return Err(
                    HttpError::CacheQuotaExceeded {
                        quota: "single-entry",
                        limit: self.limits.entry_bytes,
                    },
                );
            },
        };
        if let Err(error) = self.validate_entry_len(len) {
            return Err(error);
        }
        insert.len = len;
        Ok(())
    }

    /// Makes a streamed value visible, in place of what was there. `cancelled`
    /// is what the caller's flag was seen to be when the stream had ended.
    pub fn finish_file(&mut self, insert: FileInsert, file: F, cancelled: bool) -> (outcome: Result<
        (),
        HttpError,
    >)
        requires
            old(self).wf(),
            insert.len <= old(self).spec_limits().entry_bytes,
        ensures
            final(self).wf(),
            ({
                let error = if cancelled {
                    Some(HttpErrorView::Cancelled)
                } else {
                    old(self).replacement_error(insert.key@, 0, insert.len as int)
                };
                match error {
                    Some(error) => {
                        &&& crate::http::error::fails_with(outcome, error)
                        &&& *final(self) == *old(self)
                    },
                    None => outcome is Ok && final(self).stored(
                        *old(self),
                        insert.key@,
                        StoredEntry::File { file, len: insert.len },
                    ),
                }
            }),
    {
        if cancelled {
            return Err(HttpError::Cancelled);
        }
        let entry = StoredEntry::File { file, len: insert.len };
        if let Err(error) = self.validate_replacement_quota(&insert.key, &entry) {
            return Err(error);
        }
        let _ = self.replace_entry(insert.key, entry);
        Ok(())
    }

    /// Removes the value under a key. Returns whether there was one.
    pub fn remove(&mut self, key: &str) -> (removed: bool)
        requires
            old(self).wf(),
        ensures
            final(self).wf(),
            removed == old(self).contents().contains_key(key@),
            final(self).contents() == old(self).contents().remove(key@),
            final(self).memory_used() == old(self).memory_used() - old(self).memory_at(key@),
            final(self).file_used() == old(self).file_used() - old(self).file_at(key@),
            final(self).spec_limits() == old(self).spec_limits(),
    {
        self.take(&key.to_owned()).is_some()
    }

    /// Removes every value.
    pub fn purge(&mut self)
        requires
            old(self).wf(),
        ensures
            final(self).wf(),
            final(self).contents() == Map::<Seq<char>, StoredEntry<F>>::empty(),
            final(self).memory_used() == 0,
            final(self).file_used() == 0,
            final(self).spec_limits() == old(self).spec_limits(),
    {
        self.entries.clear();
        self.memory_bytes = 0;
        self.file_bytes = 0;
        assert(self.entries.entries@.len() == 0) by {
            crate::keyed::lemma_size(self.entries.entries@);
            assert(self.entries@.dom() =~= Set::<Seq<char>>::empty());
        }
    }

    /// How much of the cache is in use.
    pub fn usage(&self) -> (usage: DocumentCacheUsage)
        requires
            self.wf(),
        ensures
            usage.entries == self.contents().dom().len(),
            usage.memory_bytes == self.memory_used(),
            usage.file_bytes == self.file_used(),
    {
        DocumentCacheUsage {
            entries: self.entries.len(),
            memory_bytes: self.memory_bytes,
            file_bytes: self.file_bytes,
        }
    }

    /// A cache never goes over a quota, in either tier, in the number of its
    /// values or in the size of one.
    pub proof fn law_quotas_hold(&self)
        requires
            self.wf(),
        ensures
            self.memory_used() <= self.spec_limits().memory_bytes,
            self.file_used() <= self.spec_limits().file_bytes,
            self.contents().dom().finite(),
            self.contents().dom().len() <= self.spec_limits().entries,
            forall|key: Seq<char>| #[trigger]
                self.contents().contains_key(key) ==> self.contents()[key].size()
                    <= self.spec_limits().entry_bytes,
    {
        crate::keyed::lemma_size(self.entries.entries@);
        assert forall|key: Seq<char>| #[trigger] self.contents().contains_key(key) implies
            self.contents()[key].size() <= self.spec_limits().entry_bytes by {
            let i = choose|i: int| crate::keyed::holds_at(self.entries.entries@, key, i);
            crate::keyed::lemma_entry(self.entries.entries@, i);
        }
    }
}

/// A cache may have quotas if and only if none is over its hard maximum, values may be
/// kept and have bytes, and one of the tiers has room.
pub proof fn law_quotas_are_accepted_up_to_the_hard_maxima(limits: DocumentCacheLimits)
    ensures
        limits.error() is None <==> {
            &&& limits.memory_bytes <= 0x400_0000
            &&& limits.file_bytes <= 0x2000_0000
            &&& 1 <= limits.entry_bytes <= 0x400_0000
            &&& 1 <= limits.entries <= 1_024
            &&& limits.memory_bytes > 0 || limits.file_bytes > 0
        },
{
}

/// A key can be used if and only if it has a character, takes no more than 512 bytes and
/// holds no control character.
pub proof fn law_keys_are_short_and_printed(key: Seq<char>)
    ensures
        key_error(key) is None <==> 0 < key.len() && crate::text::utf8_len(key) <= 512 && (forall|
            i: int,
        |
            0 <= i < key.len() ==> (#[trigger] key[i]) as u32 >= 0x20 && !(0x7f <= key[i] as u32
                <= 0x9f)),
{
    if !crate::text::holds_control(key) {
        assert forall|i: int| 0 <= i < key.len() implies (#[trigger] key[i]) as u32 >= 0x20 && !(
        0x7f <= key[i] as u32 <= 0x9f) by {
            assert(!crate::text::is_control(key[i]));
        }
    }
}

/// Bytes are taken into memory if and only if the key can be used, they are not too long on
/// their own, and with them in place of what was under the key no quota is exceeded. They
/// are what a lookup then finds under the key, and under any other key it finds what it
/// found before. What is refused changes nothing.
pub proof fn law_what_is_put_in_memory_is_found_again<F>(
    before: DocumentCache<F>,
    later: DocumentCache<F>,
    key: &str,
    bytes: Vec<u8>,
    other: &str,
    found: Option<DocumentCacheEntry<F>>,
)
    requires
        before.wf(),
        call_ensures(DocumentCache::<F>::get, (&later, other), found),
    ensures
        forall|cache: &mut DocumentCache<F>, outcome: Result<(), HttpError>| #[trigger]
            call_ensures(DocumentCache::<F>::insert_memory, (cache, key, bytes), outcome)
                && *cache == before && *final(cache) == later ==> {
                let count = before.contents().dom().len() + if before.contents().contains_key(
                    key@,
                ) {
                    0int
                } else {
                    1
                };
                let held = if before.contents().contains_key(key@) {
                    before.contents()[key@].memory_size()
                } else {
                    0
                };
                let held_in_file = if before.contents().contains_key(key@) {
                    before.contents()[key@].file_size()
                } else {
                    0
                };
                &&& outcome is Ok <==> {
                    &&& key_error(key@) is None
                    &&& bytes@.len() <= before.spec_limits().entry_bytes
                    &&& count <= before.spec_limits().entries
                    &&& before.memory_used() - held + bytes@.len()
                        <= before.spec_limits().memory_bytes
                    &&& before.file_used() - held_in_file <= before.spec_limits().file_bytes
                }
                &&& outcome is Ok && other@ == key@ ==> (found matches Some(
                    DocumentCacheEntry::Memory(given),
                ) && given@ == bytes@)
                &&& outcome is Ok ==> later.memory_used() == before.memory_used() - held
                    + bytes@.len() && later.file_used() == before.file_used() - held_in_file
                &&& outcome is Err || other@ != key@ ==> {
                    &&& found is Some <==> before.contents().contains_key(other@)
                    &&& found matches Some(entry) ==> entry.shows(before.contents()[other@])
                }
            },
{
}

/// A streamed value is found in its file with its length once it is finished, unless it was
/// cancelled or a quota leaves no room; then nothing changes.
pub proof fn law_what_is_streamed_is_found_again<F>(
    before: DocumentCache<F>,
    later: DocumentCache<F>,
    insert: FileInsert,
    file: F,
    cancelled: bool,
    other: &str,
    found: Option<DocumentCacheEntry<F>>,
)
    requires
        before.wf(),
        insert.len <= before.spec_limits().entry_bytes,
        call_ensures(DocumentCache::<F>::get, (&later, other), found),
    ensures
        forall|cache: &mut DocumentCache<F>, outcome: Result<(), HttpError>| #[trigger]
            call_ensures(
                DocumentCache::<F>::finish_file,
                (cache, insert, file, cancelled),
                outcome,
            ) && *cache == before && *final(cache) == later ==> {
                &&& cancelled ==> outcome is Err
                &&& outcome is Ok && other@ == insert.key@ ==> (found matches Some(
                    DocumentCacheEntry::File { file: given, len },
                ) && *given == file && len == insert.len)
                &&& outcome is Ok ==> later.file_used() == before.file_used()
                    - before.file_at(insert.key@) + insert.len && later.memory_used()
                    == before.memory_used() - before.memory_at(insert.key@)
                &&& outcome is Err ==> later == before
                &&& other@ != insert.key@ ==> {
                    &&& found is Some <==> before.contents().contains_key(other@)
                    &&& found matches Some(entry) ==> entry.shows(before.contents()[other@])
                }
            },
{
}

/// A value that was removed is found no more, and takes no room.
pub proof fn law_removed_values_take_no_room<F>(
    before: DocumentCache<F>,
    later: DocumentCache<F>,
    key: &str,
    other: &str,
    found: Option<DocumentCacheEntry<F>>,
)
    requires
        call_ensures(DocumentCache::<F>::get, (&later, other), found),
    ensures
        forall|cache: &mut DocumentCache<F>, removed: bool| #[trigger]
            call_ensures(DocumentCache::<F>::remove, (cache, key), removed) && *cache == before
                && *final(cache) == later ==> {
                &&& removed <==> before.contents().contains_key(key@)
                &&& other@ == key@ ==> found is None
                &&& other@ != key@ ==> (found is Some <==> before.contents().contains_key(other@))
                &&& removed ==> (match before.contents()[key@] {
                    StoredEntry::Memory(bytes) => later.memory_used() == before.memory_used()
                        - bytes@.len() && later.file_used() == before.file_used(),
                    StoredEntry::File { len, .. } => later.file_used() == before.file_used() - len
                        && later.memory_used() == before.memory_used(),
                })
            },
{
}

/// Where nothing else is set a cache holds eight mebibytes in memory and 64 in files, values
/// of sixteen, and 256 of them.
pub proof fn law_usual_quotas_are_these(limits: DocumentCacheLimits)
    requires
        call_ensures(DocumentCacheLimits::default, (), limits),
    ensures
        limits.memory_bytes == 8 * 1_024 * 1_024,
        limits.file_bytes == 64 * 1_024 * 1_024,
        limits.entry_bytes == 16 * 1_024 * 1_024,
        limits.entries == 256,
{
}

/// A value that is streamed starts with no byte under its key, grows by what is read, and is
/// refused as soon as it is longer than a value may be.
pub proof fn law_streamed_values_are_counted<F>(
    cache: DocumentCache<F>,
    key: &str,
    begun: Result<FileInsert, HttpError>,
    before: FileInsert,
    read: usize,
)
    requires
        call_ensures(DocumentCache::<F>::begin_file, (&cache, key), begun),
    ensures
        begun is Ok <==> key_error(key@) is None,
        begun matches Ok(insert) ==> insert.len == 0 && insert.key@ == key@,
        forall|insert: &mut FileInsert, outcome: Result<(), HttpError>| #[trigger]
            call_ensures(DocumentCache::<F>::extend_file, (&cache, insert, read), outcome)
                && *insert == before ==> {
                &&& outcome is Ok <==> before.len + read <= cache.spec_limits().entry_bytes
                &&& outcome is Ok ==> final(insert).len == before.len + read
                &&& outcome is Err ==> final(insert).len == before.len
                &&& final(insert).key == before.key
            },
{
}

} // verus!
