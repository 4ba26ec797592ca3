//! What extensions keep: settings, values of one document, and values that are
//! gone when the application ends.
//!
//! Settings and document values stand in files. This module says which file,
//! and what may go into it; the files themselves are read and written
//! elsewhere.

use crate::keyed::{KeyedList, ListKey};
use crate::text::{byte_len, chars_of, decimal, join2, join4, same_text};
use vstd::prelude::*;

verus! {

/// The version of the file format.
pub const EXTENSION_SCHEMA_VERSION: u16 = 1;

/// How many bytes a file may have.
pub const MAX_FILE_BYTES: usize = 16_777_216;

/// An extension.
#[derive(Clone, Debug, PartialEq, Eq)]
pub struct ExtensionId(pub String);

/// Where a value is kept.
#[derive(Clone, Copy, Debug, PartialEq, Eq, Structural)]
pub enum StorageArea {
    Settings,
    Document,
    EphemeralCache,
}

/// A value of an extension. A record lists its fields, each with its name, in the
/// order in which whoever made it put them; where a record comes from a file, no name
/// occurs twice.
#[derive(Debug, PartialEq, Eq)]
pub enum DataValue {
    Null,
    Boolean(bool),
    Integer(i64),
    /// A floating-point number by its bits.
    Number(u64),
    String(String),
    List(Vec<DataValue>),
    Record(Vec<(String, DataValue)>),
}

/// A [`DataValue`] with its texts as sequences of characters.
pub enum DataView {
    Null,
    Boolean(bool),
    Integer(i64),
    Number(u64),
    String(Seq<char>),
    List(Seq<DataView>),
    Record(Seq<(Seq<char>, DataView)>),
}

/// A value as it is seen.
pub open spec fn data_view(value: DataValue) -> DataView
    decreases value,
{
    match value {
        DataValue::Null => DataView::Null,
        DataValue::Boolean(value) => DataView::Boolean(value),
        DataValue::Integer(value) => DataView::Integer(value),
        DataValue::Number(bits) => DataView::Number(bits),
        DataValue::String(text) => DataView::String(text@),
        DataValue::List(values) => DataView::List(
            Seq::new(
                values@.len(),
                |i: int|
                    if 0 <= i < values@.len() {
                        data_view(values@[i])
                    } else {
                        DataView::Null
                    },
            ),
        ),
        DataValue::Record(fields) => DataView::Record(
            Seq::new(
                fields@.len(),
                |i: int|
                    if 0 <= i < fields@.len() {
                        (fields@[i].0@, data_view(fields@[i].1))
                    } else {
                        (Seq::empty(), DataView::Null)
                    },
            ),
        ),
    }
}

impl View for DataValue {
    type V = DataView;

    open spec fn view(&self) -> DataView {
        data_view(*self)
    }
}

impl DataValue {
    /// The same value once more.
    pub fn copy(&self) -> (copy: DataValue)
        ensures
            copy@ == self@,
        decreases self,
    {
        match self {
            DataValue::Null => DataValue::Null,
            DataValue::Boolean(value) => DataValue::Boolean(*value),
            DataValue::Integer(value) => DataValue::Integer(*value),
            DataValue::Number(bits) => DataValue::Number(*bits),
            DataValue::String(text) => DataValue::String(text.as_str().to_owned()),
            DataValue::List(values) => {
                let mut copies: Vec<DataValue> = Vec::new();
                let mut i: usize = 0;
                while i < values.len()
                    invariant
                        i <= values@.len(),
                        *self == DataValue::List(*values),
                        copies@.len() == i,
                        forall|j: int| 0 <= j < i ==> (#[trigger] copies@[j])@ == values@[j]@,
                    decreases values@.len() - i,
                {
                    assert(decreases_to!(*self => self->List_0));
                    assert(decreases_to!(self->List_0 => self->List_0@));
                    assert(decreases_to!(self->List_0@ => self->List_0@[i as int]));
                    copies.push(values[i].copy());
                    i += 1;
                }
                let copy = DataValue::List(copies);
                assert(copy@->List_0 =~= self@->List_0);
                copy
            },
            DataValue::Record(fields) => {
                let mut copies: Vec<(String, DataValue)> = Vec::new();
                let mut i: usize = 0;
                while i < fields.len()
                    invariant
                        i <= fields@.len(),
                        *self == DataValue::Record(*fields),
                        copies@.len() == i,
                        forall|j: int|
                            0 <= j < i ==> (#[trigger] copies@[j]).0@ == fields@[j].0@
                                && copies@[j].1@ == fields@[j].1@,
                    decreases fields@.len() - i,
                {
                    assert(decreases_to!(*self => self->Record_0));
                    assert(decreases_to!(self->Record_0 => self->Record_0@));
                    assert(decreases_to!(self->Record_0@ => self->Record_0@[i as int]));
                    assert(decreases_to!(
                        self->Record_0@[i as int] => self->Record_0@[i as int].1
                    ));
                    copies.push((fields[i].0.as_str().to_owned(), fields[i].1.copy()));
                    i += 1;
                }
                let copy = DataValue::Record(copies);
                assert(copy@->Record_0 =~= self@->Record_0);
                copy
            },
        }
    }
}

/// How much a value counts against a quota.
pub open spec fn data_size(value: DataValue) -> nat
    decreases value,
{
    match value {
        DataValue::Null => 1,
        DataValue::Boolean(_) => 1,
        DataValue::Integer(_) => 8,
        DataValue::Number(_) => 8,
        DataValue::String(text) => crate::text::utf8_len(text@),
        DataValue::List(values) => list_size(values@),
        DataValue::Record(fields) => record_size(fields@),
    }
}

/// How much the values of a list count.
pub open spec fn list_size(values: Seq<DataValue>) -> nat
    decreases values,
{
    if values.len() == 0 {
        0
    } else {
        list_size(values.subrange(0, values.len() - 1)) + data_size(values[values.len() - 1])
    }
}

/// How much the fields of a record count, names included.
pub open spec fn record_size(fields: Seq<(String, DataValue)>) -> nat
    decreases fields,
{
    if fields.len() == 0 {
        0
    } else {
        record_size(fields.subrange(0, fields.len() - 1)) + crate::text::utf8_len(
            fields[fields.len() - 1].0@,
        ) + data_size(fields[fields.len() - 1].1)
    }
}

/// A count, or the greatest one where it does not fit.
pub open spec fn capped(count: nat) -> usize {
    if count > usize::MAX {
        usize::MAX
    } else {
        count as usize
    }
}

/// How much a value counts against a quota.
pub fn value_size(value: &DataValue) -> (size: usize)
    ensures
        size == capped(data_size(*value)),
    decreases value,
{
    match value {
        DataValue::Null => 1,
        DataValue::Boolean(_) => 1,
        DataValue::Integer(_) => 8,
        DataValue::Number(_) => 8,
        DataValue::String(text) => byte_len(text.as_str()),
        DataValue::List(values) => {
            let mut size: usize = 0;
            let mut i: usize = 0;
            assert(values@.subrange(0, 0) =~= Seq::empty());
            while i < values.len()
                invariant
                    i <= values@.len(),
                    *value == DataValue::List(*values),
                    size == capped(list_size(values@.subrange(0, i as int))),
                decreases values@.len() - i,
            {
                proof {
                    assert(decreases_to!(*value => value->List_0));
                    assert(decreases_to!(value->List_0 => value->List_0@));
                    assert(decreases_to!(value->List_0@ => value->List_0@[i as int]));
                    let longer = values@.subrange(0, i + 1);
                    assert(longer.subrange(0, i as int) =~= values@.subrange(0, i as int));
                }
                size = size.saturating_add(value_size(&values[i]));
                i += 1;
            }
            assert(values@.subrange(0, values@.len() as int) =~= values@);
            size
        },
        DataValue::Record(fields) => {
            let mut size: usize = 0;
            let mut i: usize = 0;
            assert(fields@.subrange(0, 0) =~= Seq::empty());
            while i < fields.len()
                invariant
                    i <= fields@.len(),
                    *value == DataValue::Record(*fields),
                    size == capped(record_size(fields@.subrange(0, i as int))),
                decreases fields@.len() - i,
            {
                proof {
                    assert(decreases_to!(*value => value->Record_0));
                    assert(decreases_to!(value->Record_0 => value->Record_0@));
                    assert(decreases_to!(value->Record_0@ => value->Record_0@[i as int]));
                    assert(decreases_to!(
                        value->Record_0@[i as int] => value->Record_0@[i as int].1
                    ));
                    let longer = fields@.subrange(0, i + 1);
                    assert(longer.subrange(0, i as int) =~= fields@.subrange(0, i as int));
                }
                size = size.saturating_add(
                    byte_len(fields[i].0.as_str()).saturating_add(value_size(&fields[i].1)),
                );
                i += 1;
            }
            assert(fields@.subrange(0, fields@.len() as int) =~= fields@);
            size
        },
    }
}

/// What kind of failure it is.
#[derive(Clone, Copy, Debug, PartialEq, Eq, Structural)]
pub enum ExtensionErrorCode {
    InvalidRequest,
    StaleResource,
    QuotaExceeded,
    TemporarilyUnavailable,
    Internal,
}

/// Why something of an extension was refused.
#[derive(Clone, Debug, PartialEq, Eq)]
pub struct ExtensionError {
    pub code: ExtensionErrorCode,
    pub message: String,
    pub retryable: bool,
}

/// An [`ExtensionError`] with its message as a sequence of characters.
pub struct ExtensionErrorView {
    pub code: ExtensionErrorCode,
    pub message: Seq<char>,
    pub retryable: bool,
}

impl View for ExtensionError {
    type V = ExtensionErrorView;

    open spec fn view(&self) -> ExtensionErrorView {
        ExtensionErrorView { code: self.code, message: self.message@, retryable: self.retryable }
    }
}

/// A request that makes no sense.
pub open spec fn invalid_request(message: Seq<char>) -> ExtensionErrorView {
    ExtensionErrorView { code: ExtensionErrorCode::InvalidRequest, message, retryable: false }
}

/// More than was agreed on.
pub open spec fn quota_exceeded(message: Seq<char>) -> ExtensionErrorView {
    ExtensionErrorView { code: ExtensionErrorCode::QuotaExceeded, message, retryable: false }
}

fn invalid(message: String) -> (error: ExtensionError)
    ensures
        error@ == invalid_request(message@),
{
    ExtensionError { code: ExtensionErrorCode::InvalidRequest, message, retryable: false }
}

fn over_quota(message: String) -> (error: ExtensionError)
    ensures
        error@ == quota_exceeded(message@),
{
    ExtensionError { code: ExtensionErrorCode::QuotaExceeded, message, retryable: false }
}

/// A failure of the host itself, which may pass.
pub fn internal(message: String) -> (error: ExtensionError)
    ensures
        error@ == (ExtensionErrorView {
            code: ExtensionErrorCode::Internal,
            message: message@,
            retryable: true,
        }),
{
    ExtensionError { code: ExtensionErrorCode::Internal, message, retryable: true }
}

/// A character that the name of a document's storage may have.
pub open spec fn is_namespace_char(c: char) -> bool {
    'a' <= c <= 'z' || 'A' <= c <= 'Z' || '0' <= c <= '9' || c == '-' || c == '_'
}

/// A name that a document's storage may have.
pub open spec fn is_namespace(text: Seq<char>) -> bool {
    &&& text.len() > 0
    &&& crate::text::utf8_len(text) <= 128
    &&& forall|i: int| 0 <= i < text.len() ==> is_namespace_char(#[trigger] text[i])
}

/// Whether a document's storage may have a name.
pub fn validate_document_namespace(document: &str) -> (checked: Result<(), ExtensionError>)
    ensures
        match checked {
            Ok(()) => is_namespace(document@),
            Err(error) => !is_namespace(document@) && error@ == invalid_request(
                "document storage namespace is invalid"@,
            ),
        },
{
    let chars = chars_of(document);
    let mut sound = chars.len() > 0 && byte_len(document) <= 128;
    let mut i: usize = 0;
    while i < chars.len()
        invariant
            i <= chars@.len(),
            chars@ == document@,
            sound == (chars@.len() > 0 && crate::text::utf8_len(document@) <= 128 && forall|j: int|
                0 <= j < i ==> is_namespace_char(#[trigger] document@[j])),
        decreases chars@.len() - i,
    {
        let c = chars[i];
        let allowed = ('a' <= c && c <= 'z') || ('A' <= c && c <= 'Z') || ('0' <= c && c <= '9')
            || c == '-' || c == '_';
        assert(allowed == is_namespace_char(document@[i as int]));
        sound = sound && allowed;
        i += 1;
    }
    if sound {
        Ok(())
    } else {
        Err(invalid("document storage namespace is invalid".to_owned()))
    }
}

/// Two dots stand next to each other from here.
pub open spec fn dots_at(text: Seq<char>, i: int) -> bool {
    0 <= i < text.len() - 1 && text[i] == '.' && text[i + 1] == '.'
}

/// A key that a value may be kept under: a short name that is no path.
pub open spec fn is_storage_key(key: Seq<char>) -> bool {
    &&& key.len() > 0
    &&& crate::text::utf8_len(key) <= 256
    &&& crate::text::all_ascii(key)
    &&& key[0] != '.'
    &&& forall|i: int| !#[trigger] dots_at(key, i)
    &&& forall|i: int| 0 <= i < key.len() ==> #[trigger] key[i] != '/' && key[i] != '\\'
}

/// Whether a value may be kept under a key.
pub fn validate_key(key: &str) -> (checked: Result<(), ExtensionError>)
    ensures
        match checked {
            Ok(()) => is_storage_key(key@),
            Err(error) => !is_storage_key(key@) && error@ == invalid_request(
                "storage key is not a bounded logical key"@,
            ),
        },
{
    let chars = chars_of(key);
    if chars.len() == 0 || byte_len(key) > 256 || chars[0] == '.' {
        return Err(invalid("storage key is not a bounded logical key".to_owned()));
    }
    let mut i: usize = 0;
    while i < chars.len()
        invariant
            i <= chars@.len(),
            chars@ == key@,
            forall|j: int|
                0 <= j < i ==> (#[trigger] key@[j] as u32) < 128 && key@[j] != '/' && key@[j]
                    != '\\',
            forall|j: int| j < i ==> !#[trigger] dots_at(key@, j),
        decreases chars@.len() - i,
    {
        let c = chars[i];
        let doubled = i + 1 < chars.len() && c == '.' && chars[i + 1] == '.';
        if doubled {
            assert(dots_at(key@, i as int));
        }
        if c as u32 >= 128 || c == '/' || c == '\\' || doubled {
            assert(!is_storage_key(key@));
            return Err(invalid("storage key is not a bounded logical key".to_owned()));
        }
        assert(!dots_at(key@, i as int));
        i += 1;
    }
    assert forall|j: int| !#[trigger] dots_at(key@, j) by {
        if j >= chars@.len() {
        }
    }
    Ok(())
}

/// A value of an extension by its name.
#[derive(Clone, Debug, PartialEq, Eq)]
pub struct EntryKey {
    pub owner: String,
    pub key: String,
}

impl View for EntryKey {
    type V = (Seq<char>, Seq<char>);

    open spec fn view(&self) -> (Seq<char>, Seq<char>) {
        (self.owner@, self.key@)
    }
}

impl ListKey for EntryKey {
    fn same_key(&self, other: &Self) -> (same: bool) {
        same_text(self.owner.as_str(), other.owner.as_str()) && same_text(
            self.key.as_str(),
            other.key.as_str(),
        )
    }

    fn copy_key(&self) -> (copy: Self) {
        EntryKey { owner: self.owner.as_str().to_owned(), key: self.key.as_str().to_owned() }
    }
}

/// How much the values of an extension count, their keys included.
pub open spec fn used_by(entries: Seq<(EntryKey, DataValue)>, owner: Seq<char>) -> nat
    decreases entries.len(),
{
    if entries.len() == 0 {
        0
    } else {
        let before = used_by(entries.drop_last(), owner);
        let last = entries.last();
        if last.0.owner@ == owner {
            before + crate::text::utf8_len(last.0.key@) + data_size(last.1)
        } else {
            before
        }
    }
}

/// Values that are gone when the application ends.
#[derive(Debug)]
pub struct EphemeralValues {
    entries: KeyedList<EntryKey, DataValue>,
}

impl View for EphemeralValues {
    type V = Map<(Seq<char>, Seq<char>), DataValue>;

    closed spec fn view(&self) -> Map<(Seq<char>, Seq<char>), DataValue> {
        self.entries@
    }
}

impl EphemeralValues {
    /// No key occurs twice.
    pub closed spec fn wf(&self) -> bool {
        self.entries.wf()
    }

    /// The values, the latest last.
    pub closed spec fn listed(&self) -> Seq<(EntryKey, DataValue)> {
        self.entries.entries@
    }

    /// No values.
    pub fn new() -> (values: EphemeralValues)
        ensures
            values.wf(),
            values@ == Map::<(Seq<char>, Seq<char>), DataValue>::empty(),
            values.listed() == Seq::<(EntryKey, DataValue)>::empty(),
    {
        let values = EphemeralValues { entries: KeyedList::new() };
        assert(values.listed() =~= Seq::empty());
        values
    }

    /// The value under a key, or null.
    pub fn get(&self, extension: &ExtensionId, key: &str) -> (value: DataValue)
        requires
            self.wf(),
        ensures
            value@ == if self@.contains_key((extension.0@, key@)) {
                self@[(extension.0@, key@)]@
            } else {
                DataView::Null
            },
    {
        let entry = EntryKey { owner: extension.0.as_str().to_owned(), key: key.to_owned() };
        match self.entries.get(&entry) {
            Some(value) => value.copy(),
            None => DataValue::Null,
        }
    }

    fn used(&self, owner: &str) -> (used: usize)
        ensures
            used == capped(used_by(self.listed(), owner@)),
    {
        let mut used: usize = 0;
        let mut i: usize = 0;
        let ghost all = self.entries.entries@;
        assert(all.take(0) =~= Seq::empty());
        while i < self.entries.entries.len()
            invariant
                i <= all.len(),
                all == self.entries.entries@,
                used == capped(used_by(all.take(i as int), owner@)),
            decreases all.len() - i,
        {
            assert(all.take(i + 1).drop_last() =~= all.take(i as int));
            let entry = &self.entries.entries[i];
            if same_text(entry.0.owner.as_str(), owner) {
                used = used.saturating_add(
                    byte_len(entry.0.key.as_str()).saturating_add(value_size(&entry.1)),
                );
            }
            i += 1;
        }
        assert(all.take(all.len() as int) =~= all);
        used
    }

    /// Keeps a value in place of the one before. Where the extension then has
    /// more than its quota, nothing is kept under the key.
    pub fn put(&mut self, extension: &ExtensionId, key: &str, value: DataValue, quota_bytes: u64) -> (
    kept: Result<(), ExtensionError>)
        requires
            old(self).wf(),
        ensures
            final(self).wf(),
            ({
                let others = crate::keyed::without_key(
                    old(self).listed(),
                    (extension.0@, key@),
                );
                match kept {
                    Ok(()) => {
                        &&& final(self).listed().drop_last() == others
                        &&& final(self).listed().len() == others.len() + 1
                        &&& final(self).listed().last().0@ == (extension.0@, key@)
                        &&& final(self).listed().last().1 == value
                        &&& capped(used_by(final(self).listed(), extension.0@)) <= quota_bytes
                        &&& final(self)@ == old(self)@.insert((extension.0@, key@), value)
                    },
                    Err(error) => {
                        &&& final(self).listed() == others
                        &&& capped(
                            used_by(others, extension.0@) + crate::text::utf8_len(key@)
                                + data_size(value),
                        ) > quota_bytes
                        &&& final(self)@ == old(self)@.remove((extension.0@, key@))
                        &&& error@ == quota_exceeded(
                            "ephemeral extension storage quota exceeded"@,
                        )
                    },
                }
            }),
    {
        let entry = EntryKey { owner: extension.0.as_str().to_owned(), key: key.to_owned() };
        let ghost pair = (extension.0@, key@);
        let ghost before = self.entries.entries@;
        let ghost others = crate::keyed::without_key(before, pair);
        let spare = entry.copy_key();
        self.entries.insert(entry, value);
        let ghost grown = self.entries.entries@;
        assert(grown.drop_last() =~= others);
        if self.used(extension.0.as_str()) as u64 > quota_bytes {
            self.entries.remove(&spare);
            proof {
                crate::keyed::lemma_without_key_twice(before, pair, grown.last());
                assert(grown =~= others.push(grown.last()));
                assert(old(self)@.insert(pair, value).remove(pair) =~= old(self)@.remove(pair));
            }
            return Err(over_quota("ephemeral extension storage quota exceeded".to_owned()));
        }
        Ok(())
    }

    /// Forgets the value under a key.
    pub fn delete(&mut self, extension: &ExtensionId, key: &str)
        requires
            old(self).wf(),
        ensures
            final(self).wf(),
            final(self)@ == old(self)@.remove((extension.0@, key@)),
            final(self).listed() == crate::keyed::without_key(
                old(self).listed(),
                (extension.0@, key@),
            ),
    {
        let entry = EntryKey { owner: extension.0.as_str().to_owned(), key: key.to_owned() };
        self.entries.remove(&entry);
    }

    /// Forgets the values of an extension.
    pub fn clear_owner(&mut self, extension: &ExtensionId)
        requires
            old(self).wf(),
        ensures
            final(self).wf(),
            final(self)@ == old(self)@.remove_keys(
                Set::new(|pair: (Seq<char>, Seq<char>)| pair.0 == extension.0@),
            ),
    {
        let mut i: usize = self.entries.entries.len();
        let ghost start = self.entries@;
        let ghost gone = Set::new(|pair: (Seq<char>, Seq<char>)| pair.0 == extension.0@);
        while i > 0
            invariant
                i <= self.entries.entries@.len(),
                self.entries.wf(),
                gone == Set::new(|pair: (Seq<char>, Seq<char>)| pair.0 == extension.0@),
                forall|j: int|
                    i <= j < self.entries.entries@.len() ==> (
                    #[trigger] self.entries.entries@[j]).0.owner@ != extension.0@,
                self.entries@.remove_keys(gone) == start.remove_keys(gone),
            decreases i,
        {
            i -= 1;
            if same_text(self.entries.entries[i].0.owner.as_str(), extension.0.as_str()) {
                let ghost before = self.entries@;
                let ghost list = self.entries.entries@;
                proof {
                    crate::keyed::lemma_remove(list, i as int);
                }
                self.entries.entries.remove(i);
                proof {
                    assert(gone.contains(list[i as int].0@));
                    assert(self.entries@.remove_keys(gone) =~= before.remove_keys(gone));
                    assert forall|j: int|
                        i <= j < self.entries.entries@.len() implies (
                        #[trigger] self.entries.entries@[j]).0.owner@ != extension.0@ by {
                        assert(self.entries.entries@[j] == list[j + 1]);
                    }
                }
            }
        }
        proof {
            let left = self.entries@;
            assert forall|pair: (Seq<char>, Seq<char>)| #[trigger]
                left.contains_key(pair) implies !gone.contains(pair) by {
                let j = choose|j: int|
                    crate::keyed::holds_at(self.entries.entries@, pair, j);
                assert(self.entries.entries@[j].0@ == pair);
            }
            assert(left =~= left.remove_keys(gone));
        }
    }

    /// Forgets every value.
    pub fn clear(&mut self)
        ensures
            final(self).wf(),
            final(self)@ == Map::<(Seq<char>, Seq<char>), DataValue>::empty(),
            final(self).listed() == Seq::<(EntryKey, DataValue)>::empty(),
    {
        self.entries.clear();
    }
}

/// A file below the directory of the application, by the names that lead to
/// it.
#[derive(Clone, Debug, PartialEq, Eq)]
pub struct StoragePath {
    pub segments: Vec<String>,
}

impl View for StoragePath {
    type V = Seq<Seq<char>>;

    open spec fn view(&self) -> Seq<Seq<char>> {
        self.segments@.map(|i: int, segment: String| segment@)
    }
}

/// The file of an area, where it has one.
pub open spec fn path_of(
    document: Option<Seq<char>>,
    extension: Seq<char>,
    area: StorageArea,
) -> Result<Seq<Seq<char>>, ExtensionErrorView> {
    match area {
        StorageArea::Settings => Ok(seq!["settings"@, extension + ".json"@]),
        StorageArea::Document => match document {
            Some(document) => Ok(seq!["documents"@, document, extension + ".json"@]),
            None => Err(
                ExtensionErrorView {
                    code: ExtensionErrorCode::StaleResource,
                    message: "no active document storage namespace"@,
                    retryable: false,
                },
            ),
        },
        StorageArea::EphemeralCache => Err(
            invalid_request("ephemeral storage has no disk path"@),
        ),
    }
}

/// The scope of a storage: one document for good, or none.
#[derive(Clone, Debug, PartialEq, Eq)]
pub struct JsonExtensionStorageScope {
    document: Option<String>,
}

impl JsonExtensionStorageScope {
    /// The name of the document's storage.
    pub closed spec fn namespace(&self) -> Option<Seq<char>> {
        match self.document {
            Some(document) => Some(document@),
            None => None,
        }
    }

    /// A scope of one document.
    pub fn document_scope(document: String) -> (scope: Result<
        JsonExtensionStorageScope,
        ExtensionError,
    >)
        ensures
            match scope {
                Ok(scope) => is_namespace(document@) && scope.namespace() == Some(document@),
                Err(error) => !is_namespace(document@) && error@ == invalid_request(
                    "document storage namespace is invalid"@,
                ),
            },
    {
        match validate_document_namespace(document.as_str()) {
            Ok(()) => Ok(JsonExtensionStorageScope { document: Some(document) }),
            Err(error) => Err(error),
        }
    }

    /// A scope without a document.
    pub fn application_scope() -> (scope: JsonExtensionStorageScope)
        ensures
            scope.namespace() is None,
    {
        JsonExtensionStorageScope { document: None }
    }

    /// The name of the document's storage.
    pub fn document_namespace(&self) -> (namespace: Option<&str>)
        ensures
            match namespace {
                Some(namespace) => self.namespace() == Some(namespace@),
                None => self.namespace() is None,
            },
    {
        match &self.document {
            Some(document) => Some(document.as_str()),
            None => None,
        }
    }

    /// The file of an area.
    pub fn path(&self, extension: &ExtensionId, area: StorageArea) -> (path: Result<
        StoragePath,
        ExtensionError,
    >)
        ensures
            match (path, path_of(self.namespace(), extension.0@, area)) {
                (Ok(path), Ok(expected)) => path@ == expected,
                (Err(error), Err(expected)) => error@ == expected,
                _ => false,
            },
    {
        match area {
            StorageArea::Settings => {
                let mut segments: Vec<String> = Vec::new();
                segments.push("settings".to_owned());
                segments.push(join2(extension.0.as_str(), ".json"));
                let path = StoragePath { segments };
                assert(path@ =~= seq!["settings"@, extension.0@ + ".json"@]);
                Ok(path)
            },
            StorageArea::Document => match &self.document {
                None => Err(
                    ExtensionError {
                        code: ExtensionErrorCode::StaleResource,
                        message: "no active document storage namespace".to_owned(),
                        retryable: false,
                    },
                ),
                Some(document) => {
                    let mut segments: Vec<String> = Vec::new();
                    segments.push("documents".to_owned());
                    segments.push(document.as_str().to_owned());
                    segments.push(join2(extension.0.as_str(), ".json"));
                    let path = StoragePath { segments };
                    assert(path@ =~= seq!["documents"@, document@, extension.0@ + ".json"@]);
                    Ok(path)
                },
            },
            StorageArea::EphemeralCache => Err(
                invalid("ephemeral storage has no disk path".to_owned()),
            ),
        }
    }
}

/// How a read goes on.
#[derive(Debug)]
pub enum ReadPlan {
    /// This is the value.
    Answer(DataValue),
    /// The value is in this file.
    File(StoragePath),
}

/// How a change goes on.
#[derive(Debug)]
pub enum ChangePlan {
    /// It is done.
    Done,
    /// It is to be made in this file.
    File(StoragePath),
}

/// What the windows of an application share, and the document that is selected
/// for those that have no scope of their own.
#[derive(Debug)]
pub struct ExtensionStorageState {
    selected: Option<String>,
    ephemeral: EphemeralValues,
}

impl ExtensionStorageState {
    /// No key occurs twice.
    pub closed spec fn wf(&self) -> bool {
        self.ephemeral.wf()
    }

    /// The values that are gone when the application ends.
    pub closed spec fn values(&self) -> EphemeralValues {
        self.ephemeral
    }

    /// The document that is selected.
    pub closed spec fn selection(&self) -> Option<Seq<char>> {
        match self.selected {
            Some(document) => Some(document@),
            None => None,
        }
    }

    /// No values, and no document.
    pub fn new() -> (state: ExtensionStorageState)
        ensures
            state.wf(),
            state.selection() is None,
            state.values()@ == Map::<(Seq<char>, Seq<char>), DataValue>::empty(),
    {
        ExtensionStorageState { selected: None, ephemeral: EphemeralValues::new() }
    }

    /// Selects a document for those that have no scope of their own.
    pub fn select_document(&mut self, document: Option<String>) -> (selected: Result<
        (),
        ExtensionError,
    >)
        requires
            old(self).wf(),
        ensures
            final(self).wf(),
            final(self).values() == old(self).values(),
            match document {
                None => selected is Ok && final(self).selection() is None,
                Some(document) => match selected {
                    Ok(()) => is_namespace(document@) && final(self).selection() == Some(document@),
                    Err(error) => !is_namespace(document@) && final(self).selection() == old(
                        self,
                    ).selection() && error@ == invalid_request(
                        "document storage namespace is invalid"@,
                    ),
                },
            },
    {
        if let Some(document) = &document {
            if let Err(error) = validate_document_namespace(document.as_str()) {
                return Err(error);
            }
        }
        self.selected = document;
        Ok(())
    }

    /// The scope of the document that is selected now.
    pub fn selected_scope(&self) -> (scope: JsonExtensionStorageScope)
        ensures
            scope.namespace() == self.selection(),
    {
        JsonExtensionStorageScope {
            document: match &self.selected {
                Some(document) => Some(document.as_str().to_owned()),
                None => None,
            },
        }
    }

    /// Starts a read.
    pub fn get(
        &self,
        scope: &JsonExtensionStorageScope,
        extension: &ExtensionId,
        area: StorageArea,
        key: &str,
    ) -> (plan: Result<ReadPlan, ExtensionError>)
        requires
            self.wf(),
        ensures
            !is_storage_key(key@) ==> (plan matches Err(error) && error@ == invalid_request(
                "storage key is not a bounded logical key"@,
            )),
            is_storage_key(key@) && area == StorageArea::EphemeralCache ==> (plan matches Ok(
                ReadPlan::Answer(value),
            ) && value@ == if self.values()@.contains_key((extension.0@, key@)) {
                self.values()@[(extension.0@, key@)]@
            } else {
                DataView::Null
            }),
            is_storage_key(key@) && area != StorageArea::EphemeralCache ==> match (
                plan,
                path_of(scope.namespace(), extension.0@, area),
            ) {
                (Ok(ReadPlan::File(path)), Ok(expected)) => path@ == expected,
                (Err(error), Err(expected)) => error@ == expected,
                _ => false,
            },
    {
        if let Err(error) = validate_key(key) {
            return Err(error);
        }
        if area == StorageArea::EphemeralCache {
            return Ok(ReadPlan::Answer(self.ephemeral.get(extension, key)));
        }
        match scope.path(extension, area) {
            Ok(path) => Ok(ReadPlan::File(path)),
            Err(error) => Err(error),
        }
    }

    /// Starts a write. A value that goes into a file is handed back with it.
    pub fn put(
        &mut self,
        scope: &JsonExtensionStorageScope,
        extension: &ExtensionId,
        area: StorageArea,
        key: &str,
        value: DataValue,
        quota_bytes: u64,
    ) -> (plan: Result<Option<(StoragePath, DataValue)>, ExtensionError>)
        requires
            old(self).wf(),
        ensures
            final(self).wf(),
            final(self).selection() == old(self).selection(),
            !is_storage_key(key@) ==> (plan matches Err(error) && error@ == invalid_request(
                "storage key is not a bounded logical key"@,
            )) && final(self).values() == old(self).values(),
            is_storage_key(key@) && area == StorageArea::EphemeralCache ==> match plan {
                Ok(file) => file is None && final(self).values()@ == old(self).values()@.insert(
                    (extension.0@, key@),
                    value,
                ) && capped(used_by(final(self).values().listed(), extension.0@)) <= quota_bytes,
                Err(error) => final(self).values()@ == old(self).values()@.remove(
                    (extension.0@, key@),
                ) && error@ == quota_exceeded("ephemeral extension storage quota exceeded"@)
                    && capped(
                    used_by(
                        crate::keyed::without_key(
                            old(self).values().listed(),
                            (extension.0@, key@),
                        ),
                        extension.0@,
                    ) + crate::text::utf8_len(key@) + data_size(value),
                ) > quota_bytes,
            },
            is_storage_key(key@) && area != StorageArea::EphemeralCache ==> final(self).values()
                == old(self).values() && match (
                plan,
                path_of(scope.namespace(), extension.0@, area),
            ) {
                (Ok(Some((path, kept))), Ok(expected)) => path@ == expected && kept == value,
                (Err(error), Err(expected)) => error@ == expected,
                _ => false,
            },
    {
        if let Err(error) = validate_key(key) {
            return Err(error);
        }
        if area == StorageArea::EphemeralCache {
            return match self.ephemeral.put(extension, key, value, quota_bytes) {
                Ok(()) => Ok(None),
                Err(error) => Err(error),
            };
        }
        match scope.path(extension, area) {
            Ok(path) => Ok(Some((path, value))),
            Err(error) => Err(error),
        }
    }

    /// Starts a deletion.
    pub fn delete(
        &mut self,
        scope: &JsonExtensionStorageScope,
        extension: &ExtensionId,
        area: StorageArea,
        key: &str,
    ) -> (plan: Result<ChangePlan, ExtensionError>)
        requires
            old(self).wf(),
        ensures
            final(self).wf(),
            final(self).selection() == old(self).selection(),
            !is_storage_key(key@) ==> (plan matches Err(error) && error@ == invalid_request(
                "storage key is not a bounded logical key"@,
            )) && final(self).values() == old(self).values(),
            is_storage_key(key@) && area == StorageArea::EphemeralCache ==> plan == Ok::<
                ChangePlan,
                ExtensionError,
            >(ChangePlan::Done) && final(self).values()@ == old(self).values()@.remove(
                (extension.0@, key@),
            ),
            is_storage_key(key@) && area != StorageArea::EphemeralCache ==> final(self).values()
                == old(self).values() && match (
                plan,
                path_of(scope.namespace(), extension.0@, area),
            ) {
                (Ok(ChangePlan::File(path)), Ok(expected)) => path@ == expected,
                (Err(error), Err(expected)) => error@ == expected,
                _ => false,
            },
    {
        if let Err(error) = validate_key(key) {
            return Err(error);
        }
        if area == StorageArea::EphemeralCache {
            self.ephemeral.delete(extension, key);
            return Ok(ChangePlan::Done);
        }
        match scope.path(extension, area) {
            Ok(path) => Ok(ChangePlan::File(path)),
            Err(error) => Err(error),
        }
    }

    /// Forgets what an extension keeps in an area. Returns the file that is to
    /// be removed.
    pub fn clear_area(
        &mut self,
        scope: &JsonExtensionStorageScope,
        extension: &ExtensionId,
        area: StorageArea,
    ) -> (file: Option<StoragePath>)
        requires
            old(self).wf(),
        ensures
            final(self).wf(),
            final(self).selection() == old(self).selection(),
            area == StorageArea::EphemeralCache ==> file is None && final(self).values()@ == old(
                self,
            ).values()@.remove_keys(
                Set::new(|pair: (Seq<char>, Seq<char>)| pair.0 == extension.0@),
            ),
            area != StorageArea::EphemeralCache ==> final(self).values() == old(self).values()
                && match path_of(scope.namespace(), extension.0@, area) {
                Ok(expected) => file matches Some(path) && path@ == expected,
                Err(_) => file is None,
            },
    {
        if area == StorageArea::EphemeralCache {
            self.ephemeral.clear_owner(extension);
            return None;
        }
        match scope.path(extension, area) {
            Ok(path) => Some(path),
            Err(_) => None,
        }
    }

    /// Forgets what all extensions keep in an area. Only what was never written
    /// to a file is forgotten.
    pub fn clear_all(&mut self, area: StorageArea)
        requires
            old(self).wf(),
        ensures
            final(self).wf(),
            final(self).selection() == old(self).selection(),
            area == StorageArea::EphemeralCache ==> final(self).values()@ == Map::<
                (Seq<char>, Seq<char>),
                DataValue,
            >::empty(),
            area != StorageArea::EphemeralCache ==> final(self).values() == old(self).values(),
    {
        if area == StorageArea::EphemeralCache {
            self.ephemeral.clear();
        }
    }
}

/// The values that an extension keeps in a file.
#[derive(Debug)]
pub struct FileValues {
    entries: KeyedList<String, DataValue>,
}

impl View for FileValues {
    type V = Map<Seq<char>, DataValue>;

    closed spec fn view(&self) -> Map<Seq<char>, DataValue> {
        self.entries@
    }
}

impl FileValues {
    /// No key occurs twice.
    pub closed spec fn wf(&self) -> bool {
        self.entries.wf()
    }

    /// The values of a file that is not there.
    pub fn new() -> (values: FileValues)
        ensures
            values.wf(),
            values@ == Map::<Seq<char>, DataValue>::empty(),
    {
        FileValues { entries: KeyedList::new() }
    }

    /// The value under a key, or null.
    pub fn get(&self, key: &str) -> (value: DataValue)
        requires
            self.wf(),
        ensures
            value@ == if self@.contains_key(key@) {
                self@[key@]@
            } else {
                DataView::Null
            },
    {
        match self.entries.get(&key.to_owned()) {
            Some(value) => value.copy(),
            None => DataValue::Null,
        }
    }

    /// Puts a value under a key.
    pub fn put(&mut self, key: &str, value: DataValue)
        requires
            old(self).wf(),
        ensures
            final(self).wf(),
            final(self)@ == old(self)@.insert(key@, value),
    {
        let _ = self.entries.insert(key.to_owned(), value);
    }

    /// Takes the value under a key out.
    pub fn delete(&mut self, key: &str)
        requires
            old(self).wf(),
        ensures
            final(self).wf(),
            final(self)@ == old(self)@.remove(key@),
    {
        let _ = self.entries.remove(&key.to_owned());
    }

    /// Every key with its value.
    pub fn into_entries(self) -> (entries: Vec<(String, DataValue)>)
        requires
            self.wf(),
        ensures
            crate::keyed::distinct_keys(entries@),
            crate::keyed::entry_map(entries@) == self@,
    {
        self.entries.entries
    }
}

/// What was put under a key is what is found there, until it is deleted; what is
/// under other keys stays.
pub proof fn law_files_give_back_what_was_put(
    before: Map<Seq<char>, DataValue>,
    key: Seq<char>,
    value: DataValue,
    other: Seq<char>,
)
    ensures
        before.insert(key, value).contains_key(key),
        before.insert(key, value)[key] == value,
        !before.insert(key, value).remove(key).contains_key(key),
        other != key ==> before.insert(key, value).contains_key(other) == before.contains_key(
            other,
        ),
        other != key && before.contains_key(other) ==> before.insert(key, value)[other]
            == before[other],
{
}

/// Checks the size of a file that is to be read.
pub fn check_file_size(bytes: u64) -> (checked: Result<(), ExtensionError>)
    ensures
        match checked {
            Ok(()) => bytes <= MAX_FILE_BYTES,
            Err(error) => bytes > MAX_FILE_BYTES && error@ == quota_exceeded(
                "stored extension data exceeds the host file limit"@,
            ),
        },
{
    if bytes > MAX_FILE_BYTES as u64 {
        Err(over_quota("stored extension data exceeds the host file limit".to_owned()))
    } else {
        Ok(())
    }
}

/// Checks the version that a file says it has.
pub fn check_file_schema(version: u16) -> (checked: Result<(), ExtensionError>)
    ensures
        match checked {
            Ok(()) => version == EXTENSION_SCHEMA_VERSION,
            Err(error) => version != EXTENSION_SCHEMA_VERSION && error@ == invalid_request(
                "unsupported extension storage schema "@ + crate::text::decimal_text(
                    version as nat,
                ),
            ),
        },
{
    if version != EXTENSION_SCHEMA_VERSION {
        Err(
            invalid(
                join2(
                    "unsupported extension storage schema ",
                    decimal(version as u64).as_str(),
                ),
            ),
        )
    } else {
        Ok(())
    }
}

/// Checks the size of a file that is to be written.
pub fn check_encoded_size(bytes: usize, quota_bytes: u64) -> (checked: Result<(), ExtensionError>)
    ensures
        match checked {
            Ok(()) => bytes <= MAX_FILE_BYTES && bytes <= quota_bytes,
            Err(error) => (bytes > MAX_FILE_BYTES || bytes > quota_bytes) && error@
                == quota_exceeded(
                "encoded extension storage uses "@ + crate::text::decimal_text(bytes as nat)
                    + " bytes; quota is "@ + crate::text::decimal_text(quota_bytes as nat),
            ),
        },
{
    if bytes > MAX_FILE_BYTES || bytes as u64 > quota_bytes {
        Err(
            over_quota(
                join4(
                    "encoded extension storage uses ",
                    decimal(bytes as u64).as_str(),
                    " bytes; quota is ",
                    decimal(quota_bytes).as_str(),
                ),
            ),
        )
    } else {
        Ok(())
    }
}

/// What an extension keeps for one document is in another file than what it
/// keeps for another document, or what it keeps as settings.
pub proof fn law_documents_do_not_share_files(
    document: Seq<char>,
    other: Seq<char>,
    extension: Seq<char>,
    other_extension: Seq<char>,
)
    requires
        document != other,
    ensures
        path_of(Some(document), extension, StorageArea::Document) != path_of(
            Some(other),
            other_extension,
            StorageArea::Document,
        ),
        path_of(Some(document), extension, StorageArea::Document) != path_of(
            Some(other),
            other_extension,
            StorageArea::Settings,
        ),
{
    let a = seq!["documents"@, document, extension + ".json"@];
    let b = seq!["documents"@, other, other_extension + ".json"@];
    let c = seq!["settings"@, other_extension + ".json"@];
    assert(a[1] != b[1]);
    assert(a.len() != c.len());
}

/// Extensions with different names keep their files apart.
pub proof fn law_extensions_do_not_share_files(
    document: Option<Seq<char>>,
    extension: Seq<char>,
    other: Seq<char>,
    area: StorageArea,
)
    requires
        extension != other,
        path_of(document, extension, area) is Ok,
    ensures
        path_of(document, extension, area) != path_of(document, other, area),
{
    let a = path_of(document, extension, area)->Ok_0;
    let b = path_of(document, other, area)->Ok_0;
    if a == b {
        assert(a.last() == extension + ".json"@);
        assert(b.last() == other + ".json"@);
        assert(extension.len() == other.len());
        assert forall|i: int| 0 <= i < extension.len() implies extension[i] == other[i] by {
            assert((extension + ".json"@)[i] == (other + ".json"@)[i]);
        }
        assert(extension =~= other);
    }
}

/// Settings are the same whatever document is open.
pub proof fn law_settings_do_not_depend_on_the_document(
    document: Option<Seq<char>>,
    other: Option<Seq<char>>,
    extension: Seq<char>,
)
    ensures
        path_of(document, extension, StorageArea::Settings) == path_of(
            other,
            extension,
            StorageArea::Settings,
        ),
{
}

/// The names that are made from digests are accepted as names of storages.
pub proof fn law_digests_make_accepted_namespaces(name: Seq<char>)
    requires
        name.len() == 64,
        forall|i: int|
            0 <= i < name.len() ==> crate::store::digest::is_hex_digit(#[trigger] name[i]),
    ensures
        is_namespace(name),
{
    assert(vstd::utf8::is_ascii_chars(name));
    vstd::utf8::is_ascii_chars_encode_utf8(name);
}

/// A key is accepted if and only if it has a character and takes no more than 256 bytes, is
/// ASCII, begins with no dot and has neither two dots in a row nor a slash or backslash: it
/// cannot lead anywhere.
pub proof fn law_keys_lead_nowhere(key: Seq<char>)
    ensures
        is_storage_key(key) <==> {
            &&& 0 < key.len()
            &&& crate::text::utf8_len(key) <= 256
            &&& key[0] != '.'
            &&& forall|i: int|
                0 <= i < key.len() ==> (#[trigger] key[i]) as u32 <= 0x7f && key[i] != '/' && key[i]
                    != '\\' && (key[i] == '.' && i + 1 < key.len() ==> key[i + 1] != '.')
        },
{
    if is_storage_key(key) {
        assert forall|i: int| 0 <= i < key.len() implies (#[trigger] key[i]) as u32 <= 0x7f && key[i]
            != '/' && key[i] != '\\' && (key[i] == '.' && i + 1 < key.len() ==> key[i + 1]
            != '.') by {
            assert(!dots_at(key, i));
        }
    }
    if forall|i: int|
        0 <= i < key.len() ==> (#[trigger] key[i]) as u32 <= 0x7f && key[i] != '/' && key[i]
            != '\\' && (key[i] == '.' && i + 1 < key.len() ==> key[i + 1] != '.') {
        assert forall|i: int| !#[trigger] dots_at(key, i) by {
            if 0 <= i < key.len() - 1 {
                assert(key[i] == key[i]);
            }
        }
    }
}

/// The storage of a document has a name if and only if it is made of letters, digits,
/// hyphens and underscores, up to 128 of them.
pub proof fn law_namespaces_are_plain_names(text: Seq<char>)
    ensures
        is_namespace(text) <==> {
            &&& 0 < text.len()
            &&& crate::text::utf8_len(text) <= 128
            &&& forall|i: int|
                0 <= i < text.len() ==> {
                    let c = #[trigger] text[i];
                    ('a' <= c && c <= 'z') || ('A' <= c && c <= 'Z') || ('0' <= c && c <= '9') || c
                        == '-' || c == '_'
                }
        },
{
    if is_namespace(text) {
        assert forall|i: int| 0 <= i < text.len() implies {
            let c = #[trigger] text[i];
            ('a' <= c && c <= 'z') || ('A' <= c && c <= 'Z') || ('0' <= c && c <= '9') || c == '-'
                || c == '_'
        } by {
            assert(is_namespace_char(text[i]));
        }
    }
}

/// A value counts by what it holds: numbers eight, truth values and nothing one, texts their
/// bytes, and lists and records the sum of what is in them, names included.
pub proof fn law_values_count_what_they_hold(
    values: Seq<DataValue>,
    fields: Seq<(String, DataValue)>,
    value: DataValue,
    name: String,
)
    ensures
        list_size(values.push(value)) == list_size(values) + data_size(value),
        record_size(fields.push((name, value))) == record_size(fields) + crate::text::utf8_len(
            name@,
        ) + data_size(value),
        list_size(Seq::empty()) == 0,
        record_size(Seq::empty()) == 0,
        match value {
            DataValue::Null => data_size(value) == 1,
            DataValue::Boolean(_) => data_size(value) == 1,
            DataValue::Integer(_) => data_size(value) == 8,
            DataValue::Number(_) => data_size(value) == 8,
            DataValue::String(text) => data_size(value) == crate::text::utf8_len(text@),
            DataValue::List(inner) => data_size(value) == list_size(inner@),
            DataValue::Record(inner) => data_size(value) == record_size(inner@),
        },
{
    let more = values.push(value);
    assert(more.subrange(0, more.len() - 1) =~= values);
    let wider = fields.push((name, value));
    assert(wider.subrange(0, wider.len() - 1) =~= fields);
}

/// What an extension uses is what its values and their keys count, and no value of another
/// extension counts for it.
pub proof fn law_extensions_pay_for_their_own_values(
    entries: Seq<(EntryKey, DataValue)>,
    key: EntryKey,
    value: DataValue,
    owner: Seq<char>,
)
    ensures
        used_by(entries.push((key, value)), owner) == used_by(entries, owner) + if key.owner@
            == owner {
            crate::text::utf8_len(key.key@) + data_size(value)
        } else {
            0
        },
        used_by(Seq::empty(), owner) == 0,
{
    assert(entries.push((key, value)).drop_last() =~= entries);
}

/// A value that was put is what a read of the same extension under the same key gives until
/// it is changed, and what others read, or under other keys, stays as it was. It is refused
/// only where it does not fit the quota.
pub proof fn law_put_values_are_read_again(
    before: EphemeralValues,
    later: EphemeralValues,
    extension: ExtensionId,
    key: &str,
    value: DataValue,
    quota_bytes: u64,
    reader: ExtensionId,
    other: &str,
    read: DataValue,
)
    requires
        call_ensures(EphemeralValues::get, (&later, &reader, other), read),
    ensures
        forall|values: &mut EphemeralValues, kept: Result<(), ExtensionError>| #[trigger]
            call_ensures(
                EphemeralValues::put,
                (values, &extension, key, value, quota_bytes),
                kept,
            ) && *values == before && *final(values) == later ==> {
                let same = reader.0@ == extension.0@ && other@ == key@;
                &&& kept is Ok && same ==> read@ == value@
                &&& kept is Err && same ==> read@ == DataView::Null
                &&& !same && before@.contains_key((reader.0@, other@)) ==> read@
                    == before@[(reader.0@, other@)]@
                &&& !same && !before@.contains_key((reader.0@, other@)) ==> read@ == DataView::Null
            },
{
    assert((reader.0@, other@) == (extension.0@, key@) <==> reader.0@ == extension.0@ && other@
        == key@);
}

/// Settings and documents have files of their own, what is gone when the application ends
/// has none, and what belongs to a document has one only under a document.
pub proof fn law_areas_have_their_files(document: Option<Seq<char>>, extension: Seq<char>)
    ensures
        path_of(document, extension, StorageArea::Settings) matches Ok(path) && path.len() == 2
            && path[0] == "settings"@ && path[1] == extension + ".json"@,
        path_of(document, extension, StorageArea::EphemeralCache) is Err,
        path_of(document, extension, StorageArea::Document) is Ok <==> document is Some,
        path_of(document, extension, StorageArea::Document) matches Ok(path) ==> path.len() == 3
            && path[0] == "documents"@ && Some(path[1]) == document && path[2] == extension
            + ".json"@,
{
}

/// A value that was put into a file is what is read from it under the key, and what stands
/// under other keys stays; what was deleted reads as nothing.
pub proof fn law_file_values_are_read_again(
    before: FileValues,
    later: FileValues,
    key: &str,
    value: DataValue,
    other: &str,
    read: DataValue,
)
    requires
        call_ensures(FileValues::get, (&later, other), read),
    ensures
        forall|values: &mut FileValues| #[trigger]
            call_ensures(FileValues::put, (values, key, value), ()) && *values == before && *final(values) == later ==> {
                &&& other@ == key@ ==> read@ == value@
                &&& other@ != key@ && before@.contains_key(other@) ==> read@ == before@[other@]@
                &&& other@ != key@ && !before@.contains_key(other@) ==> read@ == DataView::Null
            },
        forall|values: &mut FileValues| #[trigger]
            call_ensures(FileValues::delete, (values, key), ()) && *values == before && *final(values) == later ==> {
                &&& other@ == key@ ==> read@ == DataView::Null
                &&& other@ != key@ && before@.contains_key(other@) ==> read@ == before@[other@]@
            },
{
}

/// A file is read up to sixteen mebibytes and if it is of version one, and written up to
/// that and up to the quota.
pub proof fn law_extension_files_are_bounded(
    bytes: usize,
    quota: u64,
    version: u16,
    readable: Result<(), ExtensionError>,
    known: Result<(), ExtensionError>,
    writable: Result<(), ExtensionError>,
)
    requires
        call_ensures(check_file_size, (bytes as u64,), readable),
        call_ensures(check_file_schema, (version,), known),
        call_ensures(check_encoded_size, (bytes, quota), writable),
    ensures
        readable is Ok <==> bytes <= 16 * 1_024 * 1_024,
        known is Ok <==> version == 1,
        writable is Ok <==> bytes <= 16 * 1_024 * 1_024 && bytes <= quota,
{
}

/// To clear an area of an extension forgets what that extension keeps there, and nothing of
/// another extension or area.
pub proof fn law_clearing_forgets_one_extension(
    before: ExtensionStorageState,
    scope: JsonExtensionStorageScope,
    extension: ExtensionId,
    area: StorageArea,
    owner: Seq<char>,
    key: Seq<char>,
)
    ensures
        forall|state: &mut ExtensionStorageState, file: Option<StoragePath>| #[trigger]
            call_ensures(
                ExtensionStorageState::clear_area,
                (state, &scope, &extension, area),
                file,
            ) && *state == before ==> {
                &&& area is EphemeralCache ==> file is None && (final(state).values()@.contains_key((owner, key)) <==> before.values()@.contains_key(
                    (owner, key),
                ) && owner != extension.0@)
                &&& !(area is EphemeralCache) ==> final(state).values() == before.values()
                &&& area is Settings ==> file is Some
                &&& area is Document ==> (file is Some <==> scope.namespace() is Some)
                &&& final(state).selection() == before.selection()
            },
{
}

/// Another document is selected only under a name that its storage may have; what is kept
/// stays.
pub proof fn law_selecting_keeps_what_is_kept(before: ExtensionStorageState, name: String)
    ensures
        forall|state: &mut ExtensionStorageState, selected: Result<(), ExtensionError>| #[trigger]
            call_ensures(ExtensionStorageState::select_document, (state, Some(name)), selected)
                && *state == before ==> {
                &&& selected is Ok <==> is_namespace(name@)
                &&& selected is Ok ==> final(state).selection() == Some(name@)
                &&& selected is Err ==> final(state).selection() == before.selection()
                &&& final(state).values() == before.values()
            },
{
}

} // verus!
