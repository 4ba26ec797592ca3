//! Which revision of a document something belongs to.

use crate::store::digest::content_digest;
use crate::store::error::{StoreError, StoreErrorView};
use crate::store::source_path::{PlaceView, SourcePath};
use vstd::prelude::*;

verus! {

/// Nanoseconds in a second.
pub const NANOS_PER_SECOND: u32 = 1_000_000_000;

/// The revision of a document: its size, when it was changed last, how many
/// pages it has and, where it was read, the digest of its bytes.
#[derive(Clone, Debug, PartialEq, Eq, Hash)]
pub struct DocumentIdentity {
    byte_len: u64,
    modified_unix_seconds: i64,
    modified_nanos: u32,
    page_count: usize,
    content_sha256: Option<[u8; 32]>,
}

/// A [`DocumentIdentity`] with its digest as a sequence of bytes.
pub struct IdentityView {
    pub byte_len: u64,
    pub modified_unix_seconds: i64,
    pub modified_nanos: u32,
    pub page_count: usize,
    pub content_sha256: Option<Seq<u8>>,
}

impl IdentityView {
    /// The size, the time and the number of pages are those of another.
    pub open spec fn same_metadata(self, other: IdentityView) -> bool {
        &&& self.byte_len == other.byte_len
        &&& self.modified_unix_seconds == other.modified_unix_seconds
        &&& self.modified_nanos == other.modified_nanos
        &&& self.page_count == other.page_count
    }

    /// The same document: by its bytes where both digests are known, and by its
    /// size, time and pages where one is not.
    pub open spec fn same_revision(self, other: IdentityView) -> bool {
        match (self.content_sha256, other.content_sha256) {
            (Some(left), Some(right)) => self.byte_len == other.byte_len && self.page_count
                == other.page_count && left == right,
            _ => self.same_metadata(other),
        }
    }
}

impl View for DocumentIdentity {
    type V = IdentityView;

    closed spec fn view(&self) -> IdentityView {
        IdentityView {
            byte_len: self.byte_len,
            modified_unix_seconds: self.modified_unix_seconds,
            modified_nanos: self.modified_nanos,
            page_count: self.page_count,
            content_sha256: match self.content_sha256 {
                Some(digest) => Some(digest@),
                None => None,
            },
        }
    }
}

fn same_digest(a: &[u8; 32], b: &[u8; 32]) -> (same: bool)
    ensures
        same == (a@ == b@),
{
    let mut i: usize = 0;
    while i < 32
        invariant
            i <= 32,
            forall|j: int| 0 <= j < i ==> a@[j] == b@[j],
        decreases 32 - i,
    {
        if a[i] != b[i] {
            return false;
        }
        i += 1;
    }
    assert(a@ =~= b@);
    true
}

/// The metadata of a file: its size and when it was changed last.
#[derive(Clone, Copy, Debug, PartialEq, Eq, Structural)]
pub struct FileRevision {
    pub byte_len: u64,
    pub modified_unix_seconds: i64,
    pub modified_nanos: u32,
}

/// A time by its distance from the start of 1970 cannot be written down.
pub open spec fn out_of_time(before_epoch: bool, seconds: u64, nanos: u32) -> bool {
    seconds > i64::MAX || (before_epoch && nanos > 0 && seconds == i64::MAX)
}

/// A time by its distance from the start of 1970, as whole seconds that may be
/// negative and nanoseconds that are not.
pub fn time_parts(before_epoch: bool, seconds: u64, nanos: u32) -> (parts: Result<
    (i64, u32),
    StoreError,
>)
    requires
        nanos < NANOS_PER_SECOND,
    ensures
        match parts {
            Ok((whole, part)) => {
                &&& !out_of_time(before_epoch, seconds, nanos)
                &&& part < NANOS_PER_SECOND
                &&& whole * NANOS_PER_SECOND + part == if before_epoch {
                    -(seconds * NANOS_PER_SECOND + nanos)
                } else {
                    seconds * NANOS_PER_SECOND + nanos
                }
            },
            Err(error) => out_of_time(before_epoch, seconds, nanos) && error@
                == StoreErrorView::InvalidDocumentIdentity,
        },
{
    if seconds > i64::MAX as u64 {
        return Err(StoreError::InvalidDocumentIdentity);
    }
    if !before_epoch {
        return Ok((seconds as i64, nanos));
    }
    if nanos == 0 {
        return Ok((-(seconds as i64), 0));
    }
    if seconds == i64::MAX as u64 {
        return Err(StoreError::InvalidDocumentIdentity);
    }
    let whole: i64 = -(seconds as i64 + 1);
    Ok((whole, NANOS_PER_SECOND - nanos))
}

impl DocumentIdentity {
    /// An identity without a digest.
    pub fn new(
        byte_len: u64,
        modified_unix_seconds: i64,
        modified_nanos: u32,
        page_count: usize,
    ) -> (identity: Result<DocumentIdentity, StoreError>)
        ensures
            match identity {
                Ok(identity) => modified_nanos < NANOS_PER_SECOND && identity@ == (IdentityView {
                    byte_len,
                    modified_unix_seconds,
                    modified_nanos,
                    page_count,
                    content_sha256: None,
                }),
                Err(error) => modified_nanos >= NANOS_PER_SECOND && error@
                    == StoreErrorView::InvalidDocumentIdentity,
            },
    {
        if modified_nanos >= NANOS_PER_SECOND {
            return Err(StoreError::InvalidDocumentIdentity);
        }
        Ok(
            DocumentIdentity {
                byte_len,
                modified_unix_seconds,
                modified_nanos,
                page_count,
                content_sha256: None,
            },
        )
    }

    /// An identity with a digest.
    pub fn new_with_content_sha256(
        byte_len: u64,
        modified_unix_seconds: i64,
        modified_nanos: u32,
        page_count: usize,
        content_sha256: [u8; 32],
    ) -> (identity: Result<DocumentIdentity, StoreError>)
        ensures
            match identity {
                Ok(identity) => modified_nanos < NANOS_PER_SECOND && identity@ == (IdentityView {
                    byte_len,
                    modified_unix_seconds,
                    modified_nanos,
                    page_count,
                    content_sha256: Some(content_sha256@),
                }),
                Err(error) => modified_nanos >= NANOS_PER_SECOND && error@
                    == StoreErrorView::InvalidDocumentIdentity,
            },
    {
        match DocumentIdentity::new(byte_len, modified_unix_seconds, modified_nanos, page_count) {
            Ok(identity) => Ok(
                DocumentIdentity { content_sha256: Some(content_sha256), ..identity },
            ),
            Err(error) => Err(error),
        }
    }

    /// The identity of a file whose bytes were read between two looks at its
    /// metadata. A file that changed meanwhile has none.
    pub fn of_settled_file(
        before: FileRevision,
        after: FileRevision,
        page_count: usize,
        content_sha256: [u8; 32],
    ) -> (identity: Result<DocumentIdentity, StoreError>)
        ensures
            match identity {
                Ok(identity) => {
                    &&& before == after
                    &&& after.modified_nanos < NANOS_PER_SECOND
                    &&& identity@ == (IdentityView {
                        byte_len: after.byte_len,
                        modified_unix_seconds: after.modified_unix_seconds,
                        modified_nanos: after.modified_nanos,
                        page_count,
                        content_sha256: Some(content_sha256@),
                    })
                },
                Err(error) => (before != after || after.modified_nanos >= NANOS_PER_SECOND)
                    && error@ == StoreErrorView::InvalidDocumentIdentity,
            },
    {
        if before != after {
            return Err(StoreError::InvalidDocumentIdentity);
        }
        DocumentIdentity::new_with_content_sha256(
            after.byte_len,
            after.modified_unix_seconds,
            after.modified_nanos,
            page_count,
            content_sha256,
        )
    }

    /// The identity of a file whose bytes, all of them, were read between two looks at
    /// its metadata. A file that changed meanwhile has none.
    pub fn of_settled_bytes(
        before: FileRevision,
        after: FileRevision,
        page_count: usize,
        bytes: &Vec<u8>,
    ) -> (identity: Result<DocumentIdentity, StoreError>)
        ensures
            match identity {
                Ok(identity) => {
                    &&& before == after
                    &&& after.modified_nanos < NANOS_PER_SECOND
                    &&& identity@ == (IdentityView {
                        byte_len: after.byte_len,
                        modified_unix_seconds: after.modified_unix_seconds,
                        modified_nanos: after.modified_nanos,
                        page_count,
                        content_sha256: Some(crate::store::digest::sha256_of(bytes@)),
                    })
                },
                Err(error) => (before != after || after.modified_nanos >= NANOS_PER_SECOND)
                    && error@ == StoreErrorView::InvalidDocumentIdentity,
            },
    {
        DocumentIdentity::of_settled_file(before, after, page_count, content_digest(bytes))
    }

    /// The size of the document.
    pub fn byte_len(&self) -> (byte_len: u64)
        ensures
            byte_len == self@.byte_len,
    {
        self.byte_len
    }

    /// When it was changed last, in seconds from the start of 1970.
    pub fn modified_unix_seconds(&self) -> (seconds: i64)
        ensures
            seconds == self@.modified_unix_seconds,
    {
        self.modified_unix_seconds
    }

    /// The nanoseconds after those seconds.
    pub fn modified_nanos(&self) -> (nanos: u32)
        ensures
            nanos == self@.modified_nanos,
    {
        self.modified_nanos
    }

    /// How many pages it has.
    pub fn page_count(&self) -> (page_count: usize)
        ensures
            page_count == self@.page_count,
    {
        self.page_count
    }

    /// The digest of its bytes.
    pub fn content_sha256(&self) -> (digest: Option<&[u8; 32]>)
        ensures
            match digest {
                Some(digest) => self@.content_sha256 == Some(digest@),
                None => self@.content_sha256 is None,
            },
    {
        match &self.content_sha256 {
            Some(digest) => Some(digest),
            None => None,
        }
    }

    /// Whether both are of the same document.
    pub fn same_revision(&self, other: &DocumentIdentity) -> (same: bool)
        ensures
            same == self@.same_revision(other@),
    {
        match (&self.content_sha256, &other.content_sha256) {
            (Some(left), Some(right)) => self.byte_len == other.byte_len && self.page_count
                == other.page_count && same_digest(left, right),
            _ => self.same_metadata_revision(other),
        }
    }

    /// Whether size, time and pages are the same.
    pub fn same_metadata_revision(&self, other: &DocumentIdentity) -> (same: bool)
        ensures
            same == self@.same_metadata(other@),
    {
        self.byte_len == other.byte_len && self.modified_unix_seconds
            == other.modified_unix_seconds && self.modified_nanos == other.modified_nanos
            && self.page_count == other.page_count
    }

    /// Whether everything is the same.
    pub fn same(&self, other: &DocumentIdentity) -> (same: bool)
        ensures
            same == (self@ == other@),
    {
        let same_content = match (&self.content_sha256, &other.content_sha256) {
            (Some(left), Some(right)) => same_digest(left, right),
            (None, None) => true,
            _ => false,
        };
        self.same_metadata_revision(other) && same_content
    }

    /// The same identity once more.
    pub fn copy(&self) -> (copy: DocumentIdentity)
        ensures
            copy@ == self@,
    {
        DocumentIdentity {
            byte_len: self.byte_len,
            modified_unix_seconds: self.modified_unix_seconds,
            modified_nanos: self.modified_nanos,
            page_count: self.page_count,
            content_sha256: self.content_sha256,
        }
    }
}

/// Where a document is, and which revision of it is meant. Two are equal where both
/// are; a path may be spelled in more than one way.
#[derive(Clone, Debug, PartialEq, Eq, Hash)]
pub struct DocumentKey {
    source_path: SourcePath,
    identity: DocumentIdentity,
}

impl DocumentKey {
    /// The path as it was spelled.
    pub closed spec fn spec_path(&self) -> Seq<u8> {
        self.source_path.spelling()
    }

    /// The place that the path leads to.
    pub open spec fn spec_place(&self) -> PlaceView {
        crate::store::source_path::place_of(self.spec_path())
    }

    /// The revision.
    pub closed spec fn spec_identity(&self) -> IdentityView {
        self.identity@
    }

    /// A document by its path and revision.
    pub fn new(source_path: Vec<u8>, identity: DocumentIdentity) -> (key: DocumentKey)
        ensures
            key.spec_path() == source_path@,
            key.spec_identity() == identity@,
    {
        DocumentKey { source_path: SourcePath::new(source_path), identity }
    }

    /// The path as it was spelled.
    pub fn source_path(&self) -> (path: &Vec<u8>)
        ensures
            path@ == self.spec_path(),
    {
        self.source_path.bytes()
    }

    /// The place that the path leads to.
    pub fn place(&self) -> (place: &SourcePath)
        ensures
            place@ == self.spec_place(),
    {
        &self.source_path
    }

    /// The revision.
    pub fn identity(&self) -> (identity: &DocumentIdentity)
        ensures
            identity@ == self.spec_identity(),
    {
        &self.identity
    }
}

/// Sameness of revisions goes both ways, and every identity is of the same
/// revision as itself.
pub proof fn law_same_revision_is_symmetric(a: IdentityView, b: IdentityView)
    ensures
        a.same_revision(a),
        a.same_revision(b) == b.same_revision(a),
{
}

/// With both digests known a touch of the file alone makes no new revision.
pub proof fn law_touching_keeps_the_revision(a: IdentityView, b: IdentityView)
    requires
        a.content_sha256 is Some,
        a.content_sha256 == b.content_sha256,
        a.byte_len == b.byte_len,
        a.page_count == b.page_count,
    ensures
        a.same_revision(b),
{
}

/// Where one of two digests is not known, two identities are of the same revision if and
/// only if the sizes, the times of the last change to the nanosecond and the numbers of
/// pages are equal.
pub proof fn law_metadata_decides_without_digests(a: IdentityView, b: IdentityView)
    requires
        a.content_sha256 is None || b.content_sha256 is None,
    ensures
        a.same_revision(b) <==> {
            &&& a.byte_len == b.byte_len
            &&& a.modified_unix_seconds == b.modified_unix_seconds
            &&& a.modified_nanos == b.modified_nanos
            &&& a.page_count == b.page_count
        },
{
}

/// Where both digests are known, two identities are of the same revision if and only if
/// digests, sizes and numbers of pages are equal, whenever the files were changed last.
pub proof fn law_digests_decide_where_both_are_known(a: IdentityView, b: IdentityView)
    requires
        a.content_sha256 is Some,
        b.content_sha256 is Some,
    ensures
        a.same_revision(b) <==> {
            &&& a.content_sha256 == b.content_sha256
            &&& a.byte_len == b.byte_len
            &&& a.page_count == b.page_count
        },
{
}

/// The same time is told by the same parts: two distances from the start of 1970 on the
/// same side that are told alike are equal, and one that is longer is told as later after
/// 1970 and as earlier before it.
pub proof fn law_times_are_told_in_their_order(
    before_epoch: bool,
    a_seconds: u64,
    a_nanos: u32,
    a: (i64, u32),
    b_seconds: u64,
    b_nanos: u32,
    b: (i64, u32),
)
    requires
        a_nanos < 1_000_000_000,
        b_nanos < 1_000_000_000,
        call_ensures(time_parts, (before_epoch, a_seconds, a_nanos), Ok(a)),
        call_ensures(time_parts, (before_epoch, b_seconds, b_nanos), Ok(b)),
    ensures
        a == b <==> a_seconds == b_seconds && a_nanos == b_nanos,
        a_seconds < b_seconds || (a_seconds == b_seconds && a_nanos < b_nanos) ==> if before_epoch {
            b.0 < a.0 || (b.0 == a.0 && b.1 < a.1)
        } else {
            a.0 < b.0 || (a.0 == b.0 && a.1 < b.1)
        },
        !before_epoch ==> a.0 == a_seconds && a.1 == a_nanos,
        a.1 < 1_000_000_000,
        before_epoch ==> a.0 * 1_000_000_000 + a.1 == -(a_seconds * 1_000_000_000 + a_nanos),
{
}

/// An identity is accepted if and only if its nanoseconds are less than a second, with or
/// without a digest, and has all that it was given.
pub proof fn law_identities_are_made_of_their_parts(
    byte_len: u64,
    seconds: i64,
    nanos: u32,
    page_count: usize,
    digest: [u8; 32],
    plain: Result<DocumentIdentity, StoreError>,
    digested: Result<DocumentIdentity, StoreError>,
)
    requires
        call_ensures(DocumentIdentity::new, (byte_len, seconds, nanos, page_count), plain),
        call_ensures(
            DocumentIdentity::new_with_content_sha256,
            (byte_len, seconds, nanos, page_count, digest),
            digested,
        ),
    ensures
        plain is Ok <==> nanos < 1_000_000_000,
        digested is Ok <==> nanos < 1_000_000_000,
        plain matches Ok(identity) ==> identity@.byte_len == byte_len
            && identity@.modified_unix_seconds == seconds && identity@.modified_nanos == nanos
            && identity@.page_count == page_count && identity@.content_sha256 is None,
        digested matches Ok(identity) ==> identity@.byte_len == byte_len
            && identity@.modified_unix_seconds == seconds && identity@.modified_nanos == nanos
            && identity@.page_count == page_count && identity@.content_sha256 == Some(digest@),
{
}

/// A file that changed while its bytes were read has no identity; one that did not has the
/// digest of those bytes.
pub proof fn law_changed_files_have_no_identity(
    before: FileRevision,
    after: FileRevision,
    page_count: usize,
    bytes: Vec<u8>,
    identity: Result<DocumentIdentity, StoreError>,
)
    requires
        call_ensures(
            DocumentIdentity::of_settled_bytes,
            (before, after, page_count, &bytes),
            identity,
        ),
    ensures
        identity is Ok ==> before.byte_len == after.byte_len && before.modified_unix_seconds
            == after.modified_unix_seconds && before.modified_nanos == after.modified_nanos,
        before == after && after.modified_nanos < 1_000_000_000 ==> identity is Ok,
        identity matches Ok(identity) ==> identity@.content_sha256 == Some(
            crate::store::digest::sha256_of(bytes@),
        ) && identity@.byte_len == after.byte_len && identity@.page_count == page_count,
{
}

} // verus!
