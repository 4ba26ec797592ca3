//! Digests of documents, and names that are made from them.

use crate::store::identity::{DocumentIdentity, DocumentKey, IdentityView};
use sha2::Digest;
use vstd::prelude::*;

verus! {

/// The SHA-256 digest of bytes.
pub uninterp spec fn sha256_of(bytes: Seq<u8>) -> Seq<u8>;

/// The digest of bytes, by `sha2::Sha256::digest`. The result is named, not
/// described: it depends on the bytes alone and has 32 bytes.
#[verifier::external_body]
fn sha256(bytes: &[u8]) -> (digest: [u8; 32])
    ensures
        digest@ == sha256_of(bytes@),
{
    sha2::Sha256::digest(bytes).into()
}

/// The digest of the bytes of a document.
pub fn content_digest(bytes: &Vec<u8>) -> (digest: [u8; 32])
    ensures
        digest@ == sha256_of(bytes@),
{
    sha256(bytes.as_slice())
}

/// The hexadecimal digit of a number below sixteen.
pub open spec fn hex_digit(value: u8) -> char {
    if value < 10 {
        (48 + value) as char
    } else {
        (87 + value) as char
    }
}

/// Bytes in hexadecimal, two digits each.
pub open spec fn hex_text(bytes: Seq<u8>) -> Seq<char>
    decreases bytes.len(),
{
    if bytes.len() == 0 {
        Seq::empty()
    } else {
        hex_text(bytes.drop_last()) + seq![
            hex_digit(bytes.last() / 16),
            hex_digit(bytes.last() % 16),
        ]
    }
}

fn hex_char(value: u8) -> (c: char)
    requires
        value < 16,
    ensures
        c == hex_digit(value),
{
    if value < 10 {
        (48u8 + value) as char
    } else {
        (87u8 + value) as char
    }
}

/// Writes bytes in hexadecimal.
pub fn hex(bytes: &[u8]) -> (text: String)
    ensures
        text@ == hex_text(bytes@),
{
    let mut text = String::new();
    let mut i: usize = 0;
    assert(bytes@.take(0) =~= Seq::empty());
    while i < bytes.len()
        invariant
            i <= bytes@.len(),
            text@ == hex_text(bytes@.take(i as int)),
        decreases bytes@.len() - i,
    {
        assert(bytes@.take(i + 1).drop_last() =~= bytes@.take(i as int));
        text.push(hex_char(bytes[i] / 16));
        text.push(hex_char(bytes[i] % 16));
        assert(text@ =~= hex_text(bytes@.take(i as int)) + seq![
            hex_digit(bytes@[i as int] / 16),
            hex_digit(bytes@[i as int] % 16),
        ]);
        i += 1;
    }
    assert(bytes@.take(bytes@.len() as int) =~= bytes@);
    text
}

/// Seconds that may be negative as the number with the same bits.
pub open spec fn seconds_bits(seconds: i64) -> u64 {
    if seconds < 0 {
        (seconds + 0x1_0000_0000_0000_0000) as u64
    } else {
        seconds as u64
    }
}

fn bits_of_seconds(seconds: i64) -> (bits: u64)
    ensures
        bits == seconds_bits(seconds),
{
    if seconds < 0 {
        (seconds as i128 + 0x1_0000_0000_0000_0000) as u64
    } else {
        seconds as u64
    }
}

/// What the name of a document's own storage is made from: its path after the
/// path's length, and then its size, time and pages, all little-endian.
pub open spec fn namespace_bytes(path: Seq<u8>, identity: IdentityView) -> Seq<u8> {
    vstd::bytes::spec_u64_to_le_bytes(path.len() as u64) + path
        + vstd::bytes::spec_u64_to_le_bytes(identity.byte_len)
        + vstd::bytes::spec_u64_to_le_bytes(seconds_bits(identity.modified_unix_seconds))
        + vstd::bytes::spec_u32_to_le_bytes(identity.modified_nanos)
        + vstd::bytes::spec_u64_to_le_bytes(identity.page_count as u64)
}

/// What the name of a document's own storage is made from.
pub fn namespace_input(document: &DocumentKey) -> (input: Vec<u8>)
    ensures
        input@ == namespace_bytes(document.spec_path(), document.spec_identity()),
{
    let identity: &DocumentIdentity = document.identity();
    let path = document.source_path();
    let mut input = vstd::bytes::u64_to_le_bytes(path.len() as u64);
    let mut path_copy: Vec<u8> = Vec::new();
    path_copy.extend_from_slice(path.as_slice());
    assert(path_copy@ =~= path@);
    input.append(&mut path_copy);
    let mut byte_len = vstd::bytes::u64_to_le_bytes(identity.byte_len());
    input.append(&mut byte_len);
    let mut seconds = vstd::bytes::u64_to_le_bytes(
        bits_of_seconds(identity.modified_unix_seconds()),
    );
    input.append(&mut seconds);
    let mut nanos = vstd::bytes::u32_to_le_bytes(identity.modified_nanos());
    input.append(&mut nanos);
    let mut pages = vstd::bytes::u64_to_le_bytes(identity.page_count() as u64);
    input.append(&mut pages);
    input
}

/// The name under which extensions keep what belongs to a document.
pub fn extension_document_namespace(document: &DocumentKey) -> (namespace: String)
    ensures
        namespace@ == hex_text(
            sha256_of(namespace_bytes(document.spec_path(), document.spec_identity())),
        ),
        namespace@.len() == 64,
        forall|i: int|
            0 <= i < namespace@.len() ==> crate::store::digest::is_hex_digit(
                #[trigger] namespace@[i],
            ),
{
    let input = namespace_input(document);
    let digest = sha256(input.as_slice());
    proof {
        lemma_hex_is_digits(digest@);
    }
    hex(&digest)
}

/// A hexadecimal digit.
pub open spec fn is_hex_digit(c: char) -> bool {
    '0' <= c <= '9' || 'a' <= c <= 'f'
}

proof fn lemma_hex_is_digits(bytes: Seq<u8>)
    ensures
        hex_text(bytes).len() == 2 * bytes.len(),
        forall|i: int| 0 <= i < hex_text(bytes).len() ==> is_hex_digit(#[trigger] hex_text(bytes)[i]),
    decreases bytes.len(),
{
    if bytes.len() > 0 {
        lemma_hex_is_digits(bytes.drop_last());
        let front = hex_text(bytes.drop_last());
        assert forall|i: int| 0 <= i < hex_text(bytes).len() implies is_hex_digit(
            #[trigger] hex_text(bytes)[i],
        ) by {
            if i < front.len() {
                assert(hex_text(bytes)[i] == front[i]);
            }
        }
    }
}

/// The names of two documents are made from the same bytes only where path,
/// size, time and pages agree.
pub proof fn law_namespaces_tell_documents_apart(
    path: Seq<u8>,
    identity: IdentityView,
    other_path: Seq<u8>,
    other: IdentityView,
)
    requires
        path.len() <= u64::MAX,
        other_path.len() <= u64::MAX,
        namespace_bytes(path, identity) == namespace_bytes(other_path, other),
    ensures
        path == other_path,
        identity.same_metadata(other),
{
    let a = namespace_bytes(path, identity);
    let b = namespace_bytes(other_path, other);
    vstd::bytes::lemma_auto_spec_u64_to_from_le_bytes();
    vstd::bytes::lemma_auto_spec_u32_to_from_le_bytes();
    let n = path.len() as int;
    let m = other_path.len() as int;
    assert(a.take(8) =~= vstd::bytes::spec_u64_to_le_bytes(path.len() as u64));
    assert(b.take(8) =~= vstd::bytes::spec_u64_to_le_bytes(other_path.len() as u64));
    assert(n == m);
    assert(a.subrange(8, 8 + n) =~= path);
    assert(b.subrange(8, 8 + n) =~= other_path);
    assert(a.subrange(8 + n, 16 + n) =~= vstd::bytes::spec_u64_to_le_bytes(identity.byte_len));
    assert(b.subrange(8 + n, 16 + n) =~= vstd::bytes::spec_u64_to_le_bytes(other.byte_len));
    assert(a.subrange(16 + n, 24 + n) =~= vstd::bytes::spec_u64_to_le_bytes(
        seconds_bits(identity.modified_unix_seconds),
    ));
    assert(b.subrange(16 + n, 24 + n) =~= vstd::bytes::spec_u64_to_le_bytes(
        seconds_bits(other.modified_unix_seconds),
    ));
    assert(a.subrange(24 + n, 28 + n) =~= vstd::bytes::spec_u32_to_le_bytes(
        identity.modified_nanos,
    ));
    assert(b.subrange(24 + n, 28 + n) =~= vstd::bytes::spec_u32_to_le_bytes(other.modified_nanos));
    assert(a.subrange(28 + n, 36 + n) =~= vstd::bytes::spec_u64_to_le_bytes(
        identity.page_count as u64,
    ));
    assert(b.subrange(28 + n, 36 + n) =~= vstd::bytes::spec_u64_to_le_bytes(
        other.page_count as u64,
    ));
}

/// What a hexadecimal digit stands for.
pub open spec fn hex_value(c: char) -> int {
    if c as u32 <= 57 {
        c as int - 48
    } else {
        c as int - 87
    }
}

/// Bytes in hexadecimal have two digits each, the upper one first, from which they can be
/// read back.
pub proof fn law_hexadecimal_can_be_read_back(bytes: Seq<u8>, i: int)
    ensures
        hex_text(bytes).len() == 2 * bytes.len(),
        0 <= i < bytes.len() ==> {
            &&& hex_value(hex_text(bytes)[2 * i]) * 16 + hex_value(hex_text(bytes)[2 * i + 1])
                == bytes[i]
            &&& 0 <= hex_value(hex_text(bytes)[2 * i + 1]) < 16
            &&& is_hex_digit(hex_text(bytes)[2 * i])
            &&& is_hex_digit(hex_text(bytes)[2 * i + 1])
        },
    decreases bytes.len(),
{
    if bytes.len() > 0 {
        let front = hex_text(bytes.drop_last());
        law_hexadecimal_can_be_read_back(bytes.drop_last(), i);
        if i == bytes.len() - 1 {
            assert(hex_text(bytes)[2 * i] == hex_digit(bytes.last() / 16));
            assert(hex_text(bytes)[2 * i + 1] == hex_digit(bytes.last() % 16));
        } else if 0 <= i < bytes.len() {
            assert(hex_text(bytes)[2 * i] == front[2 * i]);
            assert(hex_text(bytes)[2 * i + 1] == front[2 * i + 1]);
            assert(bytes.drop_last()[i] == bytes[i]);
        }
    }
}

} // verus!
