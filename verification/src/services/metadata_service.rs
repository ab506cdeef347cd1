//! Save metadata: content hashing and integrity comparison.

use vstd::prelude::*;

use sha2::{Digest, Sha256};

use crate::domain::conflict::same_hash;
use crate::domain::save::SaveMetadata;
use crate::text::{decimal, u64_text};
use crate::time::UtcTime;

verus! {

/// The SHA-256 digest of a byte string (sha2's `Sha256::digest`).
pub uninterp spec fn sha256_bytes(data: Seq<u8>) -> Seq<u8>;

/// sha2's `Sha256::digest`: the 32-byte digest of `data`.
#[verifier::external_body]
fn sha256_digest(data: &[u8]) -> (r: Vec<u8>)
    ensures
        r@ == sha256_bytes(data@),
        r@.len() == 32,
{
    Sha256::digest(data).to_vec()
}

pub open spec fn hex_digit(v: u8) -> char {
    if v < 10 {
        ((48 + v) as u8) as char
    } else {
        ((87 + v) as u8) as char
    }
}

/// Lowercase hexadecimal text, two digits per byte, high nibble first.
pub open spec fn hex_lower(bytes: Seq<u8>) -> Seq<char> {
    Seq::new(
        2 * bytes.len(),
        |i: int|
            if i % 2 == 0 {
                hex_digit(bytes[i / 2] / 16)
            } else {
                hex_digit(bytes[i / 2] % 16)
            },
    )
}

fn hex_digit_exec(v: u8) -> (c: char)
    requires
        v < 16,
    ensures
        c == hex_digit(v),
{
    if v < 10 {
        (48u8 + v) as char
    } else {
        (87u8 + v) as char
    }
}

/// The lowercase hexadecimal text of `bytes`, two digits per byte, high
/// nibble first (as `{:x}` writes a digest).
pub fn hex_text(bytes: &Vec<u8>) -> (s: String)
    ensures
        s@ == hex_lower(bytes@),
{
    let ghost h = hex_lower(bytes@);
    let mut out = String::new();
    let n = bytes.len();
    for i in 0..n
        invariant
            n == bytes@.len(),
            h == hex_lower(bytes@),
            out@ == h.take(2 * i),
    {
        let b = bytes[i];
        out.push(hex_digit_exec(b / 16));
        out.push(hex_digit_exec(b % 16));
        assert(h[2 * i as int] == hex_digit(b / 16));
        assert(h[2 * i + 1] == hex_digit(b % 16));
        assert(out@ =~= h.take(2 * (i + 1)));
    }
    assert(h.take(2 * n) =~= h);
    out
}

/// The lowercase hexadecimal text of the SHA-256 digest of `data`, as
/// `format!("{:x}", Sha256::digest(data))` writes it.
pub fn sha256_hex(data: &[u8]) -> (s: String)
    ensures
        s@ == hex_lower(sha256_bytes(data@)),
{
    let digest = sha256_digest(data);
    hex_text(&digest)
}

/// The metadata of a save file from what the file system reported and the
/// file's content (`collect_metadata` hashes the content).
pub fn collect_metadata(
    modified_at: Option<UtcTime>,
    created_at: Option<UtcTime>,
    byte_size: u64,
    content: &[u8],
) -> (m: SaveMetadata)
    ensures
        m.modified_at == modified_at,
        m.created_at == created_at,
        m.byte_size == byte_size,
        m.sha256 matches Some(h) && h@ == hex_lower(sha256_bytes(content@)),
{
    SaveMetadata { modified_at, created_at, byte_size, sha256: Some(sha256_hex(content)) }
}

/// Why a copy is not trusted.
#[derive(Clone, Debug)]
pub enum IntegrityError {
    SizeMismatch { source: u64, destination: u64 },
    HashMismatch,
    MissingHash,
}

impl IntegrityError {
    pub open spec fn text(self) -> Seq<char> {
        match self {
            IntegrityError::SizeMismatch { source, destination } =>
                "integrity verification failed: byte size mismatch (src="@ + decimal(source as nat)
                    + ", dst="@ + decimal(destination as nat) + ")"@,
            IntegrityError::HashMismatch => "integrity verification failed: hash mismatch"@,
            IntegrityError::MissingHash => "integrity verification failed: missing hash metadata"@,
        }
    }

    /// The message shown for this error.
    pub fn message(&self) -> (m: String)
        ensures
            m@ == self.text(),
    {
        match self {
            IntegrityError::SizeMismatch { source, destination } => {
                let mut m = crate::text::owned(
                    "integrity verification failed: byte size mismatch (src=",
                );
                m.push_str(u64_text(*source).as_str());
                m.push_str(", dst=");
                m.push_str(u64_text(*destination).as_str());
                m.push_str(")");
                m
            },
            IntegrityError::HashMismatch => crate::text::owned(
                "integrity verification failed: hash mismatch",
            ),
            IntegrityError::MissingHash => crate::text::owned(
                "integrity verification failed: missing hash metadata",
            ),
        }
    }
}

/// The verdict of `verify_metadata_pair`: sizes first, then hashes.
pub open spec fn integrity_verdict(source: SaveMetadata, destination: SaveMetadata) -> Result<(), IntegrityError> {
    if source.byte_size != destination.byte_size {
        Err(IntegrityError::SizeMismatch { source: source.byte_size, destination: destination.byte_size })
    } else if source.sha256 is Some && destination.sha256 is Some {
        if same_hash(source, destination) {
            Ok(())
        } else {
            Err(IntegrityError::HashMismatch)
        }
    } else {
        Err(IntegrityError::MissingHash)
    }
}

/// A copy is trusted exactly when sizes match and both hashes are present and equal.
pub fn verify_metadata_pair(source: &SaveMetadata, destination: &SaveMetadata) -> (r: Result<(), IntegrityError>)
    ensures
        r == integrity_verdict(*source, *destination),
        r is Ok <==> source.byte_size == destination.byte_size && same_hash(*source, *destination),
{
    if source.byte_size != destination.byte_size {
        return Err(IntegrityError::SizeMismatch { source: source.byte_size, destination: destination.byte_size });
    }
    match (&source.sha256, &destination.sha256) {
        (Some(a), Some(b)) => {
            if crate::text::str_eq(a.as_str(), b.as_str()) {
                Ok(())
            } else {
                Err(IntegrityError::HashMismatch)
            }
        },
        _ => Err(IntegrityError::MissingHash),
    }
}

/// What the file system reports about a file, and its content.
#[derive(Clone, Debug)]
pub struct FileFacts {
    pub modified_at: Option<UtcTime>,
    pub created_at: Option<UtcTime>,
    pub byte_size: u64,
    pub content: Vec<u8>,
}

/// `verify_copy_integrity`: the metadata of both files (their content hashed)
/// must agree: equal sizes, then equal hashes.
pub fn verify_copy_integrity(source: &FileFacts, destination: &FileFacts) -> (r: Result<(), IntegrityError>)
    ensures
        source.byte_size != destination.byte_size ==> (r matches Err(IntegrityError::SizeMismatch { source: s, destination: d })
            && s == source.byte_size && d == destination.byte_size),
        source.byte_size == destination.byte_size ==> (r is Ok <==> hex_lower(sha256_bytes(source.content@)) == hex_lower(
            sha256_bytes(destination.content@),
        )),
        source.byte_size == destination.byte_size ==> (r is Err ==> r matches Err(IntegrityError::HashMismatch)),
{
    let a = collect_metadata(source.modified_at, source.created_at, source.byte_size, source.content.as_slice());
    let b = collect_metadata(
        destination.modified_at,
        destination.created_at,
        destination.byte_size,
        destination.content.as_slice(),
    );
    verify_metadata_pair(&a, &b)
}

} // verus!
