//! The rules for reading files: what may be read, and how much of it.

use crate::digest::{hex_text, sha256, sha256_hex};
use crate::error::{invalid, outcome, BoundedReadError, Refusal};
use crate::manifest::ManifestEntry;
use crate::text::same_text;
use vstd::prelude::*;

verus! {

/// How a file is read: room for this many bytes is made beforehand, and at most this many bytes
/// are taken.
#[derive(Debug)]
pub struct ReadBounds {
    pub capacity: usize,
    pub take: u64,
}

/// How a file is read of which so many bytes are wanted: one byte more is taken, which tells
/// whether the file is longer.
pub open spec fn bounds_for(limit: u64) -> ReadBounds {
    ReadBounds {
        capacity: if limit < 65_536 {
            limit as usize
        } else {
            65_536
        },
        take: (limit + 1) as u64,
    }
}

/// What the look at a file with a limit on its length finds, before it is read.
pub open spec fn bounded_file_verdict(is_file: bool, len: u64, limit: u64) -> Result<
    ReadBounds,
    Refusal,
> {
    if !is_file || len > limit {
        Err(Refusal::InvalidCustody("bounded file is not a regular file within limit"@))
    } else {
        Ok(bounds_for(limit))
    }
}

/// What the look at the file of an artifact finds, before it is read.
pub open spec fn artifact_file_verdict(size: u64, is_file: bool, len: u64) -> Result<
    ReadBounds,
    Refusal,
> {
    if !is_file || len != size {
        Err(Refusal::InvalidCustody("artifact is not a declared regular file"@))
    } else {
        Ok(bounds_for(size))
    }
}

/// What the check of the bytes of an artifact finds: they must be no more than declared, as many
/// as declared, and have the declared digest.
pub open spec fn artifact_verdict(size: nat, digest: Seq<char>, bytes: Seq<u8>) -> Result<
    (),
    Refusal,
> {
    if bytes.len() > size {
        Err(Refusal::InvalidCustody("bounded file exceeds limit"@))
    } else if bytes.len() != size || hex_text(sha256(bytes)) != digest {
        Err(Refusal::InvalidCustody("artifact size or digest mismatch"@))
    } else {
        Ok(())
    }
}

/// How a file is read of which so many bytes are wanted.
fn read_bounds(limit: u64) -> (bounds: ReadBounds)
    requires
        limit < u64::MAX,
    ensures
        bounds == bounds_for(limit),
{
    let capacity: usize = if limit < 65_536 {
        limit as usize
    } else {
        65_536
    };
    ReadBounds { capacity, take: limit + 1 }
}

/// Decides from the look at a file, before any of it is read, whether and how it is read: it must
/// be a regular file within the limit.
pub fn read_bounded_absolute(is_file: bool, len: u64, limit: u64) -> (result: Result<
    ReadBounds,
    BoundedReadError,
>)
    requires
        limit < u64::MAX,
    ensures
        outcome(result) == bounded_file_verdict(is_file, len, limit),
{
    if !is_file || len > limit {
        return Err(invalid("bounded file is not a regular file within limit"));
    }
    Ok(read_bounds(limit))
}

/// Decides from the look at the file of an artifact, before any of it is read, whether and how it
/// is read: it must be a regular file of the declared size.
pub fn declared_artifact_file(entry: &ManifestEntry, is_file: bool, len: u64) -> (result: Result<
    ReadBounds,
    BoundedReadError,
>)
    requires
        entry.size < u64::MAX,
    ensures
        outcome(result) == artifact_file_verdict(entry.size, is_file, len),
{
    if !is_file || len != entry.size {
        return Err(invalid("artifact is not a declared regular file"));
    }
    Ok(read_bounds(entry.size))
}

/// Takes the bytes that were read of a file, unless they are more than the limit.
pub fn read_bounded_file(bytes: Vec<u8>, limit: u64) -> (result: Result<Vec<u8>, BoundedReadError>)
    ensures
        match result {
            Ok(kept) => kept@ == bytes@ && bytes@.len() <= limit,
            Err(error) => error@ == Refusal::InvalidCustody("bounded file exceeds limit"@)
                && bytes@.len() > limit,
        },
{
    if bytes.len() as u64 > limit {
        return Err(invalid("bounded file exceeds limit"));
    }
    Ok(bytes)
}

/// Takes the bytes that were read of an artifact, if they are what its entry declares.
pub fn read_verified_artifact(entry: &ManifestEntry, bytes: Vec<u8>) -> (result: Result<
    Vec<u8>,
    BoundedReadError,
>)
    ensures
        match artifact_verdict(entry@.size, entry@.sha256, bytes@) {
            Ok(_) => result matches Ok(kept) && kept@ == bytes@,
            Err(refusal) => result matches Err(error) && error@ == refusal,
        },
{
    let kept: Vec<u8> = read_bounded_file(bytes, entry.size)?;
    if kept.len() as u64 != entry.size {
        return Err(invalid("artifact size or digest mismatch"));
    }
    let digest = sha256_hex(kept.as_slice());
    if !same_text(digest.as_str(), entry.sha256.as_str()) {
        return Err(invalid("artifact size or digest mismatch"));
    }
    Ok(kept)
}

} // verus!
