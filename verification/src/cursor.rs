//! Cursors: one-use places in an artifact, and the tokens that stand for them.

use crate::digest::{hex_text, is_digest, sha256, sha256_hex};
use vstd::prelude::*;
use vstd::utf8::encode_utf8;

verus! {

/// A place in an artifact.
#[derive(Debug)]
pub struct Cursor {
    pub artifact_id: String,
    pub offset: u64,
}

/// What a [`Cursor`] says.
pub struct CursorView {
    pub artifact_id: Seq<char>,
    pub offset: nat,
}

impl View for Cursor {
    type V = CursorView;

    open spec fn view(&self) -> CursorView {
        CursorView { artifact_id: self.artifact_id@, offset: self.offset as nat }
    }
}

/// What binds the tokens of a session to it.
pub struct Binding {
    pub nonce: Seq<u8>,
    pub manifest_sha256: Seq<char>,
    pub request_id: Seq<char>,
    pub project_id: Seq<char>,
    pub revision: Seq<char>,
}

/// A number in eight bytes, the highest first.
pub open spec fn be_bytes(number: u64) -> Seq<u8> {
    seq![
        (number / 0x100_0000_0000_0000) as u8,
        (number / 0x1_0000_0000_0000 % 256) as u8,
        (number / 0x100_0000_0000 % 256) as u8,
        (number / 0x1_0000_0000 % 256) as u8,
        (number / 0x100_0000 % 256) as u8,
        (number / 0x1_0000 % 256) as u8,
        (number / 0x100 % 256) as u8,
        (number % 256) as u8,
    ]
}

/// The bytes that bind every token of a session to it.
pub open spec fn binding_bytes(binding: Binding) -> Seq<u8> {
    binding.nonce + encode_utf8(binding.manifest_sha256) + encode_utf8(binding.request_id)
        + encode_utf8(binding.project_id) + encode_utf8(binding.revision)
}

/// The bytes whose digest is the token of a cursor.
pub open spec fn token_bytes(binding: Binding, artifact_id: Seq<char>, offset: u64) -> Seq<u8> {
    binding_bytes(binding) + encode_utf8(artifact_id) + be_bytes(offset)
}

/// The token of a cursor.
pub open spec fn token_text(binding: Binding, artifact_id: Seq<char>, offset: u64) -> Seq<char> {
    hex_text(sha256(token_bytes(binding, artifact_id, offset)))
}

/// Appends bytes to a vector.
fn append_bytes(target: &mut Vec<u8>, bytes: &[u8])
    ensures
        final(target)@ == old(target)@ + bytes@,
{
    target.extend_from_slice(bytes);
    assert(target@ =~= old(target)@ + bytes@);
}

/// A number in eight bytes, the highest first.
fn to_be_bytes(number: u64) -> (bytes: [u8; 8])
    ensures
        bytes@ == be_bytes(number),
{
    let bytes: [u8; 8] = [
        (number / 0x100_0000_0000_0000) as u8,
        (number / 0x1_0000_0000_0000 % 256) as u8,
        (number / 0x100_0000_0000 % 256) as u8,
        (number / 0x1_0000_0000 % 256) as u8,
        (number / 0x100_0000 % 256) as u8,
        (number / 0x1_0000 % 256) as u8,
        (number / 0x100 % 256) as u8,
        (number % 256) as u8,
    ];
    assert(bytes@ =~= be_bytes(number));
    bytes
}

/// The token of a cursor.
pub fn cursor_token(
    nonce: &[u8],
    manifest_sha256: &str,
    request_id: &str,
    project_id: &str,
    revision: &str,
    artifact_id: &str,
    offset: u64,
) -> (token: String)
    ensures
        token@ == token_text(
            (Binding {
                nonce: nonce@,
                manifest_sha256: manifest_sha256@,
                request_id: request_id@,
                project_id: project_id@,
                revision: revision@,
            }),
            artifact_id@,
            offset,
        ),
        is_digest(token@),
{
    let mut input: Vec<u8> = Vec::new();
    append_bytes(&mut input, nonce);
    append_bytes(&mut input, manifest_sha256.as_bytes());
    append_bytes(&mut input, request_id.as_bytes());
    append_bytes(&mut input, project_id.as_bytes());
    append_bytes(&mut input, revision.as_bytes());
    append_bytes(&mut input, artifact_id.as_bytes());
    append_bytes(&mut input, to_be_bytes(offset).as_slice());
    let ghost binding = Binding {
        nonce: nonce@,
        manifest_sha256: manifest_sha256@,
        request_id: request_id@,
        project_id: project_id@,
        revision: revision@,
    };
    assert(input@ =~= token_bytes(binding, artifact_id@, offset));
    sha256_hex(input.as_slice())
}

/// Different numbers have different bytes.
pub proof fn be_bytes_determine_number(first: u64, second: u64)
    requires
        be_bytes(first) == be_bytes(second),
    ensures
        first == second,
{
    let a = be_bytes(first);
    let b = be_bytes(second);
    assert(a[0] == b[0] && a[1] == b[1] && a[2] == b[2] && a[3] == b[3]);
    assert(a[4] == b[4] && a[5] == b[5] && a[6] == b[6] && a[7] == b[7]);
    assert(first == second) by (bit_vector)
        requires
            first / 0x100_0000_0000_0000u64 == second / 0x100_0000_0000_0000u64,
            first / 0x1_0000_0000_0000u64 % 256u64 == second / 0x1_0000_0000_0000u64 % 256u64,
            first / 0x100_0000_0000u64 % 256u64 == second / 0x100_0000_0000u64 % 256u64,
            first / 0x1_0000_0000u64 % 256u64 == second / 0x1_0000_0000u64 % 256u64,
            first / 0x100_0000u64 % 256u64 == second / 0x100_0000u64 % 256u64,
            first / 0x1_0000u64 % 256u64 == second / 0x1_0000u64 % 256u64,
            first / 0x100u64 % 256u64 == second / 0x100u64 % 256u64,
            first % 256u64 == second % 256u64,
    ;
}

/// Within a session, no two cursors have their tokens made from the same bytes: the bytes
/// determine the artifact and the offset.
pub proof fn token_bytes_determine_cursor(
    binding: Binding,
    first_id: Seq<char>,
    first_offset: u64,
    second_id: Seq<char>,
    second_offset: u64,
)
    requires
        token_bytes(binding, first_id, first_offset) == token_bytes(
            binding,
            second_id,
            second_offset,
        ),
    ensures
        first_id == second_id,
        first_offset == second_offset,
{
    let first = token_bytes(binding, first_id, first_offset);
    let second = token_bytes(binding, second_id, second_offset);
    let start = binding_bytes(binding).len() as int;
    let split = first.len() - 8;
    assert(encode_utf8(first_id) =~= first.subrange(start, split));
    assert(encode_utf8(second_id) =~= second.subrange(start, split));
    crate::text::encoding_determines_text(first_id, second_id);
    assert(be_bytes(first_offset) =~= first.subrange(split, split + 8));
    assert(be_bytes(second_offset) =~= second.subrange(split, split + 8));
    be_bytes_determine_number(first_offset, second_offset);
}

} // verus!
