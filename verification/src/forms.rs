//! What the checks of texts, manifests, files, requests and calls let pass, said of what they are
//! given.

use crate::cursor::{be_bytes, token_bytes, token_text, Binding};
use crate::custody::{
    clash, entries_verdict, entry_at_verdict, expectation_verdict, first_plan,
    manifest_bytes_verdict, manifest_verdict, no_fault_means_in_order, repeats, total_size,
    ManifestView, PlanView, RequestView,
};
use crate::digest::{
    digest_verdict, hex_digit, hex_text, hex_text_of_32_bytes_is_a_digest, is_digest, is_hex_digit,
    sha256,
};
use crate::environment::{
    env_text_verdict, env_value_text, environment_verdict, EnvValue, EnvironmentView,
};
use crate::error::{outcome, refusal_code, refusal_message, BoundedReadError, Refusal};
use crate::files::{artifact_file_verdict, artifact_verdict, bounded_file_verdict, ReadBounds};
use crate::json::{json_parse, member, Json, JsonModel};
use crate::limits::{
    DEADLINE_NANOS, DIGEST_CHARS, MAX_ARTIFACTS, MAX_ARTIFACT_BYTES, MAX_ARTIFACT_BYTES_TOTAL,
    MAX_ARTIFACT_ID_BYTES, MAX_ENVIRONMENT_TEXT_BYTES, MAX_MANIFEST_BYTES, MAX_OUTPUT_TOKENS,
    MAX_PAGES, MAX_PAGE_CONTENT_BYTES, MAX_PROVIDER_REQUESTS, MAX_PROVIDER_REQUEST_BYTES,
    MAX_PROVIDER_REQUEST_BYTES_TOTAL, MAX_TOOL_RESULT_BYTES, MAX_TOOL_RESULT_BYTES_TOTAL,
    PROVIDER_FRAMING_RESERVE,
};
use crate::manifest::{
    entry_verdict, is_artifact_id, is_canonical_relative, is_component, is_plain_component,
    path_verdict, EntryView, Manifest,
};
use crate::page::ReadPage;
use crate::provider::{encoded_request_verdict, request_json_verdict, tool_json_verdict};
use crate::session::cursor_text;
use crate::tool::{
    args_cursor, fatal_text, last_member_counts, page_tool, parameters_model, payload_verdict, property_model, tool_model,
    ReadPageArgs, ToolPayload, ToolView,
};
use vstd::prelude::*;
use vstd::utf8::encode_utf8;

verus! {

/// The limits: four provider requests of 32,000 bytes each, four tool results of 2,048 bytes each,
/// sums that four of the largest just reach, fifteen minutes, 4,000 tokens for the answer and 4,096
/// for the framing, manifests of 64 KiB with 64 artifacts of 8 MiB each and 32 MiB together, and
/// pages of 1,024 bytes.
pub proof fn the_limits_are_these()
    ensures
        MAX_PROVIDER_REQUESTS == 4,
        MAX_PROVIDER_REQUEST_BYTES == 32_000,
        MAX_PROVIDER_REQUEST_BYTES_TOTAL == MAX_PROVIDER_REQUESTS * MAX_PROVIDER_REQUEST_BYTES,
        MAX_PAGES == 4,
        MAX_TOOL_RESULT_BYTES == 2_048,
        MAX_TOOL_RESULT_BYTES_TOTAL == MAX_PAGES * MAX_TOOL_RESULT_BYTES,
        DEADLINE_NANOS == 900_000_000_000,
        MAX_OUTPUT_TOKENS == 4_000,
        PROVIDER_FRAMING_RESERVE == 4_096,
        MAX_MANIFEST_BYTES == 65_536,
        MAX_ARTIFACTS == 64,
        MAX_ARTIFACT_BYTES == 8_388_608,
        MAX_ARTIFACT_BYTES_TOTAL == 4 * MAX_ARTIFACT_BYTES,
        MAX_PAGE_CONTENT_BYTES == 1_024,
        MAX_ARTIFACT_ID_BYTES == 128,
        MAX_ENVIRONMENT_TEXT_BYTES == 256,
        DIGEST_CHARS == 64,
{
}

/// The number that a digit of lowercase hexadecimal stands for.
pub open spec fn digit_value(digit: char) -> int {
    if '0' <= digit <= '9' {
        digit as int - '0' as int
    } else {
        digit as int - 'a' as int + 10
    }
}

/// Two digits stand for each byte, and together they make its number, the first one by sixteens.
pub proof fn hex_digits_make_the_byte(bytes: Seq<u8>, at: int)
    requires
        0 <= at < bytes.len(),
    ensures
        hex_text(bytes).len() == 2 * bytes.len(),
        is_hex_digit(hex_text(bytes)[2 * at]),
        is_hex_digit(hex_text(bytes)[2 * at + 1]),
        16 * digit_value(hex_text(bytes)[2 * at]) + digit_value(hex_text(bytes)[2 * at + 1])
            == bytes[at],
{
    assert((2 * at) / 2 == at && (2 * at + 1) / 2 == at);
    assert((2 * at) % 2 == 0 && (2 * at + 1) % 2 == 1);
    digit_of_value(bytes[at] as int / 16);
    digit_of_value(bytes[at] as int % 16);
}

/// The digit of a number stands for the number.
proof fn digit_of_value(number: int)
    requires
        0 <= number < 16,
    ensures
        is_hex_digit(hex_digit(number)),
        digit_value(hex_digit(number)) == number,
{
}

/// A digit is the digit of the number that it stands for.
proof fn value_of_digit(digit: char)
    requires
        is_hex_digit(digit),
    ensures
        0 <= digit_value(digit) < 16,
        hex_digit(digit_value(digit)) == digit,
{
}

/// A text has the form of a digest exactly where it is the hexadecimal text of 32 bytes.
pub proof fn a_digest_is_the_text_of_32_bytes(text: Seq<char>)
    ensures
        digest_verdict(text) is Ok <==> exists|bytes: Seq<u8>|
            bytes.len() == 32 && #[trigger] hex_text(bytes) == text,
        digest_verdict(text) is Err ==> digest_verdict(text) == Err::<(), Refusal>(
            Refusal::InvalidCustody("digest must be lowercase SHA-256"@),
        ),
        digest_verdict(text) is Ok <==> text.len() == 64 && forall|i: int|
            0 <= i < 64 ==> '0' <= #[trigger] text[i] <= '9' || 'a' <= text[i] <= 'f',
{
    if is_digest(text) {
        let bytes = Seq::new(
            32,
            |i: int| (16 * digit_value(text[2 * i]) + digit_value(text[2 * i + 1])) as u8,
        );
        assert forall|i: int| 0 <= i < 64 implies hex_text(bytes)[i] == text[i] by {
            let at = i / 2;
            assert(is_hex_digit(text[2 * at]) && is_hex_digit(text[2 * at + 1]));
            value_of_digit(text[2 * at]);
            value_of_digit(text[2 * at + 1]);
            assert(bytes[at] == 16 * digit_value(text[2 * at]) + digit_value(text[2 * at + 1]));
        }
        assert(hex_text(bytes) =~= text);
    }
    if exists|bytes: Seq<u8>| bytes.len() == 32 && #[trigger] hex_text(bytes) == text {
        let bytes = choose|bytes: Seq<u8>| bytes.len() == 32 && #[trigger] hex_text(bytes) == text;
        hex_text_of_32_bytes_is_a_digest(bytes);
    }
    assert(is_digest(text) <==> text.len() == 64 && forall|i: int|
        0 <= i < 64 ==> '0' <= #[trigger] text[i] <= '9' || 'a' <= text[i] <= 'f') by {
        if text.len() == 64 && forall|i: int|
            0 <= i < 64 ==> '0' <= #[trigger] text[i] <= '9' || 'a' <= text[i] <= 'f' {
            assert forall|i: int| 0 <= i < text.len() implies is_hex_digit(#[trigger] text[i]) by {}
        }
        if is_digest(text) {
            assert forall|i: int| 0 <= i < 64 implies '0' <= #[trigger] text[i] <= '9' || 'a'
                <= text[i] <= 'f' by {
                assert(is_hex_digit(text[i]));
            }
        }
    }
}

/// The eight bytes of a number make it up again, the first one being worth the most.
pub proof fn be_bytes_make_the_number(number: u64)
    ensures
        be_bytes(number).len() == 8,
        ({
            let b = be_bytes(number);
            number == b[0] * 0x100_0000_0000_0000 + b[1] * 0x1_0000_0000_0000 + b[2]
                * 0x100_0000_0000 + b[3] * 0x1_0000_0000 + b[4] * 0x100_0000 + b[5] * 0x1_0000 + b[6]
                * 0x100 + b[7]
        }),
{
    let b = be_bytes(number);
    let n0 = number / 0x100;
    let n1 = number / 0x1_0000;
    let n2 = number / 0x100_0000;
    let n3 = number / 0x1_0000_0000;
    let n4 = number / 0x100_0000_0000;
    let n5 = number / 0x1_0000_0000_0000;
    let n6 = number / 0x100_0000_0000_0000;
    assert(n0 / 0x100 == n1 && n1 / 0x100 == n2 && n2 / 0x100 == n3 && n3 / 0x100 == n4 && n4
        / 0x100 == n5 && n5 / 0x100 == n6 && n6 < 0x100);
}

/// A token is the digest, in hexadecimal, of the nonce, the manifest's digest, the request, the
/// project, the revision, the artifact and the offset, one after the other.
pub proof fn a_token_is_the_digest_of_what_it_is_bound_to(
    binding: Binding,
    artifact_id: Seq<char>,
    offset: u64,
)
    ensures
        token_text(binding, artifact_id, offset) == hex_text(
            sha256(
                binding.nonce + encode_utf8(binding.manifest_sha256) + encode_utf8(
                    binding.request_id,
                ) + encode_utf8(binding.project_id) + encode_utf8(binding.revision) + encode_utf8(
                    artifact_id,
                ) + be_bytes(offset),
            ),
        ),
{
}

/// What is hashed for a token holds all that binds the session: where the parts have the same
/// lengths, tokens of sessions that differ in any of them, or of another artifact or offset, are
/// made from different bytes.
pub proof fn token_bytes_determine_binding(
    first: Binding,
    first_id: Seq<char>,
    first_offset: u64,
    second: Binding,
    second_id: Seq<char>,
    second_offset: u64,
)
    requires
        first.nonce.len() == second.nonce.len(),
        encode_utf8(first.manifest_sha256).len() == encode_utf8(second.manifest_sha256).len(),
        encode_utf8(first.request_id).len() == encode_utf8(second.request_id).len(),
        encode_utf8(first.project_id).len() == encode_utf8(second.project_id).len(),
        encode_utf8(first.revision).len() == encode_utf8(second.revision).len(),
        token_bytes(first, first_id, first_offset) == token_bytes(second, second_id, second_offset),
    ensures
        first.nonce == second.nonce,
        first.manifest_sha256 == second.manifest_sha256,
        first.request_id == second.request_id,
        first.project_id == second.project_id,
        first.revision == second.revision,
        first_id == second_id,
        first_offset == second_offset,
{
    let a = token_bytes(first, first_id, first_offset);
    let b = token_bytes(second, second_id, second_offset);
    let p1 = first.nonce.len() as int;
    let p2 = p1 + encode_utf8(first.manifest_sha256).len();
    let p3 = p2 + encode_utf8(first.request_id).len();
    let p4 = p3 + encode_utf8(first.project_id).len();
    let p5 = p4 + encode_utf8(first.revision).len();
    assert(first.nonce =~= a.subrange(0, p1) && second.nonce =~= b.subrange(0, p1));
    assert(encode_utf8(first.manifest_sha256) =~= a.subrange(p1, p2));
    assert(encode_utf8(second.manifest_sha256) =~= b.subrange(p1, p2));
    assert(encode_utf8(first.request_id) =~= a.subrange(p2, p3));
    assert(encode_utf8(second.request_id) =~= b.subrange(p2, p3));
    assert(encode_utf8(first.project_id) =~= a.subrange(p3, p4));
    assert(encode_utf8(second.project_id) =~= b.subrange(p3, p4));
    assert(encode_utf8(first.revision) =~= a.subrange(p4, p5));
    assert(encode_utf8(second.revision) =~= b.subrange(p4, p5));
    crate::text::encoding_determines_text(first.manifest_sha256, second.manifest_sha256);
    crate::text::encoding_determines_text(first.request_id, second.request_id);
    crate::text::encoding_determines_text(first.project_id, second.project_id);
    crate::text::encoding_determines_text(first.revision, second.revision);
    crate::cursor::token_bytes_determine_cursor(
        first,
        first_id,
        first_offset,
        second_id,
        second_offset,
    );
}

/// A path of one component passes exactly where the component has a character, has no backslash,
/// and is neither the directory itself nor the one above.
pub proof fn a_single_component_is_a_path(name: Seq<char>)
    requires
        forall|i: int| 0 <= i < name.len() ==> name[i] != '/',
    ensures
        path_verdict(name) is Ok <==> {
            &&& name.len() > 0
            &&& name != "."@
            &&& name != ".."@
            &&& forall|i: int| 0 <= i < name.len() ==> name[i] != '\\'
        },
{
    assert(is_component(name, 0, name.len() as int));
    assert(name.subrange(0, name.len() as int) =~= name);
    assert forall|from: int, to: int| #[trigger] is_component(name, from, to) implies from == 0 && to
        == name.len() by {
        if from > 0 {
            assert(name[from - 1] == '/');
        }
        if to < name.len() {
            assert(name[to] == '/');
        }
    }
}

/// Two paths with a slash between them pass exactly where both pass. With the law on single
/// components this says of every text whether it passes.
pub proof fn a_path_is_made_of_paths(first: Seq<char>, second: Seq<char>)
    ensures
        path_verdict(first + seq!['/'] + second) is Ok <==> path_verdict(first) is Ok && path_verdict(
            second,
        ) is Ok,
        path_verdict(first) is Err ==> path_verdict(first) == Err::<(), Refusal>(
            Refusal::InvalidCustody("artifact path is not canonical relative"@),
        ),
{
    let whole = first + seq!['/'] + second;
    let n = first.len() as int;
    assert(whole[n] == '/');
    if is_canonical_relative(whole) {
        assert forall|from: int, to: int| #[trigger]
            is_component(first, from, to) implies is_plain_component(first.subrange(from, to)) by {
            assert(is_component(whole, from, to));
            assert(whole.subrange(from, to) =~= first.subrange(from, to));
        }
        assert forall|from: int, to: int| #[trigger]
            is_component(second, from, to) implies is_plain_component(second.subrange(from, to)) by {
            assert forall|i: int| n + 1 + from <= i < n + 1 + to implies whole[i] != '/' by {
                assert(whole[i] == second[i - n - 1]);
            }
            assert(is_component(whole, n + 1 + from, n + 1 + to));
            assert(whole.subrange(n + 1 + from, n + 1 + to) =~= second.subrange(from, to));
        }
        assert forall|i: int| 0 <= i < first.len() implies first[i] != '\\' by {
            assert(whole[i] == first[i]);
        }
        assert forall|i: int| 0 <= i < second.len() implies second[i] != '\\' by {
            assert(whole[n + 1 + i] == second[i]);
        }
    }
    if is_canonical_relative(first) && is_canonical_relative(second) {
        assert forall|from: int, to: int| #[trigger]
            is_component(whole, from, to) implies is_plain_component(whole.subrange(from, to)) by {
            if to <= n {
                assert forall|i: int| from <= i < to implies first[i] != '/' by {
                    assert(whole[i] == first[i]);
                }
                assert(is_component(first, from, to));
                assert(whole.subrange(from, to) =~= first.subrange(from, to));
            } else {
                assert(from > n) by {
                    if from <= n {
                        assert(whole[n] != '/');
                    }
                }
                assert forall|i: int| from - n - 1 <= i < to - n - 1 implies second[i] != '/' by {
                    assert(whole[i + n + 1] == second[i]);
                }
                assert(is_component(second, from - n - 1, to - n - 1));
                assert(whole.subrange(from, to) =~= second.subrange(from - n - 1, to - n - 1));
            }
        }
    }
}

/// An entry passes exactly where its id has 1 to 128 letters, digits, dots, underscores and hyphens,
/// its digest has the form of one, its size is within the limit, its media type is a text, and its
/// path passes.
pub proof fn an_entry_passes_where_all_its_parts_do(entry: EntryView)
    ensures
        entry_verdict(entry) is Ok <==> {
            &&& 1 <= entry.artifact_id.len() <= MAX_ARTIFACT_ID_BYTES
            &&& forall|i: int|
                0 <= i < entry.artifact_id.len() ==> {
                    let c = #[trigger] entry.artifact_id[i];
                    'a' <= c <= 'z' || 'A' <= c <= 'Z' || '0' <= c <= '9' || c == '.' || c == '_'
                        || c == '-'
                }
            &&& digest_verdict(entry.sha256) is Ok
            &&& entry.size <= MAX_ARTIFACT_BYTES
            &&& entry.media_type.len() >= 5
            &&& entry.media_type.take(5) == "text/"@
            &&& path_verdict(entry.path) is Ok
        },
{
    reveal_strlit("text/");
    assert("text/"@.len() == 5);
    assert(entry.media_type.len() >= 5 ==> entry.media_type.take(5) =~= entry.media_type.subrange(
        0,
        5,
    ));
    let id = entry.artifact_id;
    assert(is_artifact_id(id) <==> 1 <= id.len() <= MAX_ARTIFACT_ID_BYTES && forall|i: int|
        0 <= i < id.len() ==> {
            let c = #[trigger] id[i];
            'a' <= c <= 'z' || 'A' <= c <= 'Z' || '0' <= c <= '9' || c == '.' || c == '_' || c
                == '-'
        }) by {
        if is_artifact_id(id) {
            assert forall|i: int| 0 <= i < id.len() implies {
                let c = #[trigger] id[i];
                'a' <= c <= 'z' || 'A' <= c <= 'Z' || '0' <= c <= '9' || c == '.' || c == '_' || c
                    == '-'
            } by {
                assert(crate::manifest::is_id_character(id[i]));
            }
        }
    }
}

/// Why an entry is refused: first comes its id, next its digest, next its size and media type, and
/// last its path. Neither its content nor any later part is looked at before that.
pub proof fn an_entry_is_refused_for_its_first_fault(entry: EntryView)
    ensures
        !is_artifact_id(entry.artifact_id) ==> entry_verdict(entry) == Err::<(), Refusal>(
            Refusal::InvalidCustody("invalid artifact id"@),
        ),
        is_artifact_id(entry.artifact_id) && digest_verdict(entry.sha256) is Err ==> entry_verdict(
            entry,
        ) == digest_verdict(entry.sha256),
        is_artifact_id(entry.artifact_id) && digest_verdict(entry.sha256) is Ok && (entry.size
            > MAX_ARTIFACT_BYTES || !"text/"@.is_prefix_of(entry.media_type)) ==> entry_verdict(entry)
            == Err::<(), Refusal>(
            Refusal::InvalidCustody("unsupported artifact size or media type"@),
        ),
        is_artifact_id(entry.artifact_id) && digest_verdict(entry.sha256) is Ok && entry.size
            <= MAX_ARTIFACT_BYTES && "text/"@.is_prefix_of(entry.media_type) ==> entry_verdict(entry)
            == path_verdict(entry.path),
{
}

/// Whatever is as declared is taken in, and nothing else: the bytes of an artifact pass exactly
/// where they have the declared length and the declared digest. Too many bytes are refused as such.
pub proof fn an_artifact_passes_where_it_is_as_declared(
    size: nat,
    digest: Seq<char>,
    bytes: Seq<u8>,
)
    ensures
        artifact_verdict(size, digest, bytes) is Ok <==> bytes.len() == size && hex_text(sha256(bytes))
            == digest,
        bytes.len() > size ==> artifact_verdict(size, digest, bytes) == Err::<(), Refusal>(
            Refusal::InvalidCustody("bounded file exceeds limit"@),
        ),
        bytes.len() <= size && artifact_verdict(size, digest, bytes) is Err ==> artifact_verdict(
            size,
            digest,
            bytes,
        ) == Err::<(), Refusal>(Refusal::InvalidCustody("artifact size or digest mismatch"@)),
{
}

/// Declaring bytes by their own length and digest makes them pass.
pub proof fn bytes_pass_under_their_own_declaration(bytes: Seq<u8>)
    ensures
        artifact_verdict(bytes.len(), hex_text(sha256(bytes)), bytes) is Ok,
{
}

/// A file is read exactly where it is a regular one and within the limit, or of the declared size.
/// Then one byte more than wanted is taken at most, and no more room than wanted is made before.
pub proof fn a_file_is_read_up_to_its_limit(is_file: bool, len: u64, limit: u64)
    requires
        limit < u64::MAX,
    ensures
        bounded_file_verdict(is_file, len, limit) is Ok <==> is_file && len <= limit,
        artifact_file_verdict(limit, is_file, len) is Ok <==> is_file && len == limit,
        bounded_file_verdict(is_file, len, limit) matches Ok(bounds) ==> {
            &&& bounds.take == limit + 1
            &&& bounds.capacity <= limit
            &&& bounds.capacity <= 65_536
            &&& bounds.capacity == limit || bounds.capacity == 65_536
        },
        artifact_file_verdict(limit, is_file, len) is Ok ==> artifact_file_verdict(
            limit,
            is_file,
            len,
        ) == bounded_file_verdict(is_file, len, limit),
        bounded_file_verdict(is_file, len, limit) is Err ==> bounded_file_verdict(is_file, len, limit)
            == Err::<ReadBounds, Refusal>(
            Refusal::InvalidCustody("bounded file is not a regular file within limit"@),
        ),
        artifact_file_verdict(limit, is_file, len) is Err ==> artifact_file_verdict(
            limit,
            is_file,
            len,
        ) == Err::<ReadBounds, Refusal>(
            Refusal::InvalidCustody("artifact is not a declared regular file"@),
        ),
{
}

/// A manifest says what it holds, entry for entry and part for part.
pub proof fn a_manifest_says_what_it_holds(manifest: Manifest, at: int)
    ensures
        manifest@.schema == manifest.schema@,
        manifest@.request_id == manifest.request_id@,
        manifest@.project_id == manifest.project_id@,
        manifest@.revision == manifest.revision@,
        manifest@.entries.len() == manifest.entries@.len(),
        0 <= at < manifest.entries@.len() ==> {
            let entry = manifest.entries@[at];
            &&& manifest@.entries[at].artifact_id == entry.artifact_id@
            &&& manifest@.entries[at].path == entry.path@
            &&& manifest@.entries[at].sha256 == entry.sha256@
            &&& manifest@.entries[at].size == entry.size
            &&& manifest@.entries[at].media_type == entry.media_type@
            &&& manifest@.entries[at].content == entry.content@
        },
{
}

/// A page says what it holds, part for part.
pub proof fn a_page_says_what_it_holds(page: ReadPage)
    ensures
        page@.artifact_id == page.artifact_id@,
        page@.sha256 == page.sha256@,
        page@.content_base64 == page.content_base64@,
        page@.byte_start == page.byte_start,
        page@.byte_end == page.byte_end,
        page@.end == page.end,
        page.next_cursor is None <==> page@.next_cursor is None,
        page.next_cursor matches Some(token) ==> page@.next_cursor == Some(token@),
{
}

/// The declared bytes add up: no entries declare none, and one more entry adds its own size.
pub proof fn declared_sizes_add_up(entries: Seq<EntryView>, entry: EntryView)
    ensures
        total_size(entries, 0) == 0,
        total_size(entries.push(entry), entries.len() + 1) == total_size(entries, entries.len())
            + entry.size,
{
    same_entries_same_size(entries, entries.push(entry), entries.len());
}

/// How many bytes the first entries declare depends on those only.
proof fn same_entries_same_size(entries: Seq<EntryView>, more: Seq<EntryView>, count: nat)
    requires
        count <= entries.len() <= more.len(),
        forall|i: int| 0 <= i < count ==> entries[i] == more[i],
    ensures
        total_size(entries, count) == total_size(more, count),
    decreases count,
{
    if count > 0 {
        same_entries_same_size(entries, more, (count - 1) as nat);
    }
}

/// What is found of the first entries depends on those only.
proof fn same_entries_same_verdict(entries: Seq<EntryView>, more: Seq<EntryView>, count: nat)
    requires
        count <= entries.len() <= more.len(),
        forall|i: int| 0 <= i < count ==> entries[i] == more[i],
    ensures
        entries_verdict(entries, count) == entries_verdict(more, count),
    decreases count,
{
    if count > 0 {
        same_entries_same_verdict(entries, more, (count - 1) as nat);
        same_entries_same_size(entries, more, count);
        let at = count - 1;
        if repeats(entries, at) {
            let i = choose|i: int| 0 <= i < at && #[trigger] clash(entries[i], entries[at]);
            assert(clash(more[i], more[at]));
        }
        if repeats(more, at) {
            let i = choose|i: int| 0 <= i < at && #[trigger] clash(more[i], more[at]);
            assert(clash(entries[i], entries[at]));
        }
    }
}

/// No entries pass. One entry more passes exactly where those before pass, it is well formed by
/// itself, the declared bytes are still within the limit, and neither its path nor its id occurs
/// before. What is wrong with the entries before is reported first, then its form, then the sum, and
/// then the repetition.
pub proof fn entries_are_checked_one_after_the_other(entries: Seq<EntryView>, entry: EntryView)
    ensures
        entries_verdict(Seq::<EntryView>::empty(), 0) is Ok,
        ({
            let before = entries_verdict(entries, entries.len());
            let answer = entries_verdict(entries.push(entry), entries.len() + 1);
            let sum = total_size(entries, entries.len()) + entry.size;
            let known = exists|i: int|
                0 <= i < entries.len() && ((#[trigger] entries[i]).path == entry.path
                    || entries[i].artifact_id == entry.artifact_id);
            &&& answer is Ok <==> before is Ok && entry_verdict(entry) is Ok && sum
                <= MAX_ARTIFACT_BYTES_TOTAL && !known
            &&& before is Err ==> answer == before
            &&& before is Ok && entry_verdict(entry) is Err ==> answer == entry_verdict(entry)
            &&& before is Ok && entry_verdict(entry) is Ok && sum > MAX_ARTIFACT_BYTES_TOTAL
                ==> answer == Err::<(), Refusal>(
                Refusal::InvalidCustody("aggregate artifact size exceeds limit"@),
            )
            &&& before is Ok && entry_verdict(entry) is Ok && sum <= MAX_ARTIFACT_BYTES_TOTAL
                && known ==> answer == Err::<(), Refusal>(
                Refusal::InvalidCustody("duplicate artifact id or path"@),
            )
        }),
{
    let more = entries.push(entry);
    let n = entries.len();
    same_entries_same_verdict(entries, more, n);
    declared_sizes_add_up(entries, entry);
    assert(more[n as int] == entry);
    let known = exists|i: int|
        0 <= i < n && ((#[trigger] entries[i]).path == entry.path || entries[i].artifact_id
            == entry.artifact_id);
    assert(repeats(more, n as int) <==> known) by {
        if repeats(more, n as int) {
            let i = choose|i: int| 0 <= i < n && #[trigger] clash(more[i], more[n as int]);
            assert(entries[i] == more[i]);
        }
        if known {
            let i = choose|i: int|
                0 <= i < n && ((#[trigger] entries[i]).path == entry.path || entries[i].artifact_id
                    == entry.artifact_id);
            assert(clash(more[i], more[n as int]));
        }
    }
    assert(entries_verdict(more, n + 1) == if entries_verdict(more, n) is Err {
        entries_verdict(more, n)
    } else {
        entry_at_verdict(more, n)
    });
}

/// A manifest is admitted exactly where it has the known schema and the expected request, project
/// and revision, lies in a directory, declares no more artifacts than it may, each of them well
/// formed and all together within the limit, and no two of them with one path or one id.
pub proof fn a_manifest_is_admitted_where_it_is_in_order(
    request: RequestView,
    manifest: ManifestView,
    has_parent: bool,
)
    ensures
        manifest_verdict(request, manifest, has_parent) is Ok <==> {
            &&& manifest.schema == "bounded-read-v1"@
            &&& manifest.request_id == request.request_id
            &&& manifest.project_id == request.project_id
            &&& manifest.revision == request.revision
            &&& has_parent
            &&& manifest.entries.len() <= MAX_ARTIFACTS
            &&& forall|i: int|
                0 <= i < manifest.entries.len() ==> entry_verdict(
                    #[trigger] manifest.entries[i],
                ) is Ok
            &&& total_size(manifest.entries, manifest.entries.len()) <= MAX_ARTIFACT_BYTES_TOTAL
            &&& forall|i: int, j: int|
                0 <= i < j < manifest.entries.len() ==> (#[trigger] manifest.entries[i]).path != (
                #[trigger] manifest.entries[j]).path && manifest.entries[i].artifact_id
                    != manifest.entries[j].artifact_id
        },
{
    let entries = manifest.entries;
    no_fault_means_in_order(entries);
    if manifest_verdict(request, manifest, has_parent) is Ok {
        assert forall|i: int, j: int| 0 <= i < j < entries.len() implies (#[trigger] entries[i]).path
            != (#[trigger] entries[j]).path && entries[i].artifact_id != entries[j].artifact_id by {
            assert(!clash(entries[i], entries[j]));
        }
    }
}

/// Why a manifest is refused: first comes what it is bound to, next its place, next the number of
/// its artifacts, and last the first fault of its entries.
pub proof fn a_manifest_is_refused_for_its_first_fault(
    request: RequestView,
    manifest: ManifestView,
    has_parent: bool,
)
    ensures
        ({
            let answer = manifest_verdict(request, manifest, has_parent);
            let bound = manifest.schema == "bounded-read-v1"@ && manifest.request_id
                == request.request_id && manifest.project_id == request.project_id
                && manifest.revision == request.revision;
            &&& !bound ==> answer == Err::<(), Refusal>(
                Refusal::InvalidCustody("manifest binding mismatch"@),
            )
            &&& bound && !has_parent ==> answer == Err::<(), Refusal>(
                Refusal::InvalidCustody("manifest has no parent"@),
            )
            &&& bound && has_parent && manifest.entries.len() > MAX_ARTIFACTS ==> answer == Err::<
                (),
                Refusal,
            >(Refusal::InvalidCustody("too many artifacts"@))
            &&& bound && has_parent && manifest.entries.len() <= MAX_ARTIFACTS ==> answer
                == entries_verdict(manifest.entries, manifest.entries.len())
        }),
{
}

/// What is expected of a manifest is accepted exactly where the digest has the form of one and the
/// path is absolute. The digest is looked at first.
pub proof fn an_expectation_has_a_digest_and_an_absolute_path(
    digest: Seq<char>,
    path_is_absolute: bool,
)
    ensures
        expectation_verdict(digest, path_is_absolute) is Ok <==> is_digest(digest)
            && path_is_absolute,
        !is_digest(digest) ==> expectation_verdict(digest, path_is_absolute) == Err::<(), Refusal>(
            Refusal::InvalidCustody("digest must be lowercase SHA-256"@),
        ),
        is_digest(digest) && !path_is_absolute ==> expectation_verdict(digest, path_is_absolute)
            == Err::<(), Refusal>(Refusal::InvalidCustody("manifest path is not absolute"@)),
{
}

/// The bytes of a manifest are taken exactly where there are at most 64 KiB of them and their digest
/// is the expected one. The length is looked at first.
pub proof fn manifest_bytes_pass_with_the_expected_digest(request: RequestView, bytes: Seq<u8>)
    ensures
        manifest_bytes_verdict(request, bytes) is Ok <==> bytes.len() <= 65_536 && hex_text(
            sha256(bytes),
        ) == request.manifest_sha256,
        bytes.len() > 65_536 ==> manifest_bytes_verdict(request, bytes) == Err::<(), Refusal>(
            Refusal::InvalidCustody("bounded file exceeds limit"@),
        ),
        bytes.len() <= 65_536 && manifest_bytes_verdict(request, bytes) is Err
            ==> manifest_bytes_verdict(request, bytes) == Err::<(), Refusal>(
            Refusal::InvalidCustody("manifest digest mismatch"@),
        ),
{
}

/// A plan begins with all entries of its manifest still to be read, in their order, and nothing
/// taken in.
pub proof fn a_plan_begins_with_the_whole_manifest(
    request: RequestView,
    manifest: ManifestView,
    id: Seq<char>,
)
    ensures
        first_plan(request, manifest).request == request,
        first_plan(request, manifest).pending == manifest.entries,
        !first_plan(request, manifest).loaded.contains_key(id),
{
}

/// A plan opens a session over what it has taken in, bound to its request, which begins at the given
/// time with nothing used up and no cursor out.
pub proof fn a_plan_opens_a_fresh_session(
    plan: PlanView,
    started_at: nat,
    nonce: Seq<u8>,
    token: Seq<char>,
)
    ensures
        ({
            let session = plan.opened(started_at, nonce);
            &&& session.entries == plan.loaded
            &&& session.started_at == started_at
            &&& session.binding.nonce == nonce
            &&& session.binding.manifest_sha256 == plan.request.manifest_sha256
            &&& session.binding.request_id == plan.request.request_id
            &&& session.binding.project_id == plan.request.project_id
            &&& session.binding.revision == plan.request.revision
            &&& session.admission.provider_requests == 0
            &&& session.admission.provider_bytes == 0
            &&& session.admission.pages == 0
            &&& session.admission.tool_bytes == 0
            &&& !session.admission.user_turn_started
            &&& !session.admission.issued.contains_key(token)
            &&& !session.admission.consumed.contains(token)
        }),
{
}

/// A session is bound to its nonce and to what its request expected, each in its own place.
pub proof fn a_session_is_bound_to_its_request(plan: PlanView, nonce: Seq<u8>)
    ensures
        plan.binding(nonce).nonce == nonce,
        plan.binding(nonce).manifest_sha256 == plan.request.manifest_sha256,
        plan.binding(nonce).request_id == plan.request.request_id,
        plan.binding(nonce).project_id == plan.request.project_id,
        plan.binding(nonce).revision == plan.request.revision,
{
}

/// Taking in an artifact takes the next entry off the plan, files it under its id with the bytes as
/// its content and all else as declared, and leaves everything else as it was.
pub proof fn taking_in_files_the_next_artifact(plan: PlanView, bytes: Seq<u8>, other: Seq<char>)
    requires
        plan.pending.len() > 0,
    ensures
        ({
            let next = plan.pending[0];
            let then = plan.with_next(bytes);
            &&& then.pending.len() == plan.pending.len() - 1
            &&& forall|i: int|
                0 <= i < then.pending.len() ==> #[trigger] then.pending[i] == plan.pending[i + 1]
            &&& then.loaded.contains_key(next.artifact_id)
            &&& then.loaded[next.artifact_id].content == bytes
            &&& then.loaded[next.artifact_id].artifact_id == next.artifact_id
            &&& then.loaded[next.artifact_id].path == next.path
            &&& then.loaded[next.artifact_id].sha256 == next.sha256
            &&& then.loaded[next.artifact_id].size == next.size
            &&& then.loaded[next.artifact_id].media_type == next.media_type
            &&& other != next.artifact_id ==> {
                &&& then.loaded.contains_key(other) == plan.loaded.contains_key(other)
                &&& then.loaded.contains_key(other) ==> then.loaded[other] == plan.loaded[other]
            }
            &&& then.request == plan.request
        }),
{
}

/// A text of the environment is taken, as it is, exactly where it is there, has a character, and has
/// at most 256 bytes. One that is too long is refused as such.
pub proof fn an_environment_text_is_taken_as_it_is(
    value: Option<Seq<char>>,
    name: Seq<char>,
    text: Seq<char>,
)
    ensures
        env_text_verdict(value, name) == Ok::<Seq<char>, Refusal>(text) <==> value == Some(text)
            && text.len() > 0 && encode_utf8(text).len() <= MAX_ENVIRONMENT_TEXT_BYTES,
        value is None || value == Some(Seq::<char>::empty()) ==> env_text_verdict(value, name) == Err::<
            Seq<char>,
            Refusal,
        >(Refusal::InvalidCustody(name + " is empty or not UTF-8"@)),
        value == Some(text) && text.len() > 0 && encode_utf8(text).len() > MAX_ENVIRONMENT_TEXT_BYTES
            ==> env_text_verdict(value, name) == Err::<Seq<char>, Refusal>(
            Refusal::InvalidCustody(name + " is too long"@),
        ),
{
    if value == Some(text) && text.len() == 0 {
        assert(text =~= Seq::<char>::empty());
    }
}

/// The text of a variable of the environment is the one that it was set to.
pub proof fn an_environment_value_has_its_text(text: String)
    ensures
        env_value_text(EnvValue::Text(text)) == Some(text@),
        env_value_text(EnvValue::NotUtf8) is None,
        env_value_text(EnvValue::Absent) is None,
{
}

/// Custody is asked for as a whole. There is none exactly where none of the five variables is set.
/// Where some are set and others not, that is the error, whatever they hold.
pub proof fn the_environment_is_set_as_a_whole(
    manifest_is_set: bool,
    digest: EnvValue,
    request_id: EnvValue,
    project_id: EnvValue,
    revision: EnvValue,
)
    ensures
        ({
            let answer = environment_verdict(
                manifest_is_set,
                digest,
                request_id,
                project_id,
                revision,
            );
            let all = manifest_is_set && !(digest is Absent) && !(request_id is Absent) && !(
            project_id is Absent) && !(revision is Absent);
            let none = !manifest_is_set && digest is Absent && request_id is Absent
                && project_id is Absent && revision is Absent;
            &&& answer == Ok::<Option<EnvironmentView>, Refusal>(None) <==> none
            &&& !all && !none ==> answer == Err::<Option<EnvironmentView>, Refusal>(
                Refusal::InvalidCustody("bounded read environment is incomplete"@),
            )
        }),
{
}

/// The environment describes a custody exactly where all of its variables are set, the digest is a
/// text, and the three others are texts that are neither empty nor too long. It is described by
/// those texts, each in its own place.
pub proof fn the_environment_describes_what_it_is_set_to(
    manifest_is_set: bool,
    digest: EnvValue,
    request_id: EnvValue,
    project_id: EnvValue,
    revision: EnvValue,
    wanted: EnvironmentView,
)
    ensures
        environment_verdict(manifest_is_set, digest, request_id, project_id, revision) == Ok::<
            Option<EnvironmentView>,
            Refusal,
        >(Some(wanted)) <==> {
            &&& manifest_is_set
            &&& digest matches EnvValue::Text(text) && text@ == wanted.expected_digest
            &&& request_id matches EnvValue::Text(text) && text@ == wanted.request_id
            &&& project_id matches EnvValue::Text(text) && text@ == wanted.project_id
            &&& revision matches EnvValue::Text(text) && text@ == wanted.revision
            &&& wanted.request_id.len() > 0 && encode_utf8(wanted.request_id).len()
                <= MAX_ENVIRONMENT_TEXT_BYTES
            &&& wanted.project_id.len() > 0 && encode_utf8(wanted.project_id).len()
                <= MAX_ENVIRONMENT_TEXT_BYTES
            &&& wanted.revision.len() > 0 && encode_utf8(wanted.revision).len()
                <= MAX_ENVIRONMENT_TEXT_BYTES
        },
{
}

/// Where all variables of the environment are set, the first one at fault is reported: first comes
/// the digest, next the request, next the project, and last the revision.
pub proof fn the_environment_is_refused_for_its_first_fault(
    digest: EnvValue,
    request_id: EnvValue,
    project_id: EnvValue,
    revision: EnvValue,
)
    requires
        !(digest is Absent),
        !(request_id is Absent),
        !(project_id is Absent),
        !(revision is Absent),
    ensures
        ({
            let answer = environment_verdict(true, digest, request_id, project_id, revision);
            let request = env_text_verdict(env_value_text(request_id), "request id"@);
            let project = env_text_verdict(env_value_text(project_id), "project id"@);
            let version = env_text_verdict(env_value_text(revision), "revision"@);
            &&& digest is NotUtf8 ==> answer == Err::<Option<EnvironmentView>, Refusal>(
                Refusal::InvalidCustody("manifest digest is not UTF-8"@),
            )
            &&& digest is Text && request is Err ==> answer == Err::<
                Option<EnvironmentView>,
                Refusal,
            >(request->Err_0)
            &&& digest is Text && request is Ok && project is Err ==> answer == Err::<
                Option<EnvironmentView>,
                Refusal,
            >(project->Err_0)
            &&& digest is Text && request is Ok && project is Ok && version is Err ==> answer
                == Err::<Option<EnvironmentView>, Refusal>(version->Err_0)
        }),
{
}

/// An object without members has none of any name. One more member is found under its own name, and
/// changes nothing of the others.
pub proof fn a_member_is_found_under_its_name(
    members: Seq<(Seq<char>, JsonModel)>,
    added: Seq<char>,
    value: JsonModel,
    name: Seq<char>,
)
    ensures
        member(Seq::<(Seq<char>, JsonModel)>::empty(), name) is None,
        member(members.push((added, value)), added) == Some(value),
        name != added ==> member(members.push((added, value)), name) == member(members, name),
        JsonModel::Object(members).get(name) == member(members, name),
{
    assert(members.push((added, value)).drop_last() =~= members);
}

/// Where a member is found, it stands among the members.
proof fn a_found_member_is_there(members: Seq<(Seq<char>, JsonModel)>, name: Seq<char>) -> (at: int)
    requires
        member(members, name) is Some,
    ensures
        0 <= at < members.len(),
        members[at].0 == name,
    decreases members.len(),
{
    if members.last().0 == name {
        members.len() - 1
    } else {
        a_found_member_is_there(members.drop_last(), name)
    }
}

/// Where a member stands among the members, it is found.
proof fn a_member_that_is_there_is_found(
    members: Seq<(Seq<char>, JsonModel)>,
    name: Seq<char>,
    at: int,
)
    requires
        0 <= at < members.len(),
        members[at].0 == name,
    ensures
        member(members, name) is Some,
    decreases members.len(),
{
    if members.last().0 != name {
        a_member_that_is_there_is_found(members.drop_last(), name, at);
    }
}

/// A request passes exactly where it allows no parallel calls and its tools are one strict function
/// of the known name, whose parameters are the closed schema of an object with the two properties
/// `artifact_id` and `cursor`, in either order and no other, of which only `artifact_id` is required.
pub proof fn a_request_passes_with_the_closed_schema_only(request: JsonModel)
    ensures
        request_json_verdict(request) is Ok <==> {
            &&& request.get("parallel_tool_calls"@) == Some(JsonModel::Bool(false))
            &&& request.get("tools"@) matches Some(JsonModel::Array(tools)) && {
                &&& tools.len() == 1
                &&& tools[0].get("type"@) == Some(JsonModel::Text("function"@))
                &&& tools[0].get("name"@) == Some(JsonModel::Text("read_custodied_page"@))
                &&& tools[0].get("strict"@) == Some(JsonModel::Bool(true))
                &&& tools[0].get("parameters"@) matches Some(JsonModel::Object(fields)) && {
                    &&& member(fields, "type"@) == Some(JsonModel::Text("object"@))
                    &&& member(fields, "additionalProperties"@) == Some(JsonModel::Bool(false))
                    &&& member(fields, "properties"@) matches Some(JsonModel::Object(properties)) && {
                        &&& properties.len() == 2
                        &&& (properties[0].0 == "artifact_id"@ && properties[1].0 == "cursor"@) || (
                        properties[0].0 == "cursor"@ && properties[1].0 == "artifact_id"@)
                    }
                    &&& member(fields, "required"@) matches Some(JsonModel::Array(required)) && {
                        &&& required.len() == 1
                        &&& required[0] == JsonModel::Text("artifact_id"@)
                    }
                }
            }
        },
{
    reveal_strlit("artifact_id");
    reveal_strlit("cursor");
    assert("artifact_id"@.len() == 11 && "cursor"@.len() == 6);
    if request.get("tools"@) is Some && request.get("tools"@)->Some_0 is Array {
        let tools = request.get("tools"@)->Some_0->Array_0;
        if tools.len() == 1 && tools[0].get("parameters"@) is Some && tools[0].get(
            "parameters"@,
        )->Some_0 is Object {
            let fields = tools[0].get("parameters"@)->Some_0->Object_0;
            assert(tools[0].get("parameters"@) == Some(JsonModel::Object(fields)));
            if member(fields, "required"@) is Some && member(fields, "required"@)->Some_0 is Array {
                let required = member(fields, "required"@)->Some_0->Array_0;
                if required.len() == 1 && required[0] == JsonModel::Text("artifact_id"@) {
                    assert(required =~= seq![JsonModel::Text("artifact_id"@)]);
                }
            }
            if member(fields, "properties"@) is Some && member(
                fields,
                "properties"@,
            )->Some_0 is Object {
                let properties = member(fields, "properties"@)->Some_0->Object_0;
                two_members_are_the_two_names(properties);
            }
        }
    }
}

/// Of two members two different names are found exactly where those are the names.
proof fn two_members_are_the_two_names(properties: Seq<(Seq<char>, JsonModel)>)
    requires
        "artifact_id"@ != "cursor"@,
    ensures
        properties.len() == 2 ==> (member(properties, "artifact_id"@) is Some && member(
            properties,
            "cursor"@,
        ) is Some <==> (properties[0].0 == "artifact_id"@ && properties[1].0 == "cursor"@) || (
        properties[0].0 == "cursor"@ && properties[1].0 == "artifact_id"@)),
{
    if properties.len() == 2 {
        if member(properties, "artifact_id"@) is Some && member(properties, "cursor"@) is Some {
            let first = a_found_member_is_there(properties, "artifact_id"@);
            let second = a_found_member_is_there(properties, "cursor"@);
        }
        if properties[0].0 == "artifact_id"@ && properties[1].0 == "cursor"@ {
            a_member_that_is_there_is_found(properties, "artifact_id"@, 0);
            a_member_that_is_there_is_found(properties, "cursor"@, 1);
        }
        if properties[0].0 == "cursor"@ && properties[1].0 == "artifact_id"@ {
            a_member_that_is_there_is_found(properties, "artifact_id"@, 1);
            a_member_that_is_there_is_found(properties, "cursor"@, 0);
        }
    }
}

/// Why a request is refused: first come parallel calls, next missing tools, next their number, and
/// last what is wrong with the one tool.
pub proof fn a_request_is_refused_for_its_first_fault(request: JsonModel)
    ensures
        ({
            let answer = request_json_verdict(request);
            let serial = request.get("parallel_tool_calls"@) == Some(JsonModel::Bool(false));
            let tools = request.get("tools"@);
            &&& !serial ==> answer == Err::<(), Refusal>(
                Refusal::InvalidCustody("bounded request permits no parallel tool calls"@),
            )
            &&& serial && !(tools is Some && tools->Some_0 is Array) ==> answer == Err::<(), Refusal>(
                Refusal::InvalidCustody("bounded request tools are missing"@),
            )
            &&& serial && tools is Some && tools->Some_0 is Array && tools->Some_0->Array_0.len() != 1
                ==> answer == Err::<(), Refusal>(
                Refusal::InvalidCustody("bounded request must expose exactly one tool"@),
            )
            &&& serial && tools is Some && tools->Some_0 is Array && tools->Some_0->Array_0.len() == 1
                ==> answer == tool_json_verdict(tools->Some_0->Array_0[0])
        }),
{
}

/// An encoded request is judged by what it encodes. Where it encodes nothing, the parser's word is
/// passed on.
pub proof fn an_encoded_request_is_judged_by_what_it_encodes(encoded: Seq<u8>)
    ensures
        json_parse(encoded) matches Ok(request) ==> encoded_request_verdict(encoded)
            == request_json_verdict(request),
        json_parse(encoded) matches Err(text) ==> encoded_request_verdict(encoded) == Err::<
            (),
            Refusal,
        >(Refusal::InvalidCustody("provider request JSON: "@ + text)),
{
}

/// A JSON value says what it holds, item for item and member for member.
pub proof fn a_json_value_says_what_it_holds(value: Json, at: int)
    ensures
        value is Null ==> value.model() == JsonModel::Null,
        value matches Json::Bool(flag) ==> value.model() == JsonModel::Bool(flag),
        value is Number ==> value.model() == JsonModel::Number,
        value matches Json::Text(text) ==> value.model() == JsonModel::Text(text@),
        value matches Json::Array(items) ==> (value.model() matches JsonModel::Array(models)
            && models.len() == items@.len() && (0 <= at < items@.len() ==> models[at]
            == items@[at].model())),
        value matches Json::Object(members) ==> (value.model() matches JsonModel::Object(models)
            && models.len() == members@.len() && (0 <= at < members@.len() ==> models[at] == (
            members@[at].0@,
            members@[at].1.model(),
        ))),
{
}

/// Why a tool is refused: first come missing parameters, next their missing properties, next the
/// missing list of the required ones, and last anything else that differs.
pub proof fn a_tool_is_refused_for_its_first_fault(tool: JsonModel)
    ensures
        ({
            let answer = tool_json_verdict(tool);
            let parameters = tool.get("parameters"@);
            let has_parameters = parameters is Some && parameters->Some_0 is Object;
            let properties = parameters->Some_0.get("properties"@);
            let has_properties = properties is Some && properties->Some_0 is Object;
            let required = parameters->Some_0.get("required"@);
            let has_required = required is Some && required->Some_0 is Array;
            &&& !has_parameters ==> answer == Err::<(), Refusal>(
                Refusal::InvalidCustody("bounded read tool parameters are missing"@),
            )
            &&& has_parameters && !has_properties ==> answer == Err::<(), Refusal>(
                Refusal::InvalidCustody("bounded read tool properties are missing"@),
            )
            &&& has_parameters && has_properties && !has_required ==> answer == Err::<(), Refusal>(
                Refusal::InvalidCustody("bounded read tool required fields are missing"@),
            )
            &&& has_parameters && has_properties && has_required && answer is Err ==> answer
                == Err::<(), Refusal>(
                Refusal::InvalidCustody("bounded request tool schema mismatch"@),
            )
        }),
{
}

/// The tool that a provider is told of is the one that reads pages, with its two text parameters, of
/// which the cursor may be left out.
pub proof fn the_page_tool_takes_an_artifact_and_a_cursor()
    ensures
        page_tool().name == "read_custodied_page"@,
        page_tool().description
            == "Read one bounded page from an allowlisted custodied request artifact."@,
        page_tool().strict,
        page_tool().properties.len() == 2,
        page_tool().properties[0].0 == "artifact_id"@,
        page_tool().properties[0].1 == "Custodied artifact identifier from the request package."@,
        page_tool().properties[1].0 == "cursor"@,
        page_tool().properties[1].1 == "Opaque cursor returned by the preceding page."@,
        page_tool().required.len() == 1,
        page_tool().required[0] == "artifact_id"@,
        !page_tool().additional_properties,
        page_tool().defer_loading is None,
        page_tool().output_schema is None,
{
}

/// A tool as a JSON value has each of its parts under the name that the check of requests looks for.
pub proof fn a_tool_has_its_parts_under_their_names(tool: ToolView, at: int)
    ensures
        tool_model(tool).get("type"@) == Some(JsonModel::Text("function"@)),
        tool_model(tool).get("name"@) == Some(JsonModel::Text(tool.name)),
        tool_model(tool).get("description"@) == Some(JsonModel::Text(tool.description)),
        tool_model(tool).get("strict"@) == Some(JsonModel::Bool(tool.strict)),
        tool_model(tool).get("parameters"@) matches Some(parameters) && {
            &&& parameters.get("type"@) == Some(JsonModel::Text("object"@))
            &&& parameters.get("additionalProperties"@) == Some(
                JsonModel::Bool(tool.additional_properties),
            )
            &&& parameters.get("properties"@) matches Some(JsonModel::Object(properties)) && {
                &&& properties.len() == tool.properties.len()
                &&& 0 <= at < properties.len() ==> {
                    &&& properties[at].0 == tool.properties[at].0
                    &&& properties[at].1.get("type"@) == Some(JsonModel::Text("string"@))
                    &&& properties[at].1.get("description"@) == Some(
                        JsonModel::Text(tool.properties[at].1),
                    )
                }
            }
            &&& parameters.get("required"@) matches Some(JsonModel::Array(required)) && {
                &&& required.len() == tool.required.len()
                &&& 0 <= at < required.len() ==> required[at] == JsonModel::Text(tool.required[at])
            }
        },
{
    reveal_strlit("type");
    reveal_strlit("name");
    reveal_strlit("description");
    reveal_strlit("strict");
    reveal_strlit("parameters");
    reveal_strlit("properties");
    reveal_strlit("required");
    reveal_strlit("additionalProperties");
    assert("type"@.len() == 4 && "name"@.len() == 4 && "type"@[0] != "name"@[0]);
    assert("description"@.len() == 11 && "strict"@.len() == 6 && "parameters"@.len() == 10);
    assert("properties"@.len() == 10 && "required"@.len() == 8);
    assert("additionalProperties"@.len() == 20);
    let members = tool_model(tool)->Object_0;
    let fields = parameters_model(tool)->Object_0;
    last_member_counts(members, 0, "type"@);
    last_member_counts(members, 1, "name"@);
    last_member_counts(members, 2, "description"@);
    last_member_counts(members, 3, "strict"@);
    last_member_counts(members, 4, "parameters"@);
    last_member_counts(fields, 0, "type"@);
    last_member_counts(fields, 1, "properties"@);
    last_member_counts(fields, 2, "required"@);
    last_member_counts(fields, 3, "additionalProperties"@);
    if 0 <= at < tool.properties.len() {
        let described = property_model(tool.properties[at].1)->Object_0;
        last_member_counts(described, 0, "type"@);
        last_member_counts(described, 1, "description"@);
    }
}

/// A payload gives a call its arguments exactly where it is a function call whose arguments were
/// understood, and then as they are. Else the call ends with what was wrong.
pub proof fn a_payload_gives_its_arguments(args: ReadPageArgs, error: String)
    ensures
        payload_verdict(ToolPayload::Function(Ok(args))) == Ok::<ReadPageArgs, Seq<char>>(args),
        payload_verdict(ToolPayload::Function(Err(error))) == Err::<ReadPageArgs, Seq<char>>(
            "invalid-custody: invalid bounded read arguments: "@ + error@,
        ),
        payload_verdict(ToolPayload::Other) == Err::<ReadPageArgs, Seq<char>>(
            "bounded read received a non-function payload"@,
        ),
{
}

/// A cursor is passed on as it is, and none as none.
pub proof fn a_cursor_is_passed_on_as_it_is(artifact_id: String, token: String, text: &str)
    ensures
        args_cursor((ReadPageArgs { artifact_id, cursor: Some(token) })) == Some(token@),
        args_cursor((ReadPageArgs { artifact_id, cursor: None })) is None,
        cursor_text(Some(text)) == Some(text@),
        cursor_text(None) is None,
{
}

/// A result is taken as it is: its value where it has one, and its error by its kind and text.
pub proof fn an_outcome_is_the_result_itself(value: u128, message: String)
    ensures
        outcome(Ok::<u128, BoundedReadError>(value)) == Ok::<u128, Refusal>(value),
        outcome(Ok::<(), BoundedReadError>(())) == Ok::<(), Refusal>(()),
        outcome(Err::<(), BoundedReadError>(BoundedReadError::InvalidCustody(message))) == Err::<
            (),
            Refusal,
        >(Refusal::InvalidCustody(message@)),
        outcome(Err::<(), BoundedReadError>(BoundedReadError::ContextTooLarge)) == Err::<
            (),
            Refusal,
        >(Refusal::ContextTooLarge),
        outcome(Err::<(), BoundedReadError>(BoundedReadError::BudgetExhausted)) == Err::<
            (),
            Refusal,
        >(Refusal::BudgetExhausted),
        outcome(Err::<(), BoundedReadError>(BoundedReadError::DeadlineExceeded)) == Err::<
            (),
            Refusal,
        >(Refusal::DeadlineExceeded),
{
}

/// An error has the code of its kind, and a call that it ends is answered with the code and the
/// message. Only an error of custody says more, and that word for word.
pub proof fn an_error_says_its_kind_and_its_reason(reason: Seq<char>)
    ensures
        refusal_code(Refusal::ContextTooLarge) == "context-too-large"@,
        refusal_code(Refusal::BudgetExhausted) == "budget-exhausted"@,
        refusal_code(Refusal::DeadlineExceeded) == "deadline-exceeded"@,
        refusal_code(Refusal::InvalidCustody(reason)) == "invalid-custody"@,
        refusal_message(Refusal::ContextTooLarge) == "bounded read context is too large"@,
        refusal_message(Refusal::BudgetExhausted) == "bounded read budget is exhausted"@,
        refusal_message(Refusal::DeadlineExceeded) == "bounded read deadline exceeded"@,
        refusal_message(Refusal::InvalidCustody(reason)) == "bounded read custody is invalid: "@
            + reason,
        fatal_text(Refusal::ContextTooLarge) == "context-too-large"@ + ": "@
            + "bounded read context is too large"@,
        fatal_text(Refusal::BudgetExhausted) == "budget-exhausted"@ + ": "@
            + "bounded read budget is exhausted"@,
        fatal_text(Refusal::DeadlineExceeded) == "deadline-exceeded"@ + ": "@
            + "bounded read deadline exceeded"@,
        fatal_text(Refusal::InvalidCustody(reason)) == "invalid-custody"@ + ": "@ + (
        "bounded read custody is invalid: "@ + reason),
{
}

} // verus!
