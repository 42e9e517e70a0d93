//! Sessions: pages, cursors, budgets and the deadline.

use base64::Engine;
use bounded_read::custody::{CustodyPlan, LoadRequest};
use bounded_read::digest::{hex, sha256_hex, validate_digest};
use bounded_read::error::BoundedReadError;
use bounded_read::limits::{
    DEADLINE_NANOS, MAX_OUTPUT_TOKENS, MAX_PAGES, MAX_PAGE_CONTENT_BYTES, MAX_PROVIDER_REQUESTS,
    MAX_PROVIDER_REQUEST_BYTES, MAX_TOOL_RESULT_BYTES, PROVIDER_FRAMING_RESERVE,
};
use bounded_read::manifest::{Manifest, ManifestEntry};
use bounded_read::page::ReadPage;
use bounded_read::session::BoundedReadSession;
use bounded_read::tool::{handle, payload_args, ReadPageArgs, ToolPayload};

const MANIFEST: &[u8] = b"{\"schema\":\"bounded-read-v1\"}";

fn entry(id: &str, path: &str, content: &[u8]) -> ManifestEntry {
    ManifestEntry {
        artifact_id: id.to_string(),
        path: path.to_string(),
        sha256: sha256_hex(content),
        size: content.len() as u64,
        media_type: "text/plain".to_string(),
        content: Vec::new(),
    }
}

fn plan(contents: &[(&str, &str, Vec<u8>)]) -> CustodyPlan {
    let manifest = Manifest {
        schema: "bounded-read-v1".to_string(),
        request_id: "request".to_string(),
        project_id: "project".to_string(),
        revision: "revision".to_string(),
        entries: contents
            .iter()
            .map(|(id, path, content)| entry(id, path, content))
            .collect(),
    };
    let request = LoadRequest::new(
        &sha256_hex(MANIFEST),
        true,
        "request".to_string(),
        "project".to_string(),
        "revision".to_string(),
    )
    .unwrap();
    let verified = request.verify_manifest(MANIFEST.to_vec()).unwrap();
    let mut plan = match verified.admit_manifest(manifest, true) {
        Ok(plan) => plan,
        Err(error) => panic!("{:?}", error),
    };
    for (_, path, content) in contents {
        assert_eq!(plan.next_entry().unwrap().path, *path);
        plan.accept(content.clone()).unwrap();
    }
    assert!(plan.next_entry().is_none());
    plan
}

fn session_of(contents: &[(&str, &str, Vec<u8>)]) -> BoundedReadSession {
    plan(contents).open(0)
}

fn fixture() -> BoundedReadSession {
    session_of(&[("artifact", "artifact.txt", vec![b'x'; 3_100])])
}

fn decoded(page: &ReadPage) -> Vec<u8> {
    base64::engine::general_purpose::STANDARD
        .decode(&page.content_base64)
        .unwrap()
}

fn message_of<T>(result: Result<T, BoundedReadError>) -> String {
    match result {
        Ok(_) => panic!("not refused"),
        Err(BoundedReadError::InvalidCustody(message)) => message,
        Err(error) => panic!("{:?}", error),
    }
}

#[test]
fn pages_with_opaque_one_use_cursors_and_no_paths() {
    let mut session = fixture();
    let first = session.read_page("artifact", None, 0).unwrap();
    assert_eq!(first.byte_start, 0);
    assert!(!first.end);
    let cursor = first.next_cursor.as_deref().unwrap();
    assert!(!cursor.contains("artifact.txt"));
    let second = session.read_page("artifact", Some(cursor), 0).unwrap();
    assert_eq!(second.byte_start, MAX_PAGE_CONTENT_BYTES as u64);
    assert!(matches!(
        session.read_page("artifact", Some(cursor), 0),
        Err(BoundedReadError::InvalidCustody(_))
    ));
    assert!(matches!(
        session.read_page("other", second.next_cursor.as_deref(), 0),
        Err(BoundedReadError::InvalidCustody(_))
    ));
}

#[test]
fn admission_enforces_each_cumulative_count_and_context_boundaries() {
    let mut session = fixture();
    assert!(session.admit_tool_result(MAX_TOOL_RESULT_BYTES, 0).is_ok());
    assert!(session.admit_tool_result(MAX_TOOL_RESULT_BYTES, 0).is_ok());
    assert!(session.admit_tool_result(MAX_TOOL_RESULT_BYTES, 0).is_ok());
    assert!(session.admit_tool_result(MAX_TOOL_RESULT_BYTES, 0).is_ok());
    assert_eq!(
        session.admit_tool_result(0, 0).unwrap_err().code(),
        "budget-exhausted"
    );

    let mut session = fixture();
    for _ in 0..MAX_PROVIDER_REQUESTS {
        assert!(session
            .admit_provider_request(MAX_PROVIDER_REQUEST_BYTES, 100_000, 0)
            .is_ok());
    }
    assert_eq!(
        session
            .admit_provider_request(0, 100_000, 0)
            .unwrap_err()
            .code(),
        "budget-exhausted"
    );
    let mut session = fixture();
    assert_eq!(
        session
            .admit_provider_request(
                MAX_PROVIDER_REQUEST_BYTES,
                MAX_PROVIDER_REQUEST_BYTES as u64 + MAX_OUTPUT_TOKENS + PROVIDER_FRAMING_RESERVE
                    - 1,
                0,
            )
            .unwrap_err()
            .code(),
        "context-too-large"
    );
}

#[test]
fn second_user_turn_is_refused_by_shared_session_state() {
    let mut session = fixture();
    assert!(session.begin_user_turn(0).is_ok());
    assert_eq!(
        session.begin_user_turn(0).unwrap_err().code(),
        "budget-exhausted"
    );
}

#[test]
fn verified_artifact_is_immutable_for_the_session() {
    let mut file = vec![b'x'; 3_100];
    let mut session = session_of(&[("artifact", "artifact.txt", file.clone())]);
    file.fill(b'y');
    let page = session.read_page("artifact", None, 0).unwrap();
    assert_eq!(decoded(&page), vec![b'x'; MAX_PAGE_CONTENT_BYTES]);
}

#[test]
fn expired_session_refuses_without_consuming_quota() {
    let mut session = fixture();
    let late = DEADLINE_NANOS + 1_000_000_000;
    assert_eq!(
        session.admit_tool_result(1, late).unwrap_err().code(),
        "deadline-exceeded"
    );
    assert_eq!(
        session
            .admit_provider_request(1, 100_000, late)
            .unwrap_err()
            .code(),
        "deadline-exceeded"
    );
    for _ in 0..MAX_PAGES {
        assert!(session.admit_tool_result(MAX_TOOL_RESULT_BYTES, 0).is_ok());
    }
    for _ in 0..MAX_PROVIDER_REQUESTS {
        assert!(session
            .admit_provider_request(MAX_PROVIDER_REQUEST_BYTES, 100_000, 0)
            .is_ok());
    }
}

#[test]
fn the_deadline_itself_is_still_in_time() {
    let mut session = plan(&[("a", "a", Vec::new())]).open(500);
    assert_eq!(session.remaining(0).unwrap(), DEADLINE_NANOS);
    assert_eq!(session.remaining(500).unwrap(), DEADLINE_NANOS);
    assert_eq!(session.remaining(501).unwrap(), DEADLINE_NANOS - 1);
    assert_eq!(session.remaining(500 + DEADLINE_NANOS).unwrap(), 0);
    assert!(session.check_deadline(500 + DEADLINE_NANOS).is_ok());
    assert_eq!(
        session
            .remaining(501 + DEADLINE_NANOS)
            .unwrap_err()
            .message(),
        "bounded read deadline exceeded"
    );
    assert_eq!(
        session
            .begin_user_turn(501 + DEADLINE_NANOS)
            .unwrap_err()
            .code(),
        "deadline-exceeded"
    );
    assert!(session.begin_user_turn(500 + DEADLINE_NANOS).is_ok());
    assert_eq!(
        session
            .read_page("a", None, 501 + DEADLINE_NANOS)
            .unwrap_err()
            .code(),
        "deadline-exceeded"
    );
    assert_eq!(DEADLINE_NANOS, 900_000_000_000);
}

#[test]
fn single_messages_have_limits_of_their_own() {
    let mut session = fixture();
    assert_eq!(
        session
            .admit_tool_result(MAX_TOOL_RESULT_BYTES + 1, 0)
            .unwrap_err()
            .code(),
        "budget-exhausted"
    );
    assert_eq!(
        session
            .admit_provider_request(MAX_PROVIDER_REQUEST_BYTES + 1, u64::MAX, 0)
            .unwrap_err()
            .code(),
        "context-too-large"
    );
    assert_eq!(
        session
            .admit_provider_request(usize::MAX, u64::MAX, 0)
            .unwrap_err()
            .message(),
        "bounded read context is too large"
    );
    let exact = MAX_PROVIDER_REQUEST_BYTES as u64 + MAX_OUTPUT_TOKENS + PROVIDER_FRAMING_RESERVE;
    assert_eq!(exact, 40_096);
    assert!(session
        .admit_provider_request(MAX_PROVIDER_REQUEST_BYTES, exact, 0)
        .is_ok());
}

#[test]
fn some_refusals_need_no_look_at_the_budgets() {
    let mut session = fixture();
    for _ in 0..MAX_PAGES {
        assert!(session.admit_tool_result(0, 0).is_ok());
    }
    assert!(session.check_tool_result(MAX_TOOL_RESULT_BYTES, 0).is_ok());
    assert_eq!(
        session
            .check_tool_result(MAX_TOOL_RESULT_BYTES + 1, 0)
            .unwrap_err()
            .code(),
        "budget-exhausted"
    );
    assert_eq!(
        session
            .check_tool_result(0, DEADLINE_NANOS + 1)
            .unwrap_err()
            .code(),
        "deadline-exceeded"
    );
    assert!(session.check_provider_request(10, 8_106, 0).is_ok());
    assert_eq!(
        session
            .check_provider_request(10, 8_105, 0)
            .unwrap_err()
            .code(),
        "context-too-large"
    );
    assert_eq!(
        session
            .check_provider_request(MAX_PROVIDER_REQUEST_BYTES + 1, u64::MAX, 0)
            .unwrap_err()
            .code(),
        "context-too-large"
    );
    assert_eq!(
        session
            .check_provider_request(10, 8_106, DEADLINE_NANOS + 1)
            .unwrap_err()
            .code(),
        "deadline-exceeded"
    );
}

#[test]
fn following_cursors_gives_the_whole_artifact() {
    let content: Vec<u8> = (0..3_100u32).map(|i| (i % 251) as u8).collect();
    let mut session = session_of(&[("artifact", "artifact.txt", content.clone())]);
    let mut cursor: Option<String> = None;
    let mut read: Vec<u8> = Vec::new();
    let mut starts: Vec<u64> = Vec::new();
    loop {
        let page = session.read_page("artifact", cursor.as_deref(), 0).unwrap();
        assert_eq!(page.artifact_id, "artifact");
        assert_eq!(page.sha256, sha256_hex(&content));
        assert_eq!(page.byte_start, read.len() as u64);
        read.extend(decoded(&page));
        assert_eq!(page.byte_end, read.len() as u64);
        starts.push(page.byte_start);
        assert_eq!(page.end, page.next_cursor.is_none());
        if page.end {
            break;
        }
        cursor = page.next_cursor;
    }
    assert_eq!(read, content);
    assert_eq!(starts, vec![0, 1_024, 2_048, 3_072]);
}

#[test]
fn an_artifact_of_whole_pages_ends_with_its_last_page() {
    let mut session = session_of(&[
        ("two", "two.txt", vec![7; 2_048]),
        ("none", "none.txt", Vec::new()),
    ]);
    let first = session.read_page("two", None, 0).unwrap();
    let second = session
        .read_page("two", first.next_cursor.as_deref(), 0)
        .unwrap();
    assert!(second.end);
    assert_eq!(second.byte_end, 2_048);
    assert!(second.next_cursor.is_none());
    let empty = session.read_page("none", None, 0).unwrap();
    assert!(empty.end);
    assert_eq!((empty.byte_start, empty.byte_end), (0, 0));
    assert_eq!(empty.content_base64, "");
}

#[test]
fn a_page_is_in_standard_base64() {
    let mut session = session_of(&[("artifact", "artifact.txt", b"custodied evidence".to_vec())]);
    let page = session.read_page("artifact", None, 0).unwrap();
    assert_eq!(page.content_base64, "Y3VzdG9kaWVkIGV2aWRlbmNl");
    let mut session = session_of(&[("artifact", "artifact.txt", vec![0xfb, 0xff])]);
    let page = session.read_page("artifact", None, 0).unwrap();
    assert_eq!(page.content_base64, "+/8=");
    let mut session = session_of(&[("artifact", "artifact.txt", vec![0x00])]);
    let page = session.read_page("artifact", None, 0).unwrap();
    assert_eq!(page.content_base64, "AA==");
    let mut session = session_of(&[(
        "artifact",
        "artifact.txt",
        vec![
            0x00, 0x10, 0x83, 0x10, 0x51, 0x87, 0x20, 0x92, 0x8b, 0x30, 0xd3, 0x8f, 0x41, 0x14,
            0x93, 0x51, 0x55, 0x97, 0x61, 0x96, 0x9b, 0x71, 0xd7, 0x9f, 0x82, 0x18, 0xa3, 0x92,
            0x59, 0xa7, 0xa2, 0x9a, 0xab, 0xb2, 0xdb, 0xaf, 0xc3, 0x1c, 0xb3, 0xd3, 0x5d, 0xb7,
            0xe3, 0x9e, 0xbb, 0xf3, 0xdf, 0xbf,
        ],
    )]);
    let page = session.read_page("artifact", None, 0).unwrap();
    assert_eq!(
        page.content_base64,
        "ABCDEFGHIJKLMNOPQRSTUVWXYZabcdefghijklmnopqrstuvwxyz0123456789+/"
    );
}

#[test]
fn the_texts_of_the_largest_page_fit_into_a_tool_result() {
    let id = "i".repeat(128);
    let mut session = session_of(&[(id.as_str(), "artifact.txt", vec![b'x'; 3_100])]);
    let page = session.read_page(&id, None, 0).unwrap();
    let cursor = page.next_cursor.unwrap();
    assert_eq!(page.content_base64.len(), 1_368);
    assert_eq!(
        page.artifact_id.len() + page.sha256.len() + page.content_base64.len() + cursor.len(),
        1_624
    );
    assert!(1_624 + 400 <= MAX_TOOL_RESULT_BYTES);
}

#[test]
fn pages_do_not_depend_on_the_path() {
    let nonce = [3u8; 32];
    let package = |path: &'static str| {
        plan(&[
            ("artifact", path, vec![b'x'; 3_100]),
            ("second", "second.txt", vec![b'y'; 1_100]),
        ])
        .open_with_nonce(0, nonce)
    };
    let mut here = package("here.txt");
    let mut there = package("there/b.txt");
    let mut cursor: Option<String> = None;
    for id in ["artifact", "second", "artifact", "unknown"] {
        let first = here.read_page(id, cursor.as_deref(), 0);
        let second = there.read_page(id, cursor.as_deref(), 0);
        match (first, second) {
            (Ok(first), Ok(second)) => {
                assert_eq!(first.content_base64, second.content_base64);
                assert_eq!(first.next_cursor, second.next_cursor);
                cursor = first.next_cursor;
            }
            (Err(first), Err(second)) => assert_eq!(first.message(), second.message()),
            _ => panic!("answered differently"),
        }
    }
}

#[test]
fn only_a_whole_artifact_needs_no_admission() {
    let mut session = session_of(&[
        ("whole", "whole.txt", vec![b'x'; 1_024]),
        ("long", "long.txt", vec![b'x'; 1_025]),
    ]);
    let bare = session.read_page_without_admission("whole", None, 0).unwrap();
    let page = session.read_page("whole", None, 0).unwrap();
    assert_eq!(format!("{:?}", bare), format!("{:?}", page));
    assert_eq!(decoded(&bare), vec![b'x'; 1_024]);
    for (id, cursor, message) in [
        ("long", None, "admission lock poisoned"),
        ("whole", Some("token"), "admission lock poisoned"),
        ("other", Some("token"), "unknown artifact id"),
        ("other", None, "unknown artifact id"),
    ] {
        assert_eq!(
            message_of(session.read_page_without_admission(id, cursor, 0)),
            message
        );
    }
    assert_eq!(
        session
            .read_page_without_admission("other", None, DEADLINE_NANOS + 1)
            .unwrap_err()
            .code(),
        "deadline-exceeded"
    );
}

#[test]
fn artifacts_are_read_independently() {
    let mut session = session_of(&[
        ("first", "first.txt", vec![1; 2_000]),
        ("second", "second.txt", vec![2; 2_000]),
    ]);
    let a = session.read_page("first", None, 0).unwrap();
    let b = session.read_page("second", None, 0).unwrap();
    let a = session
        .read_page("first", a.next_cursor.as_deref(), 0)
        .unwrap();
    let b = session
        .read_page("second", b.next_cursor.as_deref(), 0)
        .unwrap();
    assert_eq!(decoded(&a), vec![1; 976]);
    assert_eq!(decoded(&b), vec![2; 976]);
    assert!(a.end && b.end);
}

#[test]
fn each_misuse_of_a_cursor_has_its_message() {
    let mut session = session_of(&[
        ("first", "first.txt", vec![1; 3_000]),
        ("second", "second.txt", vec![2; 3_000]),
    ]);
    assert_eq!(
        message_of(session.read_page("third", None, 0)),
        "unknown artifact id"
    );
    assert_eq!(
        message_of(session.read_page("first", Some("made up"), 0)),
        "forged cursor"
    );
    let cursor = session
        .read_page("first", None, 0)
        .unwrap()
        .next_cursor
        .unwrap();
    assert_eq!(
        message_of(session.read_page("second", Some(&cursor), 0)),
        "cursor artifact mismatch"
    );
    assert_eq!(
        message_of(session.read_page("first", Some(&cursor), 0)),
        "forged cursor"
    );
    let again = session
        .read_page("first", None, 0)
        .unwrap()
        .next_cursor
        .unwrap();
    assert_eq!(again, cursor);
    assert!(session.read_page("first", Some(&again), 0).is_ok());
    assert_eq!(
        message_of(session.read_page("first", Some(&again), 0)),
        "stale cursor"
    );
    assert_eq!(
        session
            .read_page("first", None, 0)
            .unwrap()
            .next_cursor
            .unwrap(),
        cursor
    );
    assert_eq!(
        message_of(session.read_page("first", Some(&cursor), 0)),
        "stale cursor"
    );
}

#[test]
fn a_token_is_the_digest_of_what_it_is_bound_to() {
    let nonce = [9u8; 32];
    let session = plan(&[("artifact", "artifact.txt", vec![b'x'; 3_100])])
        .open_with_nonce(0, nonce);
    let mut bound: Vec<u8> = nonce.to_vec();
    bound.extend(sha256_hex(MANIFEST).as_bytes());
    bound.extend(b"requestprojectrevisionartifact");
    bound.extend(0x0102_0304_0506_0708u64.to_be_bytes());
    let token = session.cursor_token("artifact", 0x0102_0304_0506_0708);
    assert_eq!(token, sha256_hex(&bound));
    assert!(validate_digest(&token).is_ok());
    assert_ne!(token, session.cursor_token("artifact", 1_024));
    assert_ne!(
        session.cursor_token("artifact", 1_024),
        session.cursor_token("other", 1_024)
    );
}

#[test]
fn two_sessions_have_different_nonces() {
    let token = fixture().cursor_token("artifact", 1_024);
    assert_ne!(token, fixture().cursor_token("artifact", 1_024));
}

#[test]
fn digests_are_lowercase_hexadecimal() {
    assert_eq!(hex(&[]), "");
    assert_eq!(hex(&[0x00, 0x09, 0xa0, 0xff, 0x5c]), "0009a0ff5c");
    assert_eq!(
        sha256_hex(b""),
        "e3b0c44298fc1c149afbf4c8996fb92427ae41e4649b934ca495991b7852b855"
    );
    assert_eq!(
        sha256_hex(b"abc"),
        "ba7816bf8f01cfea414140de5dae2223b00361a396177a9cb410ff61f20015ad"
    );
    assert!(validate_digest(&sha256_hex(b"abc")).is_ok());
    for bad in [
        "",
        "ba7816bf",
        "BA7816BF8F01CFEA414140DE5DAE2223B00361A396177A9CB410FF61F20015AD",
        "ba7816bf8f01cfea414140de5dae2223b00361a396177a9cb410ff61f20015a",
        "ba7816bf8f01cfea414140de5dae2223b00361a396177a9cb410ff61f20015adc",
        "ga7816bf8f01cfea414140de5dae2223b00361a396177a9cb410ff61f20015ad",
        "\u{e9}a7816bf8f01cfea414140de5dae2223b00361a396177a9cb410ff61f20015a",
    ] {
        assert_eq!(
            message_of(validate_digest(bad)),
            "digest must be lowercase SHA-256"
        );
    }
}

#[test]
fn a_call_of_the_tool_is_answered() {
    let mut session = fixture();
    let args = |id: &str, cursor: Option<&str>| {
        ToolPayload::Function(Ok(ReadPageArgs {
            artifact_id: id.to_string(),
            cursor: cursor.map(|token| token.to_string()),
        }))
    };
    let page = handle(&mut session, args("artifact", None), 0).unwrap();
    assert_eq!(page.byte_end, 1_024);
    let next = handle(
        &mut session,
        args("artifact", page.next_cursor.as_deref()),
        0,
    )
    .unwrap();
    assert_eq!(next.byte_start, 1_024);
    assert_eq!(
        handle(&mut session, args("other", None), 0).unwrap_err(),
        "invalid-custody: bounded read custody is invalid: unknown artifact id"
    );
    assert_eq!(
        handle(&mut session, args("artifact", None), DEADLINE_NANOS + 1).unwrap_err(),
        "deadline-exceeded: bounded read deadline exceeded"
    );
    assert_eq!(
        payload_args(args("artifact", Some("token"))).unwrap().cursor,
        Some("token".to_string())
    );
    assert_eq!(
        payload_args(ToolPayload::Other).unwrap_err(),
        "bounded read received a non-function payload"
    );
    assert_eq!(
        handle(&mut session, ToolPayload::Other, 0).unwrap_err(),
        "bounded read received a non-function payload"
    );
    assert_eq!(
        handle(
            &mut session,
            ToolPayload::Function(Err("missing field `artifact_id`".to_string())),
            0
        )
        .unwrap_err(),
        "invalid-custody: invalid bounded read arguments: missing field `artifact_id`"
    );
}
