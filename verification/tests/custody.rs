//! Taking artifacts into custody: manifests, paths, files and the environment.

use bounded_read::custody::{CustodyPlan, LoadRequest};
use bounded_read::digest::sha256_hex;
use bounded_read::environment::{custody_environment, env_text, EnvValue};
use bounded_read::error::{invalid, BoundedReadError};
use bounded_read::files::{
    declared_artifact_file, read_bounded_absolute, read_bounded_file, read_verified_artifact,
};
use bounded_read::limits::{MAX_ARTIFACTS, MAX_ARTIFACT_BYTES, MAX_MANIFEST_BYTES};
use bounded_read::manifest::{
    validate_entry_shape, validate_relative_path, Manifest, ManifestEntry,
};

const MANIFEST: &[u8] = b"{}";

fn entry(id: &str, path: &str, sha256: &str, size: u64) -> ManifestEntry {
    ManifestEntry {
        artifact_id: id.to_string(),
        path: path.to_string(),
        sha256: sha256.to_string(),
        size,
        media_type: "text/plain".to_string(),
        content: Vec::new(),
    }
}

fn manifest(entries: Vec<ManifestEntry>) -> Manifest {
    Manifest {
        schema: "bounded-read-v1".to_string(),
        request_id: "request".to_string(),
        project_id: "project".to_string(),
        revision: "revision".to_string(),
        entries,
    }
}

fn request(digest: &str) -> Result<LoadRequest, BoundedReadError> {
    LoadRequest::new(
        digest,
        true,
        "request".to_string(),
        "project".to_string(),
        "revision".to_string(),
    )
}

fn admitted(manifest: Manifest) -> Result<CustodyPlan, BoundedReadError> {
    request(&sha256_hex(MANIFEST))?
        .verify_manifest(MANIFEST.to_vec())?
        .admit_manifest(manifest, true)
}

fn message_of<T>(result: Result<T, BoundedReadError>) -> String {
    match result {
        Ok(_) => panic!("not refused"),
        Err(BoundedReadError::InvalidCustody(message)) => message,
        Err(error) => panic!("{:?}", error),
    }
}

#[test]
fn custody_rejects_digest_binding_traversal_and_duplicates() {
    let zeros = "0".repeat(64);
    assert_eq!(
        message_of(request(&zeros).unwrap().verify_manifest(MANIFEST.to_vec())),
        "manifest digest mismatch"
    );
    let traversal = entry("artifact", "../outside", &zeros, 0);
    assert_eq!(
        message_of(admitted(manifest(vec![traversal]))),
        "artifact path is not canonical relative"
    );
    let digest = sha256_hex(&vec![b'x'; 3_100]);
    let valid = || entry("artifact", "artifact.txt", &digest, 3_100);
    assert!(admitted(manifest(vec![valid()])).is_ok());
    assert_eq!(
        message_of(admitted(manifest(vec![valid(), valid()]))),
        "duplicate artifact id or path"
    );
    let same_path = entry("second", "artifact.txt", &digest, 3_100);
    assert_eq!(
        message_of(admitted(manifest(vec![valid(), same_path]))),
        "duplicate artifact id or path"
    );
    let same_id = entry("artifact", "second.txt", &digest, 3_100);
    assert_eq!(
        message_of(admitted(manifest(vec![valid(), same_id]))),
        "duplicate artifact id or path"
    );
    for (id, path, message) in [
        ("bad id", "artifact.txt", "invalid artifact id"),
        ("safe", "dir//artifact.txt", "artifact path is not canonical relative"),
        ("safe", "dir/./artifact.txt", "artifact path is not canonical relative"),
    ] {
        assert_eq!(
            message_of(admitted(manifest(vec![entry(id, path, &zeros, 0)]))),
            message
        );
    }
}

#[test]
fn a_manifest_has_at_most_64_kib() {
    let largest = vec![b' '; 65_536];
    let verified = request(&sha256_hex(&largest))
        .unwrap()
        .verify_manifest(largest.clone())
        .unwrap();
    assert_eq!(verified.bytes().len() as u64, MAX_MANIFEST_BYTES);
    let longer = vec![b' '; 65_537];
    assert_eq!(
        message_of(request(&sha256_hex(&longer)).unwrap().verify_manifest(longer)),
        "bounded file exceeds limit"
    );
    assert_eq!(
        message_of(
            request(&"0".repeat(64))
                .unwrap()
                .verify_manifest(vec![b' '; 65_537])
        ),
        "bounded file exceeds limit"
    );
}

#[test]
fn a_manifest_must_be_for_the_request() {
    for change in 0..4 {
        let mut other = manifest(Vec::new());
        match change {
            0 => other.schema = "bounded-read-v2".to_string(),
            1 => other.request_id = "other".to_string(),
            2 => other.project_id = "other".to_string(),
            _ => other.revision = "other".to_string(),
        }
        assert_eq!(message_of(admitted(other)), "manifest binding mismatch");
    }
    assert!(admitted(manifest(Vec::new())).is_ok());
    let verified = request(&sha256_hex(MANIFEST))
        .unwrap()
        .verify_manifest(MANIFEST.to_vec())
        .unwrap();
    assert_eq!(verified.bytes(), MANIFEST);
    assert_eq!(
        message_of(verified.admit_manifest(manifest(Vec::new()), false)),
        "manifest has no parent"
    );
}

#[test]
fn a_request_needs_a_digest_and_an_absolute_path() {
    assert_eq!(
        message_of(request("abc")),
        "digest must be lowercase SHA-256"
    );
    assert_eq!(
        message_of(LoadRequest::new(
            &"0".repeat(64),
            false,
            "request".to_string(),
            "project".to_string(),
            "revision".to_string(),
        )),
        "manifest path is not absolute"
    );
    assert_eq!(
        message_of(LoadRequest::new(
            "abc",
            false,
            "request".to_string(),
            "project".to_string(),
            "revision".to_string(),
        )),
        "digest must be lowercase SHA-256"
    );
}

#[test]
fn manifest_limits_are_checked_before_artifact_opens() {
    let missing = |index: usize, size: u64| {
        entry(
            &format!("a{index}"),
            &format!("missing{index}"),
            &"0".repeat(64),
            size,
        )
    };
    let too_many = match admitted(manifest((0..=MAX_ARTIFACTS).map(|i| missing(i, 0)).collect())) {
        Ok(_) => panic!("not refused"),
        Err(error) => error,
    };
    assert!(too_many.message().contains("too many artifacts"));
    let too_large = match admitted(manifest(
        (0..5).map(|i| missing(i, MAX_ARTIFACT_BYTES)).collect(),
    )) {
        Ok(_) => panic!("not refused"),
        Err(error) => error,
    };
    assert!(too_large.message().contains("aggregate artifact size"));
    assert_eq!(
        too_large.message(),
        "bounded read custody is invalid: aggregate artifact size exceeds limit"
    );
    assert!(admitted(manifest(
        (0..4).map(|i| missing(i, MAX_ARTIFACT_BYTES)).collect()
    ))
    .is_ok());
    assert!(admitted(manifest(
        (0..MAX_ARTIFACTS).map(|i| missing(i, 0)).collect()
    ))
    .is_ok());
}

#[test]
fn an_artifact_is_taken_in_only_as_declared() {
    let digest = sha256_hex(b"content");
    let mut plan = match admitted(manifest(vec![
        entry("one", "one.txt", &digest, 7),
        entry("two", "dir/two.txt", &sha256_hex(b""), 0),
    ])) {
        Ok(plan) => plan,
        Err(error) => panic!("{:?}", error),
    };
    assert_eq!(plan.next_entry().unwrap().path, "one.txt");
    assert_eq!(
        message_of(plan.accept(b"content!".to_vec())),
        "bounded file exceeds limit"
    );
    assert_eq!(
        message_of(plan.accept(b"conten".to_vec())),
        "artifact size or digest mismatch"
    );
    assert_eq!(
        message_of(plan.accept(b"CONTENT".to_vec())),
        "artifact size or digest mismatch"
    );
    assert_eq!(plan.next_entry().unwrap().path, "one.txt");
    assert!(plan.accept(b"content".to_vec()).is_ok());
    assert_eq!(plan.next_entry().unwrap().path, "dir/two.txt");
    assert!(plan.accept(Vec::new()).is_ok());
    assert!(plan.next_entry().is_none());
    let mut session = plan.open(0);
    assert_eq!(
        session.read_page("one", None, 0).unwrap().content_base64,
        "Y29udGVudA=="
    );
    assert!(session.read_page("two", None, 0).unwrap().end);
}

#[test]
fn a_file_is_looked_at_before_it_is_read() {
    let declared = entry("artifact", "artifact.pipe", &"0".repeat(64), 1);
    assert_eq!(
        message_of(declared_artifact_file(&declared, false, 1)),
        "artifact is not a declared regular file"
    );
    assert_eq!(
        message_of(declared_artifact_file(&declared, true, 0)),
        "artifact is not a declared regular file"
    );
    let bounds = declared_artifact_file(&declared, true, 1).unwrap();
    assert_eq!((bounds.capacity, bounds.take), (1, 2));

    assert_eq!(
        message_of(read_bounded_absolute(false, 10, MAX_MANIFEST_BYTES)),
        "bounded file is not a regular file within limit"
    );
    assert_eq!(
        message_of(read_bounded_absolute(
            true,
            MAX_MANIFEST_BYTES + 1,
            MAX_MANIFEST_BYTES
        )),
        "bounded file is not a regular file within limit"
    );
    let bounds = read_bounded_absolute(true, MAX_MANIFEST_BYTES, MAX_MANIFEST_BYTES).unwrap();
    assert_eq!((bounds.capacity, bounds.take), (65_536, 65_537));
    let bounds = read_bounded_absolute(true, 0, MAX_ARTIFACT_BYTES).unwrap();
    assert_eq!((bounds.capacity, bounds.take), (65_536, 8_388_609));
}

#[test]
fn what_was_read_is_held_to_its_limit() {
    assert_eq!(read_bounded_file(vec![1, 2, 3], 3).unwrap(), vec![1, 2, 3]);
    assert_eq!(
        message_of(read_bounded_file(vec![1, 2, 3], 2)),
        "bounded file exceeds limit"
    );
    let declared = entry("artifact", "artifact.txt", &sha256_hex(b"abc"), 3);
    assert_eq!(
        read_verified_artifact(&declared, b"abc".to_vec()).unwrap(),
        b"abc".to_vec()
    );
    assert_eq!(
        message_of(read_verified_artifact(&declared, b"abd".to_vec())),
        "artifact size or digest mismatch"
    );
}

#[test]
fn paths_are_relative_and_canonical() {
    for good in ["a", "a/b", "a.b/..c", "...", "a/.b/c..", ".a", "\u{e9}/\u{4e2d}", "a b"] {
        assert!(validate_relative_path(good).is_ok(), "{}", good);
    }
    for bad in [
        "", "/", "/a", "a/", "a//b", ".", "..", "./a", "../a", "a/.", "a/..", "a/./b", "a/../b",
        "a\\b", "\\", "a/\\",
    ] {
        assert_eq!(
            message_of(validate_relative_path(bad)),
            "artifact path is not canonical relative",
            "{}",
            bad
        );
    }
}

#[test]
fn entries_have_a_form() {
    let good = || entry("Az09._-", "a", &"0".repeat(64), MAX_ARTIFACT_BYTES);
    assert!(validate_entry_shape(&good()).is_ok());
    let mut long = good();
    long.artifact_id = "i".repeat(128);
    assert!(validate_entry_shape(&long).is_ok());
    long.artifact_id = "i".repeat(129);
    assert_eq!(message_of(validate_entry_shape(&long)), "invalid artifact id");
    for id in ["", "a/b", "a b", "\u{e9}", "a:"] {
        let mut bad = good();
        bad.artifact_id = id.to_string();
        assert_eq!(message_of(validate_entry_shape(&bad)), "invalid artifact id");
    }
    let mut bad = good();
    bad.sha256 = "0".repeat(63);
    assert_eq!(
        message_of(validate_entry_shape(&bad)),
        "digest must be lowercase SHA-256"
    );
    let mut bad = good();
    bad.size = MAX_ARTIFACT_BYTES + 1;
    assert_eq!(
        message_of(validate_entry_shape(&bad)),
        "unsupported artifact size or media type"
    );
    for media in ["", "text", "application/json", "Text/plain", " text/plain"] {
        let mut bad = good();
        bad.media_type = media.to_string();
        assert_eq!(
            message_of(validate_entry_shape(&bad)),
            "unsupported artifact size or media type"
        );
    }
    let mut bare = good();
    bare.media_type = "text/".to_string();
    assert!(validate_entry_shape(&bare).is_ok());
    bare.path = "..".to_string();
    assert_eq!(
        message_of(validate_entry_shape(&bare)),
        "artifact path is not canonical relative"
    );
}

fn text(value: &str) -> EnvValue {
    EnvValue::Text(value.to_string())
}

#[test]
fn the_environment_asks_for_custody_as_a_whole() {
    assert!(custody_environment(
        false,
        EnvValue::Absent,
        EnvValue::Absent,
        EnvValue::Absent,
        EnvValue::Absent
    )
    .unwrap()
    .is_none());
    let found = custody_environment(true, text("digest"), text("r"), text("p"), text("v"))
        .unwrap()
        .unwrap();
    assert_eq!(found.expected_digest, "digest");
    assert_eq!(found.request_id, "r");
    assert_eq!(found.project_id, "p");
    assert_eq!(found.revision, "v");
}

#[test]
fn incomplete_custody_is_an_error() {
    let error = custody_environment(
        true,
        EnvValue::Absent,
        EnvValue::Absent,
        EnvValue::Absent,
        EnvValue::Absent,
    )
    .unwrap_err();
    assert!(error
        .message()
        .contains("bounded read environment is incomplete"));
    assert_eq!(
        message_of(custody_environment(
            false,
            text("d"),
            text("r"),
            text("p"),
            text("v")
        )),
        "bounded read environment is incomplete"
    );
}

#[test]
fn the_texts_of_the_environment_are_checked() {
    assert_eq!(
        message_of(custody_environment(
            true,
            EnvValue::NotUtf8,
            text(""),
            text("p"),
            text("v")
        )),
        "manifest digest is not UTF-8"
    );
    assert_eq!(
        message_of(custody_environment(
            true,
            text("d"),
            text(""),
            EnvValue::NotUtf8,
            text("v")
        )),
        "request id is empty or not UTF-8"
    );
    assert_eq!(
        message_of(custody_environment(
            true,
            text("d"),
            text("r"),
            EnvValue::NotUtf8,
            text("")
        )),
        "project id is empty or not UTF-8"
    );
    assert_eq!(
        message_of(custody_environment(
            true,
            text("d"),
            text("r"),
            text("p"),
            text(&"v".repeat(257))
        )),
        "revision is too long"
    );
    assert_eq!(
        env_text(&text(&"v".repeat(256)), "revision").unwrap(),
        "v".repeat(256)
    );
    assert_eq!(
        message_of(env_text(&text(&"\u{e9}".repeat(129)), "revision")),
        "revision is too long"
    );
    assert_eq!(
        message_of(env_text(&EnvValue::Absent, "revision")),
        "revision is empty or not UTF-8"
    );
}

#[test]
fn errors_have_codes_and_messages() {
    for (error, code, message) in [
        (
            BoundedReadError::ContextTooLarge,
            "context-too-large",
            "bounded read context is too large",
        ),
        (
            BoundedReadError::BudgetExhausted,
            "budget-exhausted",
            "bounded read budget is exhausted",
        ),
        (
            invalid("why"),
            "invalid-custody",
            "bounded read custody is invalid: why",
        ),
        (
            BoundedReadError::DeadlineExceeded,
            "deadline-exceeded",
            "bounded read deadline exceeded",
        ),
    ] {
        assert_eq!(error.code(), code);
        assert_eq!(error.message(), message);
    }
}
