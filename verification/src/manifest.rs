//! The manifest that declares the artifacts of a request, and the form that its entries must have.

use crate::digest::{digest_verdict, validate_digest};
use crate::error::{invalid, outcome, BoundedReadError, Refusal};
use crate::limits::{MAX_ARTIFACT_BYTES, MAX_ARTIFACT_ID_BYTES};
use crate::text::starts_with;
use vstd::prelude::*;
use vstd::utf8::{is_ascii_chars, is_ascii_chars_encode_utf8};

verus! {

/// What a request package declares.
#[derive(Debug)]
pub struct Manifest {
    pub schema: String,
    pub request_id: String,
    pub project_id: String,
    pub revision: String,
    pub entries: Vec<ManifestEntry>,
}

/// One declared artifact. Its content is empty until the artifact has been read and verified.
#[derive(Debug)]
pub struct ManifestEntry {
    pub artifact_id: String,
    pub path: String,
    pub sha256: String,
    pub size: u64,
    pub media_type: String,
    pub content: Vec<u8>,
}

/// What a [`ManifestEntry`] says.
pub struct EntryView {
    pub artifact_id: Seq<char>,
    pub path: Seq<char>,
    pub sha256: Seq<char>,
    pub size: nat,
    pub media_type: Seq<char>,
    pub content: Seq<u8>,
}

impl View for ManifestEntry {
    type V = EntryView;

    open spec fn view(&self) -> EntryView {
        EntryView {
            artifact_id: self.artifact_id@,
            path: self.path@,
            sha256: self.sha256@,
            size: self.size as nat,
            media_type: self.media_type@,
            content: self.content@,
        }
    }
}

/// Whether a character may stand in an artifact id.
pub open spec fn is_id_character(character: char) -> bool {
    ||| '0' <= character <= '9'
    ||| 'a' <= character <= 'z'
    ||| 'A' <= character <= 'Z'
    ||| character == '.'
    ||| character == '_'
    ||| character == '-'
}

/// Whether a text is an artifact id: 1 to 128 letters, digits, dots, underscores and hyphens.
pub open spec fn is_artifact_id(id: Seq<char>) -> bool {
    &&& 0 < id.len() <= MAX_ARTIFACT_ID_BYTES
    &&& forall|i: int| 0 <= i < id.len() ==> is_id_character(#[trigger] id[i])
}

/// Whether a stretch of a path is one of its components: what stands between two slashes that
/// follow one another, or between a slash and an end of the path.
pub open spec fn is_component(path: Seq<char>, from: int, to: int) -> bool {
    &&& 0 <= from <= to <= path.len()
    &&& from == 0 || path[from - 1] == '/'
    &&& to == path.len() || path[to] == '/'
    &&& forall|i: int| from <= i < to ==> path[i] != '/'
}

/// Whether a component names something below the directory that it is looked up in.
pub open spec fn is_plain_component(component: Seq<char>) -> bool {
    &&& component.len() > 0
    &&& component != "."@
    &&& component != ".."@
}

/// Whether a path is relative and canonical: it has no backslash, and each of its components is
/// plain. So it neither begins nor ends with a slash, and it never leads out of its root.
pub open spec fn is_canonical_relative(path: Seq<char>) -> bool {
    &&& forall|i: int| 0 <= i < path.len() ==> path[i] != '\\'
    &&& forall|from: int, to: int| #[trigger]
        is_component(path, from, to) ==> is_plain_component(path.subrange(from, to))
}

/// What the check of a path finds.
pub open spec fn path_verdict(path: Seq<char>) -> Result<(), Refusal> {
    if is_canonical_relative(path) {
        Ok(())
    } else {
        Err(Refusal::InvalidCustody("artifact path is not canonical relative"@))
    }
}

/// What the check of an entry's form finds: the first thing that is wrong with it, of its id, its
/// digest, its size and media type, and its path.
pub open spec fn entry_verdict(entry: EntryView) -> Result<(), Refusal> {
    if !is_artifact_id(entry.artifact_id) {
        Err(Refusal::InvalidCustody("invalid artifact id"@))
    } else if digest_verdict(entry.sha256) is Err {
        digest_verdict(entry.sha256)
    } else if entry.size > MAX_ARTIFACT_BYTES || !"text/"@.is_prefix_of(entry.media_type) {
        Err(Refusal::InvalidCustody("unsupported artifact size or media type"@))
    } else {
        path_verdict(entry.path)
    }
}

/// Whether a text is an artifact id.
fn has_artifact_id_form(id: &str) -> (valid: bool)
    ensures
        valid == is_artifact_id(id@),
{
    let bytes: &[u8] = id.as_bytes();
    for character in characters: id.chars()
        invariant
            characters.seq() == id@,
            forall|i: int| 0 <= i < characters.index() ==> is_id_character(#[trigger] id@[i]),
    {
        let digit = '0' <= character && character <= '9';
        let small = 'a' <= character && character <= 'z';
        let capital = 'A' <= character && character <= 'Z';
        let mark = character == '.' || character == '_' || character == '-';
        if !(digit || small || capital || mark) {
            assert(!is_id_character(id@[characters.index() as int]));
            return false;
        }
    }
    proof {
        assert(is_ascii_chars(id@)) by {
            assert forall|i: int| 0 <= i < id@.len() implies '\0' <= #[trigger] id@[i]
                <= '\u{7f}' by {
                assert(is_id_character(id@[i]));
            }
        }
        is_ascii_chars_encode_utf8(id@);
    }
    bytes.len() > 0 && bytes.len() <= MAX_ARTIFACT_ID_BYTES
}

/// How much of a component has been seen, as far as it matters.
#[derive(Clone, Copy, PartialEq, Eq, Structural)]
enum Seen {
    Nothing,
    Dot,
    DotDot,
    More,
}

/// Whether that much has been seen of a component that begins with the given characters.
spec fn has_seen(seen: Seen, part: Seq<char>) -> bool {
    match seen {
        Seen::Nothing => part.len() == 0,
        Seen::Dot => part == "."@,
        Seen::DotDot => part == ".."@,
        Seen::More => is_plain_component(part),
    }
}

/// A component that ends where another ends begins where it begins.
proof fn component_is_unique(path: Seq<char>, from: int, other: int, to: int)
    requires
        is_component(path, from, to),
        is_component(path, other, to),
    ensures
        from == other,
{
    if from < other {
        assert(path[other - 1] == '/');
    }
    if other < from {
        assert(path[from - 1] == '/');
    }
}

/// Whether a text is a canonical relative path.
fn has_canonical_relative_form(path: &str) -> (valid: bool)
    ensures
        valid == is_canonical_relative(path@),
{
    proof {
        reveal_strlit(".");
        reveal_strlit("..");
    }
    let mut seen: Seen = Seen::Nothing;
    let ghost mut start: int = 0;
    for character in characters: path.chars()
        invariant
            characters.seq() == path@,
            "."@.len() == 1 && "."@[0] == '.',
            ".."@.len() == 2 && ".."@[0] == '.' && ".."@[1] == '.',
            0 <= start <= characters.index() <= path@.len(),
            start == 0 || path@[start - 1] == '/',
            forall|i: int| start <= i < characters.index() ==> path@[i] != '/',
            forall|i: int| 0 <= i < characters.index() ==> path@[i] != '\\',
            has_seen(seen, path@.subrange(start, characters.index() as int)),
            forall|from: int, to: int| #[trigger]
                is_component(path@, from, to) && to < characters.index() ==> is_plain_component(
                    path@.subrange(from, to),
                ),
    {
        let ghost at = characters.index() as int;
        let ghost part = path@.subrange(start, at);
        let ghost longer = path@.subrange(start, at + 1);
        assert(longer =~= part.push(character));
        if character == '\\' {
            return false;
        }
        if character == '/' {
            assert(is_component(path@, start, at));
            match seen {
                Seen::More => {},
                _ => {
                    assert(!is_plain_component(part));
                    return false;
                },
            }
            assert forall|from: int, to: int| #[trigger]
                is_component(path@, from, to) && to < at + 1 implies is_plain_component(
                path@.subrange(from, to),
            ) by {
                if to == at {
                    component_is_unique(path@, start, from, at);
                }
            }
            seen = Seen::Nothing;
            proof {
                start = at + 1;
            }
        } else {
            seen = match (seen, character == '.') {
                (Seen::Nothing, true) => Seen::Dot,
                (Seen::Dot, true) => Seen::DotDot,
                _ => Seen::More,
            };
            proof {
                if seen == Seen::Dot {
                    assert(longer =~= "."@);
                }
                if seen == Seen::DotDot {
                    assert(longer =~= ".."@);
                }
                if seen == Seen::More {
                    assert(longer[longer.len() - 1] == character);
                    if longer == "."@ {
                        assert(part =~= Seq::empty());
                    }
                    if longer == ".."@ {
                        assert(part =~= "."@);
                    }
                }
            }
        }
    }
    let ghost end = path@.len() as int;
    let ghost part = path@.subrange(start, end);
    assert(is_component(path@, start, end));
    match seen {
        Seen::More => {
            assert forall|from: int, to: int| #[trigger]
                is_component(path@, from, to) implies is_plain_component(path@.subrange(from, to)) by {
                if to == end {
                    component_is_unique(path@, start, from, end);
                }
            }
            true
        },
        _ => {
            assert(!is_plain_component(part));
            false
        },
    }
}

/// Checks that a path is relative and canonical.
pub fn validate_relative_path(value: &str) -> (result: Result<(), BoundedReadError>)
    ensures
        outcome(result) == path_verdict(value@),
{
    if has_canonical_relative_form(value) {
        Ok(())
    } else {
        Err(invalid("artifact path is not canonical relative"))
    }
}

/// Checks the form of an entry.
pub fn validate_entry_shape(entry: &ManifestEntry) -> (result: Result<(), BoundedReadError>)
    ensures
        outcome(result) == entry_verdict(entry@),
{
    if !has_artifact_id_form(entry.artifact_id.as_str()) {
        return Err(invalid("invalid artifact id"));
    }
    validate_digest(entry.sha256.as_str())?;
    if entry.size > MAX_ARTIFACT_BYTES || !starts_with(entry.media_type.as_str(), "text/") {
        return Err(invalid("unsupported artifact size or media type"));
    }
    validate_relative_path(entry.path.as_str())
}

} // verus!
