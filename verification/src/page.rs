//! Pages: stretches of an artifact, handed out in base64.

use crate::encoding::base64_text;
use crate::limits::MAX_PAGE_CONTENT_BYTES;
use crate::manifest::EntryView;
use vstd::prelude::*;

verus! {

/// One page of an artifact.
#[derive(Debug)]
pub struct ReadPage {
    pub artifact_id: String,
    pub sha256: String,
    pub content_base64: String,
    pub byte_start: u64,
    pub byte_end: u64,
    pub next_cursor: Option<String>,
    pub end: bool,
}

/// What a [`ReadPage`] says.
pub struct PageView {
    pub artifact_id: Seq<char>,
    pub sha256: Seq<char>,
    pub content_base64: Seq<char>,
    pub byte_start: nat,
    pub byte_end: nat,
    pub next_cursor: Option<Seq<char>>,
    pub end: bool,
}

impl View for ReadPage {
    type V = PageView;

    open spec fn view(&self) -> PageView {
        PageView {
            artifact_id: self.artifact_id@,
            sha256: self.sha256@,
            content_base64: self.content_base64@,
            byte_start: self.byte_start as nat,
            byte_end: self.byte_end as nat,
            next_cursor: match self.next_cursor {
                Some(token) => Some(token@),
                None => None,
            },
            end: self.end,
        }
    }
}

/// Where a page ends that starts at an offset of an artifact: after as many bytes as a page holds,
/// or at the end of the artifact.
pub open spec fn page_end(size: nat, start: nat) -> nat {
    if start + MAX_PAGE_CONTENT_BYTES <= size {
        start + MAX_PAGE_CONTENT_BYTES as nat
    } else {
        size
    }
}

/// The bytes of the page that starts at an offset of an artifact.
pub open spec fn page_bytes(content: Seq<u8>, start: nat) -> Seq<u8> {
    content.subrange(start as int, page_end(content.len(), start) as int)
}

/// The page of an artifact that starts at an offset, with the token of the place where it ends.
pub open spec fn page_of(entry: EntryView, start: nat, token: Seq<char>) -> PageView {
    let stop = page_end(entry.size, start);
    PageView {
        artifact_id: entry.artifact_id,
        sha256: entry.sha256,
        content_base64: base64_text(page_bytes(entry.content, start)),
        byte_start: start,
        byte_end: stop,
        next_cursor: if stop == entry.size {
            None
        } else {
            Some(token)
        },
        end: stop == entry.size,
    }
}

/// How many characters the texts of a page have together.
pub open spec fn texts_len(page: PageView) -> nat {
    page.artifact_id.len() + page.sha256.len() + page.content_base64.len()
        + match page.next_cursor {
        Some(token) => token.len(),
        None => 0,
    }
}

} // verus!
