//! The session: verified artifacts, the budgets of their reading, and the cursors handed out.

use crate::cursor::{cursor_token, token_text, Binding, Cursor, CursorView};
use crate::digest::{hex_text, is_digest, sha256};
use crate::encoding::{base64_encode, base64_text, base64_text_determines_bytes};
use crate::error::{invalid, outcome, BoundedReadError, Refusal};
use crate::limits::{
    DEADLINE_NANOS, MAX_OUTPUT_TOKENS, MAX_PAGES, MAX_PAGE_CONTENT_BYTES,
    MAX_PROVIDER_REQUESTS, MAX_PROVIDER_REQUEST_BYTES, MAX_PROVIDER_REQUEST_BYTES_TOTAL,
    MAX_TOOL_RESULT_BYTES, MAX_TOOL_RESULT_BYTES_TOTAL, PROVIDER_FRAMING_RESERVE,
};
use crate::manifest::{entry_verdict, EntryView, ManifestEntry};
use crate::page::{page_bytes, page_end, page_of, texts_len, PageView, ReadPage};
use crate::text::same_text;
use vstd::hash_map::StringHashMap;
use vstd::hash_set::StringHashSet;
use vstd::prelude::*;

verus! {

/// What a session has admitted and handed out so far.
struct Admission {
    provider_requests: u8,
    provider_bytes: usize,
    pages: u8,
    tool_bytes: usize,
    issued_cursors: StringHashMap<Cursor>,
    consumed_cursors: StringHashSet,
    user_turn_started: bool,
}

/// A bounded read session. Times are nanoseconds of one monotonic clock.
pub struct BoundedReadSession {
    manifest_sha256: String,
    request_id: String,
    project_id: String,
    revision: String,
    entries: StringHashMap<ManifestEntry>,
    nonce: [u8; 32],
    started_at: u128,
    admission: Admission,
}

/// What a session has admitted and handed out so far.
#[verifier::ext_equal]
pub struct AdmissionView {
    pub provider_requests: nat,
    pub provider_bytes: nat,
    pub pages: nat,
    pub tool_bytes: nat,
    pub issued: Map<Seq<char>, CursorView>,
    pub consumed: Set<Seq<char>>,
    pub user_turn_started: bool,
}

/// What a [`BoundedReadSession`] holds.
#[verifier::ext_equal]
pub struct SessionView {
    pub binding: Binding,
    pub entries: Map<Seq<char>, EntryView>,
    pub started_at: nat,
    pub admission: AdmissionView,
}

impl View for Admission {
    type V = AdmissionView;

    closed spec fn view(&self) -> AdmissionView {
        AdmissionView {
            provider_requests: self.provider_requests as nat,
            provider_bytes: self.provider_bytes as nat,
            pages: self.pages as nat,
            tool_bytes: self.tool_bytes as nat,
            issued: self.issued_cursors@.map_values(|cursor: Cursor| cursor@),
            consumed: self.consumed_cursors@,
            user_turn_started: self.user_turn_started,
        }
    }
}

impl View for BoundedReadSession {
    type V = SessionView;

    closed spec fn view(&self) -> SessionView {
        SessionView {
            binding: Binding {
                nonce: self.nonce@,
                manifest_sha256: self.manifest_sha256@,
                request_id: self.request_id@,
                project_id: self.project_id@,
                revision: self.revision@,
            },
            entries: self.entries@.map_values(|entry: ManifestEntry| entry@),
            started_at: self.started_at as nat,
            admission: self.admission@,
        }
    }
}

/// Whether an artifact is what its entry declares: it has the declared size and digest.
pub open spec fn is_verified(entry: EntryView) -> bool {
    &&& entry.content.len() == entry.size
    &&& hex_text(sha256(entry.content)) == entry.sha256
}

/// The state of the budgets and cursors when a session begins.
pub open spec fn fresh_admission() -> AdmissionView {
    AdmissionView {
        provider_requests: 0,
        provider_bytes: 0,
        pages: 0,
        tool_bytes: 0,
        issued: Map::empty(),
        consumed: Set::empty(),
        user_turn_started: false,
    }
}

impl AdmissionView {
    /// Whether no budget is overdrawn.
    pub open spec fn within_budget(self) -> bool {
        &&& self.provider_requests <= MAX_PROVIDER_REQUESTS
        &&& self.provider_bytes <= self.provider_requests * MAX_PROVIDER_REQUEST_BYTES
        &&& self.pages <= MAX_PAGES
        &&& self.tool_bytes <= self.pages * MAX_TOOL_RESULT_BYTES
    }
}

impl SessionView {
    /// What holds of a session at all times: its artifacts are well formed and verified and filed
    /// under their ids, its budgets are kept, and each cursor that is out stands inside an
    /// artifact, at the place that its token was made for.
    pub open spec fn valid(self) -> bool {
        &&& forall|id: Seq<char>| #[trigger]
            self.entries.contains_key(id) ==> {
                &&& self.entries[id].artifact_id == id
                &&& entry_verdict(self.entries[id]) is Ok
                &&& is_verified(self.entries[id])
            }
        &&& self.admission.within_budget()
        &&& forall|token: Seq<char>| #[trigger]
            self.admission.issued.contains_key(token) ==> {
                let cursor = self.admission.issued[token];
                &&& self.entries.contains_key(cursor.artifact_id)
                &&& 0 < cursor.offset < self.entries[cursor.artifact_id].size
                &&& token == self.token(cursor.artifact_id, cursor.offset)
            }
    }

    /// How long the session has lasted.
    pub open spec fn elapsed(self, now: nat) -> nat {
        if now >= self.started_at {
            (now - self.started_at) as nat
        } else {
            0
        }
    }

    /// Whether the session has lasted longer than it may.
    pub open spec fn expired(self, now: nat) -> bool {
        self.elapsed(now) > DEADLINE_NANOS
    }

    /// How much time is left, in nanoseconds, where the session has not expired.
    pub open spec fn time_left(self, now: nat) -> Result<u128, Refusal> {
        if self.expired(now) {
            Err(Refusal::DeadlineExceeded)
        } else {
            Ok((DEADLINE_NANOS - self.elapsed(now)) as u128)
        }
    }

    /// Whether a user turn may begin: the session has not expired, and none has begun before.
    pub open spec fn turn_verdict(self, now: nat) -> Result<(), Refusal> {
        if self.expired(now) {
            Err(Refusal::DeadlineExceeded)
        } else if self.admission.user_turn_started {
            Err(Refusal::BudgetExhausted)
        } else {
            Ok(())
        }
    }

    /// The session once a user turn has begun.
    pub open spec fn with_turn(self) -> SessionView {
        SessionView {
            admission: AdmissionView { user_turn_started: true, ..self.admission },
            ..self
        }
    }

    /// Whether a tool result is admitted: the session has not expired, and the result fits into
    /// the limits on one result, on their number and on their sum.
    pub open spec fn tool_verdict(self, len: nat, now: nat) -> Result<(), Refusal> {
        if self.expired(now) {
            Err(Refusal::DeadlineExceeded)
        } else if len > MAX_TOOL_RESULT_BYTES || self.admission.pages + 1 > MAX_PAGES
            || self.admission.tool_bytes + len > MAX_TOOL_RESULT_BYTES_TOTAL {
            Err(Refusal::BudgetExhausted)
        } else {
            Ok(())
        }
    }

    /// The session once a tool result has been admitted.
    pub open spec fn with_tool_result(self, len: nat) -> SessionView {
        SessionView {
            admission: AdmissionView {
                pages: self.admission.pages + 1,
                tool_bytes: self.admission.tool_bytes + len,
                ..self.admission
            },
            ..self
        }
    }

    /// Whether a provider request is admitted: the session has not expired, the request and what
    /// is kept free beside it fit into the context window and the limit on one request, and it fits
    /// into the limits on their number and on their sum.
    pub open spec fn request_verdict(self, len: nat, window: nat, now: nat) -> Result<(), Refusal> {
        if self.expired(now) {
            Err(Refusal::DeadlineExceeded)
        } else if len > MAX_PROVIDER_REQUEST_BYTES || len + MAX_OUTPUT_TOKENS
            + PROVIDER_FRAMING_RESERVE > window {
            Err(Refusal::ContextTooLarge)
        } else if self.admission.provider_requests + 1 > MAX_PROVIDER_REQUESTS
            || self.admission.provider_bytes + len > MAX_PROVIDER_REQUEST_BYTES_TOTAL {
            Err(Refusal::BudgetExhausted)
        } else {
            Ok(())
        }
    }

    /// The session once a provider request has been admitted.
    pub open spec fn with_request(self, len: nat) -> SessionView {
        SessionView {
            admission: AdmissionView {
                provider_requests: self.admission.provider_requests + 1,
                provider_bytes: self.admission.provider_bytes + len,
                ..self.admission
            },
            ..self
        }
    }

    /// The token of a place in an artifact.
    pub open spec fn token(self, artifact_id: Seq<char>, offset: nat) -> Seq<char> {
        token_text(self.binding, artifact_id, offset as u64)
    }

    /// Where the page starts that is asked for, or why there is none.
    pub open spec fn page_start(
        self,
        artifact_id: Seq<char>,
        cursor: Option<Seq<char>>,
        now: nat,
    ) -> Result<nat, Refusal> {
        if self.expired(now) {
            Err(Refusal::DeadlineExceeded)
        } else if !self.entries.contains_key(artifact_id) {
            Err(Refusal::InvalidCustody("unknown artifact id"@))
        } else {
            match cursor {
                None => Ok(0),
                Some(token) => if self.admission.consumed.contains(token) {
                    Err(Refusal::InvalidCustody("stale cursor"@))
                } else if !self.admission.issued.contains_key(token) {
                    Err(Refusal::InvalidCustody("forged cursor"@))
                } else if self.admission.issued[token].artifact_id != artifact_id {
                    Err(Refusal::InvalidCustody("cursor artifact mismatch"@))
                } else {
                    Ok(self.admission.issued[token].offset)
                },
            }
        }
    }

    /// Whether a cursor that is out is used on an artifact that it does not belong to.
    pub open spec fn misdirected(
        self,
        artifact_id: Seq<char>,
        cursor: Option<Seq<char>>,
        now: nat,
    ) -> bool {
        &&& !self.expired(now)
        &&& self.entries.contains_key(artifact_id)
        &&& cursor matches Some(token)
        &&& !self.admission.consumed.contains(token)
        &&& self.admission.issued.contains_key(token)
        &&& self.admission.issued[token].artifact_id != artifact_id
    }

    /// The page of an artifact that starts at an offset.
    pub open spec fn page(self, artifact_id: Seq<char>, start: nat) -> PageView {
        let entry = self.entries[artifact_id];
        page_of(entry, start, self.token(artifact_id, page_end(entry.size, start)))
    }

    /// The page that can be handed out without a look at the cursors and budgets, or why there is
    /// none: only a first page that is also the last needs no cursor.
    pub open spec fn page_without_admission(
        self,
        artifact_id: Seq<char>,
        cursor: Option<Seq<char>>,
        now: nat,
    ) -> Result<PageView, Refusal> {
        if self.expired(now) {
            Err(Refusal::DeadlineExceeded)
        } else if !self.entries.contains_key(artifact_id) {
            Err(Refusal::InvalidCustody("unknown artifact id"@))
        } else if cursor is Some || self.entries[artifact_id].size > MAX_PAGE_CONTENT_BYTES {
            Err(Refusal::InvalidCustody("admission lock poisoned"@))
        } else {
            Ok(self.page(artifact_id, 0))
        }
    }

    /// The session without a cursor that was out.
    pub open spec fn without_cursor(self, token: Seq<char>) -> SessionView {
        SessionView {
            admission: AdmissionView {
                issued: self.admission.issued.remove(token),
                ..self.admission
            },
            ..self
        }
    }

    /// The session once a cursor has been used.
    pub open spec fn with_cursor_used(self, cursor: Option<Seq<char>>) -> SessionView {
        match cursor {
            None => self,
            Some(token) => SessionView {
                admission: AdmissionView {
                    issued: self.admission.issued.remove(token),
                    consumed: self.admission.consumed.insert(token),
                    ..self.admission
                },
                ..self
            },
        }
    }

    /// The session once the cursor at the end of a page has been handed out, where the page does
    /// not end the artifact.
    pub open spec fn with_cursor_issued(self, artifact_id: Seq<char>, start: nat) -> SessionView {
        let stop = page_end(self.entries[artifact_id].size, start);
        if stop == self.entries[artifact_id].size {
            self
        } else {
            SessionView {
                admission: AdmissionView {
                    issued: self.admission.issued.insert(
                        self.token(artifact_id, stop),
                        CursorView { artifact_id, offset: stop },
                    ),
                    ..self.admission
                },
                ..self
            }
        }
    }

    /// The session after a page has been asked for. A page that is handed out uses up its cursor
    /// and hands out the next one. A cursor of another artifact is lost. Any other refusal leaves
    /// the session as it was.
    pub open spec fn after_read(
        self,
        artifact_id: Seq<char>,
        cursor: Option<Seq<char>>,
        now: nat,
    ) -> SessionView {
        match self.page_start(artifact_id, cursor, now) {
            Ok(start) => self.with_cursor_used(cursor).with_cursor_issued(artifact_id, start),
            Err(_) => if self.misdirected(artifact_id, cursor, now) {
                self.without_cursor(cursor->Some_0)
            } else {
                self
            },
        }
    }
}

impl BoundedReadSession {
    /// What holds of a session at all times.
    pub open spec fn wf(&self) -> bool {
        self@.valid()
    }

    /// A session that begins, with artifacts that have been verified.
    pub(crate) fn begin(
        manifest_sha256: String,
        request_id: String,
        project_id: String,
        revision: String,
        entries: StringHashMap<ManifestEntry>,
        nonce: [u8; 32],
        started_at: u128,
    ) -> (session: BoundedReadSession)
        ensures
            session@ == (SessionView {
                binding: Binding {
                    nonce: nonce@,
                    manifest_sha256: manifest_sha256@,
                    request_id: request_id@,
                    project_id: project_id@,
                    revision: revision@,
                },
                entries: entries@.map_values(|entry: ManifestEntry| entry@),
                started_at: started_at as nat,
                admission: fresh_admission(),
            }),
    {
        let admission = Admission {
            provider_requests: 0,
            provider_bytes: 0,
            pages: 0,
            tool_bytes: 0,
            issued_cursors: StringHashMap::new(),
            consumed_cursors: StringHashSet::new(),
            user_turn_started: false,
        };
        assert(admission@ =~= fresh_admission());
        BoundedReadSession {
            manifest_sha256,
            request_id,
            project_id,
            revision,
            entries,
            nonce,
            started_at,
            admission,
        }
    }

    /// How long the session has lasted.
    fn elapsed(&self, now: u128) -> (nanos: u128)
        ensures
            nanos == self@.elapsed(now as nat),
    {
        if now >= self.started_at {
            now - self.started_at
        } else {
            0
        }
    }

    /// How much time the session has left, in nanoseconds.
    pub fn remaining(&self, now: u128) -> (result: Result<u128, BoundedReadError>)
        ensures
            outcome(result) == self@.time_left(now as nat),
    {
        match DEADLINE_NANOS.checked_sub(self.elapsed(now)) {
            Some(left) => Ok(left),
            None => Err(BoundedReadError::DeadlineExceeded),
        }
    }

    /// Checks that the session has time left.
    pub fn check_deadline(&self, now: u128) -> (result: Result<(), BoundedReadError>)
        ensures
            outcome(result) == if self@.expired(now as nat) {
                Err::<(), Refusal>(Refusal::DeadlineExceeded)
            } else {
                Ok::<(), Refusal>(())
            },
    {
        match self.remaining(now) {
            Ok(_) => Ok(()),
            Err(error) => Err(error),
        }
    }

    /// Begins the one user turn of the session.
    pub fn begin_user_turn(&mut self, now: u128) -> (result: Result<(), BoundedReadError>)
        requires
            old(self).wf(),
        ensures
            final(self).wf(),
            outcome(result) == old(self)@.turn_verdict(now as nat),
            final(self)@ == if result is Ok {
                old(self)@.with_turn()
            } else {
                old(self)@
            },
    {
        self.check_deadline(now)?;
        if self.admission.user_turn_started {
            return Err(BoundedReadError::BudgetExhausted);
        }
        self.admission.user_turn_started = true;
        assert(self@ =~= old(self)@.with_turn());
        Ok(())
    }

    /// Checks what can be told of a tool result without a look at the budgets: that the session has
    /// time left, and that the result is within the limit on one result.
    pub fn check_tool_result(&self, serialized_len: usize, now: u128) -> (result: Result<
        (),
        BoundedReadError,
    >)
        ensures
            outcome(result) == if self@.expired(now as nat) {
                Err::<(), Refusal>(Refusal::DeadlineExceeded)
            } else if serialized_len > MAX_TOOL_RESULT_BYTES {
                Err::<(), Refusal>(Refusal::BudgetExhausted)
            } else {
                Ok::<(), Refusal>(())
            },
    {
        self.check_deadline(now)?;
        if serialized_len > MAX_TOOL_RESULT_BYTES {
            return Err(BoundedReadError::BudgetExhausted);
        }
        Ok(())
    }

    /// Admits a tool result of a given length.
    pub fn admit_tool_result(&mut self, serialized_len: usize, now: u128) -> (result: Result<
        (),
        BoundedReadError,
    >)
        requires
            old(self).wf(),
        ensures
            final(self).wf(),
            outcome(result) == old(self)@.tool_verdict(serialized_len as nat, now as nat),
            final(self)@ == if result is Ok {
                old(self)@.with_tool_result(serialized_len as nat)
            } else {
                old(self)@
            },
    {
        self.check_tool_result(serialized_len, now)?;
        let pages: u8 = self.admission.pages + 1;
        let total: usize = self.admission.tool_bytes + serialized_len;
        if pages > MAX_PAGES || total > MAX_TOOL_RESULT_BYTES_TOTAL {
            return Err(BoundedReadError::BudgetExhausted);
        }
        self.admission.pages = pages;
        self.admission.tool_bytes = total;
        assert(self@ =~= old(self)@.with_tool_result(serialized_len as nat));
        Ok(())
    }

    /// Checks what can be told of a provider request without a look at the budgets: that the session
    /// has time left, and that the request is within the limit on one request and fits into the
    /// context window beside what is kept free there.
    pub fn check_provider_request(
        &self,
        serialized_len: usize,
        verified_context_window: u64,
        now: u128,
    ) -> (result: Result<(), BoundedReadError>)
        ensures
            outcome(result) == if self@.expired(now as nat) {
                Err::<(), Refusal>(Refusal::DeadlineExceeded)
            } else if serialized_len > MAX_PROVIDER_REQUEST_BYTES || serialized_len
                + MAX_OUTPUT_TOKENS + PROVIDER_FRAMING_RESERVE > verified_context_window {
                Err::<(), Refusal>(Refusal::ContextTooLarge)
            } else {
                Ok::<(), Refusal>(())
            },
    {
        self.check_deadline(now)?;
        if serialized_len > MAX_PROVIDER_REQUEST_BYTES {
            return Err(BoundedReadError::ContextTooLarge);
        }
        let reserved: u64 = serialized_len as u64 + MAX_OUTPUT_TOKENS + PROVIDER_FRAMING_RESERVE;
        if reserved > verified_context_window {
            return Err(BoundedReadError::ContextTooLarge);
        }
        Ok(())
    }

    /// Admits a provider request of a given length into a context window of a given size.
    pub fn admit_provider_request(
        &mut self,
        serialized_len: usize,
        verified_context_window: u64,
        now: u128,
    ) -> (result: Result<(), BoundedReadError>)
        requires
            old(self).wf(),
        ensures
            final(self).wf(),
            outcome(result) == old(self)@.request_verdict(
                serialized_len as nat,
                verified_context_window as nat,
                now as nat,
            ),
            final(self)@ == if result is Ok {
                old(self)@.with_request(serialized_len as nat)
            } else {
                old(self)@
            },
    {
        self.check_provider_request(serialized_len, verified_context_window, now)?;
        let requests: u8 = self.admission.provider_requests + 1;
        let total: usize = self.admission.provider_bytes + serialized_len;
        if requests > MAX_PROVIDER_REQUESTS || total > MAX_PROVIDER_REQUEST_BYTES_TOTAL {
            return Err(BoundedReadError::BudgetExhausted);
        }
        self.admission.provider_requests = requests;
        self.admission.provider_bytes = total;
        assert(self@ =~= old(self)@.with_request(serialized_len as nat));
        Ok(())
    }

    /// Hands out a page of an artifact: the first one, or the one that a cursor stands at. Its texts
    /// leave at least 400 of the bytes of a tool result for what frames them.
    pub fn read_page(&mut self, artifact_id: &str, cursor: Option<&str>, now: u128) -> (result:
        Result<ReadPage, BoundedReadError>)
        requires
            old(self).wf(),
        ensures
            final(self).wf(),
            match old(self)@.page_start(artifact_id@, cursor_text(cursor), now as nat) {
                Ok(start) => {
                    &&& result matches Ok(page)
                    &&& page@ == old(self)@.page(artifact_id@, start)
                    &&& forall|other: Seq<u8>| #[trigger]
                        base64_text(other) == page.content_base64@ ==> other == page_bytes(
                            old(self)@.entries[artifact_id@].content,
                            start,
                        )
                    &&& page.next_cursor matches Some(token) ==> is_digest(token@)
                    &&& texts_len(page@) + 400 <= MAX_TOOL_RESULT_BYTES
                },
                Err(refusal) => result matches Err(error) && error@ == refusal,
            },
            final(self)@ == old(self)@.after_read(artifact_id@, cursor_text(cursor), now as nat),
    {
        self.check_deadline(now)?;
        let entry: &ManifestEntry = match self.entries.get(artifact_id) {
            Some(entry) => entry,
            None => {
                return Err(invalid("unknown artifact id"));
            },
        };
        assert(self@.entries[artifact_id@] == entry@);
        assert(self@.entries.contains_key(artifact_id@));
        let offset: u64 = match cursor {
            None => 0,
            Some(token) => {
                if self.admission.consumed_cursors.contains(token) {
                    return Err(invalid("stale cursor"));
                }
                let (owned, place): (bool, u64) = match self.admission.issued_cursors.get(token) {
                    Some(issued) => (
                        same_text(issued.artifact_id.as_str(), artifact_id),
                        issued.offset,
                    ),
                    None => {
                        return Err(invalid("forged cursor"));
                    },
                };
                assert(self@.admission.issued.contains_key(token@));
                self.admission.issued_cursors.remove(token);
                if !owned {
                    assert(self@ =~= old(self)@.without_cursor(token@));
                    return Err(invalid("cursor artifact mismatch"));
                }
                self.admission.consumed_cursors.insert(token.to_owned());
                place
            },
        };
        let ghost used = old(self)@.with_cursor_used(cursor_text(cursor));
        assert(self@ =~= used);
        let remaining: u64 = entry.size - offset;
        let amount: u64 = if remaining < MAX_PAGE_CONTENT_BYTES as u64 {
            remaining
        } else {
            MAX_PAGE_CONTENT_BYTES as u64
        };
        let end_offset: u64 = offset + amount;
        let content: &[u8] = vstd::slice::slice_subrange(
            entry.content.as_slice(),
            offset as usize,
            end_offset as usize,
        );
        let end: bool = end_offset == entry.size;
        let sha256 = entry.sha256.clone();
        let content_base64 = base64_encode(content);
        assert forall|other: Seq<u8>| #[trigger]
            base64_text(other) == content_base64@ implies other == content@ by {
            base64_text_determines_bytes(other, content@);
        }
        let next_cursor: Option<String> = if end {
            None
        } else {
            let token = self.cursor_token(artifact_id, end_offset);
            self.admission.issued_cursors.insert(
                token.clone(),
                Cursor { artifact_id: artifact_id.to_owned(), offset: end_offset },
            );
            Some(token)
        };
        assert(self@ =~= used.with_cursor_issued(artifact_id@, offset as nat));
        Ok(
            ReadPage {
                artifact_id: artifact_id.to_owned(),
                sha256,
                content_base64,
                byte_start: offset,
                byte_end: end_offset,
                next_cursor,
                end,
            },
        )
    }

    /// Hands out a page where the cursors and budgets are out of reach, since the lock that guards
    /// them is poisoned: a first page that is also the last.
    pub fn read_page_without_admission(
        &self,
        artifact_id: &str,
        cursor: Option<&str>,
        now: u128,
    ) -> (result: Result<ReadPage, BoundedReadError>)
        requires
            self.wf(),
        ensures
            match self@.page_without_admission(artifact_id@, cursor_text(cursor), now as nat) {
                Ok(wanted) => result matches Ok(page) && page@ == wanted,
                Err(refusal) => result matches Err(error) && error@ == refusal,
            },
    {
        self.check_deadline(now)?;
        let entry: &ManifestEntry = match self.entries.get(artifact_id) {
            Some(entry) => entry,
            None => {
                return Err(invalid("unknown artifact id"));
            },
        };
        assert(self@.entries[artifact_id@] == entry@);
        assert(self@.entries.contains_key(artifact_id@));
        if cursor.is_some() || entry.size > MAX_PAGE_CONTENT_BYTES as u64 {
            return Err(invalid("admission lock poisoned"));
        }
        assert(page_bytes(entry@.content, 0) =~= entry@.content);
        Ok(
            ReadPage {
                artifact_id: artifact_id.to_owned(),
                sha256: entry.sha256.clone(),
                content_base64: base64_encode(entry.content.as_slice()),
                byte_start: 0,
                byte_end: entry.size,
                next_cursor: None,
                end: true,
            },
        )
    }

    /// The token of a place in an artifact.
    pub fn cursor_token(&self, artifact_id: &str, offset: u64) -> (token: String)
        ensures
            token@ == self@.token(artifact_id@, offset as nat),
            is_digest(token@),
    {
        cursor_token(
            self.nonce.as_slice(),
            self.manifest_sha256.as_str(),
            self.request_id.as_str(),
            self.project_id.as_str(),
            self.revision.as_str(),
            artifact_id,
            offset,
        )
    }
}

/// A cursor as its token's characters.
pub open spec fn cursor_text(cursor: Option<&str>) -> Option<Seq<char>> {
    match cursor {
        Some(token) => Some(token@),
        None => None,
    }
}

} // verus!
