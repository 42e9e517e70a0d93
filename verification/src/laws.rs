//! What holds of sessions and plans over any series of operations.

use crate::custody::{
    clash, first_plan, manifest_verdict, no_fault_means_in_order, total_size, ManifestView, PlanView, RequestView,
};
use crate::cursor::{token_bytes, token_bytes_determine_cursor};
use crate::digest::{hex_text_determines_bytes, sha256};
use crate::encoding::base64_text;
use crate::error::Refusal;
use crate::files::artifact_verdict;
use crate::json::JsonModel;
use crate::limits::{
    MAX_ARTIFACTS, MAX_ARTIFACT_BYTES, MAX_ARTIFACT_BYTES_TOTAL, MAX_PAGES, MAX_PAGE_CONTENT_BYTES,
    MAX_PROVIDER_REQUESTS, MAX_PROVIDER_REQUEST_BYTES, MAX_PROVIDER_REQUEST_BYTES_TOTAL,
    MAX_TOOL_RESULT_BYTES, MAX_TOOL_RESULT_BYTES_TOTAL,
};
use crate::manifest::{entry_verdict, is_canonical_relative, EntryView};
use crate::page::{page_bytes, page_end, PageView};
use crate::provider::request_json_verdict;
use crate::session::{fresh_admission, is_verified, SessionView};
use vstd::prelude::*;

verus! {

/// One operation on a session, with the time at which it happens.
pub enum Event {
    Turn { now: nat },
    ToolResult { len: nat, now: nat },
    Request { len: nat, window: nat, now: nat },
    Read { artifact_id: Seq<char>, cursor: Option<Seq<char>>, now: nat },
}

/// Whether a session grants an operation.
pub open spec fn grants(session: SessionView, event: Event) -> bool {
    match event {
        Event::Turn { now } => session.turn_verdict(now) is Ok,
        Event::ToolResult { len, now } => session.tool_verdict(len, now) is Ok,
        Event::Request { len, window, now } => session.request_verdict(len, window, now) is Ok,
        Event::Read { artifact_id, cursor, now } => session.page_start(
            artifact_id,
            cursor,
            now,
        ) is Ok,
    }
}

/// A session after an operation.
pub open spec fn after(session: SessionView, event: Event) -> SessionView {
    match event {
        Event::Turn { .. } => if grants(session, event) {
            session.with_turn()
        } else {
            session
        },
        Event::ToolResult { len, .. } => if grants(session, event) {
            session.with_tool_result(len)
        } else {
            session
        },
        Event::Request { len, .. } => if grants(session, event) {
            session.with_request(len)
        } else {
            session
        },
        Event::Read { artifact_id, cursor, now } => session.after_read(artifact_id, cursor, now),
    }
}

/// A session after a series of operations.
pub open spec fn after_all(session: SessionView, events: Seq<Event>) -> SessionView
    decreases events.len(),
{
    if events.len() == 0 {
        session
    } else {
        after(after_all(session, events.drop_last()), events.last())
    }
}

/// How many operations of a series a session grants that meet a condition, each weighed.
pub open spec fn granted(
    session: SessionView,
    events: Seq<Event>,
    weight: spec_fn(Event) -> nat,
) -> nat
    decreases events.len(),
{
    if events.len() == 0 {
        0
    } else {
        granted(session, events.drop_last(), weight) + if grants(
            after_all(session, events.drop_last()),
            events.last(),
        ) {
            weight(events.last())
        } else {
            0
        }
    }
}

/// One for a user turn.
pub open spec fn turns() -> spec_fn(Event) -> nat {
    |event: Event|
        if event is Turn {
            1
        } else {
            0
        }
}

/// One for a tool result.
pub open spec fn tool_results() -> spec_fn(Event) -> nat {
    |event: Event|
        if event is ToolResult {
            1
        } else {
            0
        }
}

/// The length of a tool result.
pub open spec fn tool_result_bytes() -> spec_fn(Event) -> nat {
    |event: Event|
        match event {
            Event::ToolResult { len, .. } => len,
            _ => 0,
        }
}

/// One for a provider request.
pub open spec fn requests() -> spec_fn(Event) -> nat {
    |event: Event|
        if event is Request {
            1
        } else {
            0
        }
}

/// The length of a provider request.
pub open spec fn request_bytes() -> spec_fn(Event) -> nat {
    |event: Event|
        match event {
            Event::Request { len, .. } => len,
            _ => 0,
        }
}

/// No operation breaks what holds of a session at all times.
pub proof fn an_operation_keeps_a_session_valid(session: SessionView, event: Event)
    requires
        session.valid(),
    ensures
        after(session, event).valid(),
{
}

/// No series of operations breaks what holds of a session at all times.
pub proof fn a_series_keeps_a_session_valid(session: SessionView, events: Seq<Event>)
    requires
        session.valid(),
    ensures
        after_all(session, events).valid(),
    decreases events.len(),
{
    if events.len() > 0 {
        a_series_keeps_a_session_valid(session, events.drop_last());
        an_operation_keeps_a_session_valid(
            after_all(session, events.drop_last()),
            events.last(),
        );
    }
}

/// What a session reads from never changes: no series of operations alters its artifacts, what
/// binds its tokens, or when it began.
pub proof fn artifacts_are_immutable(session: SessionView, events: Seq<Event>)
    ensures
        after_all(session, events).entries == session.entries,
        after_all(session, events).binding == session.binding,
        after_all(session, events).started_at == session.started_at,
    decreases events.len(),
{
    if events.len() > 0 {
        artifacts_are_immutable(session, events.drop_last());
    }
}

/// The counters of a session count exactly what it has granted.
pub proof fn counters_count_what_is_granted(session: SessionView, events: Seq<Event>)
    requires
        !session.admission.user_turn_started,
    ensures
        ({
            let last = after_all(session, events).admission;
            &&& last.pages == session.admission.pages + granted(session, events, tool_results())
            &&& last.tool_bytes == session.admission.tool_bytes + granted(
                session,
                events,
                tool_result_bytes(),
            )
            &&& last.provider_requests == session.admission.provider_requests + granted(
                session,
                events,
                requests(),
            )
            &&& last.provider_bytes == session.admission.provider_bytes + granted(
                session,
                events,
                request_bytes(),
            )
            &&& granted(session, events, turns()) == if last.user_turn_started {
                1nat
            } else {
                0nat
            }
        }),
    decreases events.len(),
{
    if events.len() > 0 {
        counters_count_what_is_granted(session, events.drop_last());
    }
}

/// Whatever is asked of a session from its beginning, and in whatever order, it grants at most one
/// user turn, four tool results with 8,192 bytes in all, and four provider requests with 128,000
/// bytes in all.
pub proof fn a_session_grants_no_more_than_its_budget(session: SessionView, events: Seq<Event>)
    requires
        session.valid(),
        session.admission == fresh_admission(),
    ensures
        granted(session, events, turns()) <= 1,
        granted(session, events, tool_results()) <= MAX_PAGES,
        granted(session, events, tool_result_bytes()) <= MAX_TOOL_RESULT_BYTES_TOTAL,
        granted(session, events, requests()) <= MAX_PROVIDER_REQUESTS,
        granted(session, events, request_bytes()) <= MAX_PROVIDER_REQUEST_BYTES_TOTAL,
{
    a_series_keeps_a_session_valid(session, events);
    counters_count_what_is_granted(session, events);
}

/// What is refused costs nothing: a user turn, a tool result or a provider request that a session
/// does not grant leaves it as it was. So does a page that it refuses, except where a cursor that
/// is out was used on another artifact.
pub proof fn a_refusal_costs_nothing(session: SessionView, event: Event)
    requires
        !grants(session, event),
        event matches Event::Read { artifact_id, cursor, now } ==> !session.misdirected(
            artifact_id,
            cursor,
            now,
        ),
    ensures
        after(session, event) == session,
{
}

/// Nothing is granted once the time is up, and asking costs nothing.
pub proof fn an_expired_session_grants_nothing(session: SessionView, event: Event)
    requires
        ({
            let now = match event {
                Event::Turn { now } => now,
                Event::ToolResult { now, .. } => now,
                Event::Request { now, .. } => now,
                Event::Read { now, .. } => now,
            };
            session.expired(now)
        }),
    ensures
        !grants(session, event),
        after(session, event) == session,
{
}

/// A session that has expired stays expired, whatever is asked of it.
pub proof fn expiry_is_final(session: SessionView, events: Seq<Event>, now: nat, later: nat)
    requires
        session.expired(now),
        now <= later,
    ensures
        after_all(session, events).expired(later),
{
    artifacts_are_immutable(session, events);
}

/// The limits on single messages and on their number leave nothing to the limits on sums: a tool
/// result or a provider request that is within the first two is within the last.
pub proof fn sums_never_run_out_first(session: SessionView, len: nat)
    requires
        session.valid(),
    ensures
        len <= MAX_TOOL_RESULT_BYTES && session.admission.pages < MAX_PAGES
            ==> session.admission.tool_bytes + len <= MAX_TOOL_RESULT_BYTES_TOTAL,
        len <= MAX_PROVIDER_REQUEST_BYTES && session.admission.provider_requests
            < MAX_PROVIDER_REQUESTS ==> session.admission.provider_bytes + len
            <= MAX_PROVIDER_REQUEST_BYTES_TOTAL,
{
}

/// After one user turn there is never another.
pub proof fn there_is_one_user_turn(session: SessionView, events: Seq<Event>, now: nat)
    requires
        session.admission.user_turn_started,
    ensures
        after_all(session, events).turn_verdict(now) is Err,
{
    turn_stays_started(session, events);
}

/// A user turn that has begun has begun for good.
proof fn turn_stays_started(session: SessionView, events: Seq<Event>)
    requires
        session.admission.user_turn_started,
    ensures
        after_all(session, events).admission.user_turn_started,
    decreases events.len(),
{
    if events.len() > 0 {
        turn_stays_started(session, events.drop_last());
    }
}

/// A used cursor stays used.
proof fn consumed_stays_consumed(session: SessionView, events: Seq<Event>, token: Seq<char>)
    requires
        session.admission.consumed.contains(token),
    ensures
        after_all(session, events).admission.consumed.contains(token),
    decreases events.len(),
{
    if events.len() > 0 {
        consumed_stays_consumed(session, events.drop_last(), token);
    }
}

/// A cursor is good for one page: once it has given one, it gives none again, whatever happens in
/// between and whichever artifact it is used on, and it is called stale.
pub proof fn a_cursor_is_used_once(
    session: SessionView,
    artifact_id: Seq<char>,
    token: Seq<char>,
    now: nat,
    events: Seq<Event>,
    other_id: Seq<char>,
    later: nat,
)
    requires
        session.page_start(artifact_id, Some(token), now) is Ok,
    ensures
        ({
            let first = session.after_read(artifact_id, Some(token), now);
            let last = after_all(first, events);
            &&& last.page_start(other_id, Some(token), later) is Err
            &&& !last.expired(later) && last.entries.contains_key(other_id) ==> last.page_start(
                other_id,
                Some(token),
                later,
            ) == Err::<nat, Refusal>(Refusal::InvalidCustody("stale cursor"@))
        }),
{
    consumed_stays_consumed(
        session.after_read(artifact_id, Some(token), now),
        events,
        token,
    );
}

/// A cursor that was used on another artifact is lost: used again right after that, on whichever
/// artifact, it gives no page.
pub proof fn a_misdirected_cursor_is_lost(
    session: SessionView,
    artifact_id: Seq<char>,
    token: Seq<char>,
    now: nat,
    other_id: Seq<char>,
    later: nat,
)
    requires
        session.misdirected(artifact_id, Some(token), now),
    ensures
        session.after_read(artifact_id, Some(token), now).page_start(
            other_id,
            Some(token),
            later,
        ) is Err,
{
}

/// Cursors cannot be made up: only the token of a place inside the artifact that is asked for can
/// give a page, and the page starts there.
pub proof fn only_tokens_of_places_give_pages(
    session: SessionView,
    artifact_id: Seq<char>,
    token: Seq<char>,
    now: nat,
)
    requires
        session.valid(),
        session.page_start(artifact_id, Some(token), now) is Ok,
    ensures
        ({
            let start = session.page_start(artifact_id, Some(token), now)->Ok_0;
            &&& 0 < start < session.entries[artifact_id].size
            &&& token == session.token(artifact_id, start)
        }),
{
}

/// The cursor that comes with a page leads to the page that starts where this one ends, as long as
/// it has not been used before.
pub proof fn a_cursor_leads_on(
    session: SessionView,
    artifact_id: Seq<char>,
    cursor: Option<Seq<char>>,
    now: nat,
    later: nat,
)
    requires
        session.valid(),
        session.page_start(artifact_id, cursor, now) is Ok,
        !session.expired(later),
    ensures
        ({
            let start = session.page_start(artifact_id, cursor, now)->Ok_0;
            let page = session.page(artifact_id, start);
            let next = session.after_read(artifact_id, cursor, now);
            page.next_cursor matches Some(token) ==> !next.admission.consumed.contains(token)
                ==> next.page_start(artifact_id, Some(token), later) == Ok::<nat, Refusal>(
                page.byte_end,
            )
        }),
{
}

/// A page stays within its artifact and its limit, it is never empty unless the artifact is, and
/// only the last one is shorter than the limit.
pub proof fn a_page_is_bounded(
    session: SessionView,
    artifact_id: Seq<char>,
    cursor: Option<Seq<char>>,
    now: nat,
)
    requires
        session.valid(),
        session.page_start(artifact_id, cursor, now) is Ok,
    ensures
        ({
            let start = session.page_start(artifact_id, cursor, now)->Ok_0;
            let entry = session.entries[artifact_id];
            let page = session.page(artifact_id, start);
            &&& page.byte_start == start <= page.byte_end <= entry.size
            &&& page.byte_end - page.byte_start <= MAX_PAGE_CONTENT_BYTES
            &&& page.byte_end == page.byte_start ==> entry.size == 0
            &&& !page.end ==> page.byte_end - page.byte_start == MAX_PAGE_CONTENT_BYTES
            &&& page.end <==> page.byte_end == entry.size
            &&& page.end <==> page.next_cursor is None
            &&& page_bytes(entry.content, start).len() == page.byte_end - page.byte_start
        }),
{
}

/// A session in which an artifact was declared under another path.
pub open spec fn moved(session: SessionView, artifact_id: Seq<char>, path: Seq<char>) -> SessionView {
    SessionView {
        entries: session.entries.insert(
            artifact_id,
            EntryView { path, ..session.entries[artifact_id] },
        ),
        ..session
    }
}

/// Pages and cursors tell nothing of the path of an artifact: had the artifact been declared under
/// another path, every read, of this artifact or any other, would be answered with the same page or
/// the same refusal, and would change the session in the same way.
pub proof fn a_page_tells_no_path(
    session: SessionView,
    artifact_id: Seq<char>,
    path: Seq<char>,
    asked: Seq<char>,
    cursor: Option<Seq<char>>,
    now: nat,
)
    requires
        session.entries.contains_key(artifact_id),
    ensures
        moved(session, artifact_id, path).page_start(asked, cursor, now) == session.page_start(
            asked,
            cursor,
            now,
        ),
        forall|start: nat| #[trigger]
            moved(session, artifact_id, path).page(asked, start) == session.page(asked, start),
        moved(session, artifact_id, path).after_read(asked, cursor, now) == moved(
            session.after_read(asked, cursor, now),
            artifact_id,
            path,
        ),
{
    let other = moved(session, artifact_id, path);
    assert(other.page_start(asked, cursor, now) == session.page_start(asked, cursor, now));
    assert forall|start: nat| #[trigger] other.page(asked, start) == session.page(asked, start) by {
        assert(other.token(asked, page_end(other.entries[asked].size, start)) == session.token(
            asked,
            page_end(session.entries[asked].size, start),
        ));
    }
    assert(session.after_read(asked, cursor, now).entries == session.entries);
    assert(other.after_read(asked, cursor, now) =~= moved(
        session.after_read(asked, cursor, now),
        artifact_id,
        path,
    ));
}

/// No series of operations tells anything of the path of an artifact: had the artifact been declared
/// under another path, the series would leave the session the same but for that path, and whatever
/// is asked next would be granted or refused alike.
pub proof fn a_series_tells_no_path(
    session: SessionView,
    artifact_id: Seq<char>,
    path: Seq<char>,
    events: Seq<Event>,
    next: Event,
)
    requires
        session.entries.contains_key(artifact_id),
    ensures
        after_all(moved(session, artifact_id, path), events) == moved(
            after_all(session, events),
            artifact_id,
            path,
        ),
        grants(after_all(moved(session, artifact_id, path), events), next) == grants(
            after_all(session, events),
            next,
        ),
    decreases events.len(),
{
    if events.len() > 0 {
        let before = after_all(session, events.drop_last());
        artifacts_are_immutable(session, events.drop_last());
        a_series_tells_no_path(session, artifact_id, path, events.drop_last(), events.last());
        if let Event::Read { artifact_id: asked, cursor, now } = events.last() {
            a_page_tells_no_path(before, artifact_id, path, asked, cursor, now);
        }
    }
    artifacts_are_immutable(session, events);
    if let Event::Read { artifact_id: asked, cursor, now } = next {
        a_page_tells_no_path(after_all(session, events), artifact_id, path, asked, cursor, now);
    }
}

/// Two places of a session share a token only where SHA-256 gives different bytes the same digest.
pub proof fn a_shared_token_is_a_collision(
    session: SessionView,
    first_id: Seq<char>,
    first_offset: u64,
    second_id: Seq<char>,
    second_offset: u64,
)
    requires
        first_id != second_id || first_offset != second_offset,
        session.token(first_id, first_offset as nat) == session.token(
            second_id,
            second_offset as nat,
        ),
    ensures
        ({
            let first = token_bytes(session.binding, first_id, first_offset);
            let second = token_bytes(session.binding, second_id, second_offset);
            first != second && sha256(first) == sha256(second)
        }),
{
    let first = token_bytes(session.binding, first_id, first_offset);
    let second = token_bytes(session.binding, second_id, second_offset);
    hex_text_determines_bytes(sha256(first), sha256(second));
    if first == second {
        token_bytes_determine_cursor(
            session.binding,
            first_id,
            first_offset,
            second_id,
            second_offset,
        );
    }
}

/// A page that is handed out without a look at the cursors and budgets is the page that a read
/// gives, and that read leaves the session as it was.
pub proof fn a_page_without_admission_is_the_same(
    session: SessionView,
    artifact_id: Seq<char>,
    cursor: Option<Seq<char>>,
    now: nat,
)
    requires
        session.page_without_admission(artifact_id, cursor, now) is Ok,
    ensures
        session.page_start(artifact_id, cursor, now) == Ok::<nat, Refusal>(0),
        session.page_without_admission(artifact_id, cursor, now) == Ok::<PageView, Refusal>(
            session.page(artifact_id, 0),
        ),
        session.page(artifact_id, 0).end,
        session.after_read(artifact_id, cursor, now) == session,
{
}

/// What a page shows comes from bytes that have the size and the digest which were declared, and
/// the page names that digest.
pub proof fn a_page_comes_from_verified_bytes(
    session: SessionView,
    artifact_id: Seq<char>,
    cursor: Option<Seq<char>>,
    now: nat,
)
    requires
        session.valid(),
        session.page_start(artifact_id, cursor, now) is Ok,
    ensures
        ({
            let start = session.page_start(artifact_id, cursor, now)->Ok_0;
            let entry = session.entries[artifact_id];
            let page = session.page(artifact_id, start);
            &&& is_verified(entry)
            &&& page.artifact_id == artifact_id
            &&& page.sha256 == entry.sha256
            &&& page.content_base64 == base64_text(
                entry.content.subrange(page.byte_start as int, page.byte_end as int),
            )
        }),
{
}

/// The cursor with which a page of an artifact is read, counting from zero: none for the first.
pub open spec fn nth_cursor(session: SessionView, artifact_id: Seq<char>, n: nat) -> Option<
    Seq<char>,
> {
    if n == 0 {
        None
    } else {
        Some(session.token(artifact_id, n * MAX_PAGE_CONTENT_BYTES as nat))
    }
}

/// A session after the first pages of an artifact have been read, one after the other, each with
/// the cursor that came with the one before, and each at its own time.
pub open spec fn after_pages(
    session: SessionView,
    artifact_id: Seq<char>,
    time: spec_fn(nat) -> nat,
    count: nat,
) -> SessionView
    decreases count,
{
    if count == 0 {
        session
    } else {
        let n = (count - 1) as nat;
        after_pages(session, artifact_id, time, n).after_read(
            artifact_id,
            nth_cursor(session, artifact_id, n),
            time(n),
        )
    }
}

/// The first pages of some content, put together.
pub open spec fn joined_pages(content: Seq<u8>, count: nat) -> Seq<u8>
    decreases count,
{
    if count == 0 {
        Seq::empty()
    } else {
        let n = (count - 1) as nat;
        joined_pages(content, n) + page_bytes(content, n * MAX_PAGE_CONTENT_BYTES as nat)
    }
}

/// Whether the cursors of an artifact can be followed from its first page on: none has been used,
/// and no two places share a token.
pub open spec fn cursors_are_unused(session: SessionView, artifact_id: Seq<char>) -> bool {
    let size = session.entries[artifact_id].size;
    &&& forall|n: nat|
        0 < n && n * MAX_PAGE_CONTENT_BYTES < size ==> !session.admission.consumed.contains(
            (#[trigger] nth_cursor(session, artifact_id, n))->Some_0,
        )
    &&& forall|n: nat, m: nat|
        0 < n < m && m * MAX_PAGE_CONTENT_BYTES < size ==> #[trigger] nth_cursor(
            session,
            artifact_id,
            n,
        ) != #[trigger] nth_cursor(session, artifact_id, m)
}

/// What following the cursors of an artifact does to a session.
proof fn following_cursors_keeps_track(
    session: SessionView,
    artifact_id: Seq<char>,
    time: spec_fn(nat) -> nat,
    count: nat,
)
    requires
        session.valid(),
        session.entries.contains_key(artifact_id),
        forall|n: nat| n <= count ==> !session.expired(#[trigger] time(n)),
        cursors_are_unused(session, artifact_id),
        count == 0 || count == 1 || (count - 1) * MAX_PAGE_CONTENT_BYTES
            < session.entries[artifact_id].size,
    ensures
        ({
            let now = after_pages(session, artifact_id, time, count);
            let size = session.entries[artifact_id].size;
            &&& now.entries == session.entries
            &&& now.binding == session.binding
            &&& now.started_at == session.started_at
            &&& forall|token: Seq<char>| #[trigger]
                now.admission.consumed.contains(token) ==> session.admission.consumed.contains(
                    token,
                ) || exists|n: nat|
                    0 < n < count && #[trigger] nth_cursor(session, artifact_id, n) == Some(token)
            &&& 0 < count && count * MAX_PAGE_CONTENT_BYTES < size ==> {
                let token = nth_cursor(session, artifact_id, count)->Some_0;
                &&& now.admission.issued.contains_key(token)
                &&& now.admission.issued[token].artifact_id == artifact_id
                &&& now.admission.issued[token].offset == count * MAX_PAGE_CONTENT_BYTES
            }
            &&& count == 0 || count * MAX_PAGE_CONTENT_BYTES < size ==> now.page_start(
                artifact_id,
                nth_cursor(session, artifact_id, count),
                time(count),
            ) == Ok::<nat, Refusal>(count * MAX_PAGE_CONTENT_BYTES as nat)
        }),
    decreases count,
{
    let now = after_pages(session, artifact_id, time, count);
    let size = session.entries[artifact_id].size;
    if count > 0 {
        let n = (count - 1) as nat;
        following_cursors_keeps_track(session, artifact_id, time, n);
        let before = after_pages(session, artifact_id, time, n);
        let start = n * MAX_PAGE_CONTENT_BYTES as nat;
        assert(before.page_start(artifact_id, nth_cursor(session, artifact_id, n), time(n)) == Ok::<
            nat,
            Refusal,
        >(start));
        assert forall|token: Seq<char>| #[trigger]
            now.admission.consumed.contains(token) implies session.admission.consumed.contains(token)
            || exists|i: nat|
            0 < i < count && #[trigger] nth_cursor(session, artifact_id, i) == Some(token) by {
            if !before.admission.consumed.contains(token) {
                assert(nth_cursor(session, artifact_id, n) == Some(token));
            }
        }
        if count * MAX_PAGE_CONTENT_BYTES < size {
            let token = nth_cursor(session, artifact_id, count)->Some_0;
            assert(nth_cursor(session, artifact_id, count) == Some(token));
            assert(page_end(size, start) == count * MAX_PAGE_CONTENT_BYTES);
            assert(before.token(artifact_id, page_end(size, start)) == token);
            assert(!now.admission.consumed.contains(token)) by {
                if now.admission.consumed.contains(token) {
                    let i = choose|i: nat|
                        0 < i < count && #[trigger] nth_cursor(session, artifact_id, i) == Some(
                            token,
                        );
                    assert(nth_cursor(session, artifact_id, i) != nth_cursor(
                        session,
                        artifact_id,
                        count,
                    ));
                }
            }
            assert(!now.expired(time(count)));
        }
    } else {
        assert(!session.expired(time(0)));
    }
}

/// The first pages of some content, put together, are its first bytes.
proof fn joined_pages_are_a_prefix(content: Seq<u8>, count: nat)
    requires
        count == 0 || (count - 1) * MAX_PAGE_CONTENT_BYTES <= content.len(),
    ensures
        joined_pages(content, count) == content.take(
            if count * MAX_PAGE_CONTENT_BYTES <= content.len() {
                count * MAX_PAGE_CONTENT_BYTES
            } else {
                content.len() as int
            },
        ),
    decreases count,
{
    if count > 0 {
        joined_pages_are_a_prefix(content, (count - 1) as nat);
    }
    assert(joined_pages(content, count) =~= content.take(
        if count * MAX_PAGE_CONTENT_BYTES <= content.len() {
            count * MAX_PAGE_CONTENT_BYTES
        } else {
            content.len() as int
        },
    ));
}

/// Following the cursors from the first page on reads the whole artifact: each page starts where
/// the one before ended, the last one is marked as the end, and put together they are the
/// artifact's content.
pub proof fn following_cursors_reads_the_artifact(
    session: SessionView,
    artifact_id: Seq<char>,
    time: spec_fn(nat) -> nat,
    count: nat,
)
    requires
        session.valid(),
        session.entries.contains_key(artifact_id),
        forall|n: nat| n < count ==> !session.expired(#[trigger] time(n)),
        cursors_are_unused(session, artifact_id),
        count > 0,
        count == 1 || (count - 1) * MAX_PAGE_CONTENT_BYTES < session.entries[artifact_id].size,
        session.entries[artifact_id].size <= count * MAX_PAGE_CONTENT_BYTES,
    ensures
        forall|n: nat|
            n < count ==> (#[trigger] after_pages(session, artifact_id, time, n)).page_start(
                artifact_id,
                nth_cursor(session, artifact_id, n),
                time(n),
            ) == Ok::<nat, Refusal>(n * MAX_PAGE_CONTENT_BYTES as nat),
        forall|n: nat|
            n < count ==> ((#[trigger] after_pages(session, artifact_id, time, n)).page(
                artifact_id,
                n * MAX_PAGE_CONTENT_BYTES as nat,
            ).next_cursor == if n + 1 == count {
                None::<Seq<char>>
            } else {
                nth_cursor(session, artifact_id, n + 1)
            }),
        joined_pages(session.entries[artifact_id].content, count)
            == session.entries[artifact_id].content,
{
    let size = session.entries[artifact_id].size;
    assert forall|n: nat| n < count implies (#[trigger] after_pages(
        session,
        artifact_id,
        time,
        n,
    )).page_start(artifact_id, nth_cursor(session, artifact_id, n), time(n)) == Ok::<nat, Refusal>(
        n * MAX_PAGE_CONTENT_BYTES as nat,
    ) by {
        following_cursors_keeps_track(session, artifact_id, time, n);
    }
    assert forall|n: nat| n < count implies ((#[trigger] after_pages(
        session,
        artifact_id,
        time,
        n,
    )).page(artifact_id, n * MAX_PAGE_CONTENT_BYTES as nat).next_cursor == if n + 1 == count {
        None::<Seq<char>>
    } else {
        nth_cursor(session, artifact_id, n + 1)
    }) by {
        following_cursors_keeps_track(session, artifact_id, time, n);
    }
    let content = session.entries[artifact_id].content;
    joined_pages_are_a_prefix(content, count);
    assert(content.take(content.len() as int) =~= content);
}

/// A plan after artifacts have been taken in, one after the other.
pub open spec fn after_artifacts(plan: PlanView, contents: Seq<Seq<u8>>) -> PlanView
    decreases contents.len(),
{
    if contents.len() == 0 {
        plan
    } else {
        after_artifacts(plan, contents.drop_last()).with_next(contents.last())
    }
}

/// A plan from which artifacts have been taken in holds exactly those, each with its content, in
/// place of their entries.
pub proof fn a_plan_files_what_it_takes_in(plan: PlanView, contents: Seq<Seq<u8>>)
    requires
        plan.valid(),
        contents.len() <= plan.pending.len(),
    ensures
        ({
            let now = after_artifacts(plan, contents);
            &&& now.request == plan.request
            &&& now.pending == plan.pending.skip(contents.len() as int)
            &&& forall|i: int|
                0 <= i < contents.len() ==> {
                    let entry = #[trigger] plan.pending[i];
                    &&& now.loaded.contains_key(entry.artifact_id)
                    &&& now.loaded[entry.artifact_id] == (EntryView {
                        content: contents[i],
                        ..entry
                    })
                }
            &&& forall|id: Seq<char>| #[trigger]
                now.loaded.contains_key(id) ==> plan.loaded.contains_key(id) || exists|i: int|
                    0 <= i < contents.len() && (#[trigger] plan.pending[i]).artifact_id == id
        }),
    decreases contents.len(),
{
    let now = after_artifacts(plan, contents);
    if contents.len() > 0 {
        let before = after_artifacts(plan, contents.drop_last());
        a_plan_files_what_it_takes_in(plan, contents.drop_last());
        let last = contents.len() - 1;
        assert(before.pending[0] == plan.pending[last]);
        assert forall|i: int| 0 <= i < contents.len() implies {
            let entry = #[trigger] plan.pending[i];
            &&& now.loaded.contains_key(entry.artifact_id)
            &&& now.loaded[entry.artifact_id] == (EntryView { content: contents[i], ..entry })
        } by {
            if i < last {
                assert(!clash(plan.pending[i], plan.pending[last]));
                assert(contents.drop_last()[i] == contents[i]);
            }
        }
        assert forall|id: Seq<char>| #[trigger]
            now.loaded.contains_key(id) implies plan.loaded.contains_key(id) || exists|i: int|
            0 <= i < contents.len() && (#[trigger] plan.pending[i]).artifact_id == id by {
            if !before.loaded.contains_key(id) {
                assert(plan.pending[last].artifact_id == id);
            }
        }
    }
    assert(now.pending =~= plan.pending.skip(contents.len() as int));
}

/// Taking in an artifact that is what its entry declares breaks nothing that holds of a plan at all
/// times.
pub proof fn taking_in_keeps_a_plan_valid(plan: PlanView, bytes: Seq<u8>)
    requires
        plan.valid(),
        plan.pending.len() > 0,
        artifact_verdict(plan.pending[0].size, plan.pending[0].sha256, bytes) is Ok,
    ensures
        plan.with_next(bytes).valid(),
{
    let after = plan.with_next(bytes);
    assert forall|i: int, j: int| 0 <= i < j < after.pending.len() implies !(#[trigger] clash(
        after.pending[i],
        after.pending[j],
    )) by {
        assert(!clash(plan.pending[i + 1], plan.pending[j + 1]));
    }
    assert forall|i: int| 0 <= i < after.pending.len() implies entry_verdict(
        #[trigger] after.pending[i],
    ) is Ok && !after.loaded.contains_key(after.pending[i].artifact_id) by {
        assert(after.pending[i] == plan.pending[i + 1]);
        assert(!clash(plan.pending[0], plan.pending[i + 1]));
    }
}

/// Whether contents are what the first entries of a manifest declare, one for each.
pub open spec fn are_declared(manifest: ManifestView, contents: Seq<Seq<u8>>) -> bool {
    &&& contents.len() <= manifest.entries.len()
    &&& forall|i: int|
        0 <= i < contents.len() ==> artifact_verdict(
            (#[trigger] manifest.entries[i]).size,
            manifest.entries[i].sha256,
            contents[i],
        ) is Ok
}

/// A plan stays valid while it takes in what its manifest declares.
proof fn taking_in_a_series_keeps_a_plan_valid(
    request: RequestView,
    manifest: ManifestView,
    contents: Seq<Seq<u8>>,
)
    requires
        manifest_verdict(request, manifest, true) is Ok,
        are_declared(manifest, contents),
    ensures
        after_artifacts(first_plan(request, manifest), contents).valid(),
    decreases contents.len(),
{
    let plan = first_plan(request, manifest);
    no_fault_means_in_order(manifest.entries);
    if contents.len() > 0 {
        let fewer = contents.drop_last();
        assert(are_declared(manifest, fewer)) by {
            assert forall|i: int| 0 <= i < fewer.len() implies artifact_verdict(
                (#[trigger] manifest.entries[i]).size,
                manifest.entries[i].sha256,
                fewer[i],
            ) is Ok by {
                assert(fewer[i] == contents[i]);
            }
        }
        taking_in_a_series_keeps_a_plan_valid(request, manifest, fewer);
        a_plan_files_what_it_takes_in(plan, fewer);
        assert(after_artifacts(plan, fewer).pending[0] == manifest.entries[fewer.len() as int]);
        taking_in_keeps_a_plan_valid(after_artifacts(plan, fewer), contents.last());
    }
}

/// A session that was loaded holds exactly what its manifest declares. Once the contents of all
/// declared artifacts have been taken in, nothing is left to read, and each artifact is there under
/// its id, with its content, verified, and there is no other. There are no more artifacts, and they
/// have no more bytes, than a manifest may declare.
pub proof fn a_loaded_session_holds_what_is_declared(
    request: RequestView,
    manifest: ManifestView,
    contents: Seq<Seq<u8>>,
)
    requires
        manifest_verdict(request, manifest, true) is Ok,
        are_declared(manifest, contents),
        contents.len() == manifest.entries.len(),
    ensures
        ({
            let plan = after_artifacts(first_plan(request, manifest), contents);
            &&& plan.valid()
            &&& plan.request == request
            &&& plan.pending.len() == 0
            &&& forall|i: int|
                0 <= i < contents.len() ==> {
                    let entry = #[trigger] manifest.entries[i];
                    &&& plan.loaded.contains_key(entry.artifact_id)
                    &&& plan.loaded[entry.artifact_id] == (EntryView {
                        content: contents[i],
                        ..entry
                    })
                    &&& is_verified(plan.loaded[entry.artifact_id])
                }
            &&& forall|id: Seq<char>| #[trigger]
                plan.loaded.contains_key(id) ==> exists|i: int|
                    0 <= i < contents.len() && (#[trigger] manifest.entries[i]).artifact_id == id
        }),
        contents.len() <= MAX_ARTIFACTS,
        total_size(manifest.entries, contents.len()) <= MAX_ARTIFACT_BYTES_TOTAL,
{
    let first = first_plan(request, manifest);
    let plan = after_artifacts(first, contents);
    no_fault_means_in_order(manifest.entries);
    taking_in_a_series_keeps_a_plan_valid(request, manifest, contents);
    a_plan_files_what_it_takes_in(first, contents);
    assert forall|i: int| 0 <= i < contents.len() implies {
        let entry = #[trigger] manifest.entries[i];
        &&& plan.loaded.contains_key(entry.artifact_id)
        &&& plan.loaded[entry.artifact_id] == (EntryView { content: contents[i], ..entry })
        &&& is_verified(plan.loaded[entry.artifact_id])
    } by {
        assert(first.pending[i] == manifest.entries[i]);
    }
    assert forall|id: Seq<char>| #[trigger] plan.loaded.contains_key(id) implies exists|i: int|
        0 <= i < contents.len() && (#[trigger] manifest.entries[i]).artifact_id == id by {
        let i = choose|i: int|
            0 <= i < contents.len() && (#[trigger] first.pending[i]).artifact_id == id;
        assert(manifest.entries[i].artifact_id == id);
    }
}

/// Whatever a plan is still to open lies below its root: the paths of its artifacts are relative
/// and canonical, and none of them is read for more than the limit on one artifact.
pub proof fn a_plan_opens_only_what_may_be_opened(plan: PlanView, at: int)
    requires
        plan.valid(),
        0 <= at < plan.pending.len(),
    ensures
        is_canonical_relative(plan.pending[at].path),
        plan.pending[at].size <= MAX_ARTIFACT_BYTES,
{
    assert(entry_verdict(plan.pending[at]) is Ok);
}

/// A provider request passes only if it allows no parallel calls and exposes exactly one tool,
/// which is a strict function of the name under which pages are read.
pub proof fn a_passing_request_exposes_one_tool(request: JsonModel)
    requires
        request_json_verdict(request) is Ok,
    ensures
        request.get("parallel_tool_calls"@) == Some(JsonModel::Bool(false)),
        request.get("tools"@) matches Some(JsonModel::Array(tools)) && tools.len() == 1
            && tools[0].get("type"@) == Some(JsonModel::Text("function"@)) && tools[0].get("name"@)
            == Some(JsonModel::Text("read_custodied_page"@)) && tools[0].get("strict"@) == Some(
            JsonModel::Bool(true),
        ),
{
}

} // verus!
