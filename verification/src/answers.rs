//! What each operation of a session answers and changes, said of its inputs and of what the session
//! holds.

use crate::cursor::{be_bytes, token_bytes, CursorView};
use crate::digest::{hex_text, sha256};
use crate::error::Refusal;
use crate::laws::{
    a_series_keeps_a_session_valid, a_shared_token_is_a_collision, after, after_all,
    artifacts_are_immutable, Event,
};
use crate::limits::{
    DEADLINE_NANOS, MAX_ARTIFACT_BYTES, MAX_OUTPUT_TOKENS, MAX_PAGES, MAX_PAGE_CONTENT_BYTES,
    MAX_PROVIDER_REQUESTS, MAX_PROVIDER_REQUEST_BYTES, MAX_PROVIDER_REQUEST_BYTES_TOTAL,
    MAX_TOOL_RESULT_BYTES, MAX_TOOL_RESULT_BYTES_TOTAL, PROVIDER_FRAMING_RESERVE,
};
use crate::page::PageView;
use crate::session::{fresh_admission, SessionView};
use vstd::prelude::*;
use vstd::utf8::encode_utf8;

verus! {

/// Whether a session still runs: at most its whole time has passed since it began.
pub open spec fn in_time(session: SessionView, now: nat) -> bool {
    now <= session.started_at + DEADLINE_NANOS
}

/// The time of a session runs from its beginning, and it is up when more than fifteen minutes have
/// passed. Before the beginning no time has passed.
pub proof fn time_runs_from_the_beginning(session: SessionView, now: nat, later: nat)
    ensures
        session.expired(now) <==> now > session.started_at + DEADLINE_NANOS,
        now >= session.started_at ==> session.elapsed(now) == now - session.started_at,
        now <= session.started_at ==> session.elapsed(now) == 0,
        session.started_at <= now <= later ==> session.elapsed(later) - session.elapsed(now) == later
            - now,
{
}

/// The time that is left and the time that has passed are the whole time together. There is an
/// answer exactly as long as the session runs.
pub proof fn time_left_and_time_passed_are_the_whole(session: SessionView, now: nat)
    ensures
        session.time_left(now) is Ok <==> in_time(session, now),
        session.time_left(now) matches Ok(left) ==> session.started_at <= now ==> left + (now
            - session.started_at) == DEADLINE_NANOS,
        session.time_left(now) matches Ok(left) ==> now < session.started_at ==> left
            == DEADLINE_NANOS,
        session.time_left(now) is Err ==> session.time_left(now) == Err::<u128, Refusal>(
            Refusal::DeadlineExceeded,
        ),
{
}

/// A session begins with nothing used up and no cursor out.
pub proof fn a_fresh_session_has_used_nothing(token: Seq<char>)
    ensures
        fresh_admission().provider_requests == 0,
        fresh_admission().provider_bytes == 0,
        fresh_admission().pages == 0,
        fresh_admission().tool_bytes == 0,
        !fresh_admission().issued.contains_key(token),
        !fresh_admission().consumed.contains(token),
        !fresh_admission().user_turn_started,
{
}

/// A user turn is granted exactly where the session still runs and no turn has begun before. Where
/// the time is up that is the reason, and else the budget.
pub proof fn a_turn_is_granted_in_time_and_once(session: SessionView, now: nat)
    ensures
        session.turn_verdict(now) is Ok <==> in_time(session, now)
            && !session.admission.user_turn_started,
        !in_time(session, now) ==> session.turn_verdict(now) == Err::<(), Refusal>(
            Refusal::DeadlineExceeded,
        ),
        in_time(session, now) && session.admission.user_turn_started ==> session.turn_verdict(now)
            == Err::<(), Refusal>(Refusal::BudgetExhausted),
        session.turn_verdict(now) is Ok ==> session.with_turn().turn_verdict(now) is Err,
{
}

/// A tool result that fits is granted: one within the limit on one result, in a session that still
/// runs and has granted fewer results than it may, whatever else has happened in it. Nothing else
/// is granted. Where the time is up that is the reason, and else the budget.
pub proof fn a_tool_result_that_fits_is_granted(session: SessionView, len: nat, now: nat)
    ensures
        session.valid() ==> (session.tool_verdict(len, now) is Ok <==> in_time(session, now) && len
            <= MAX_TOOL_RESULT_BYTES && session.admission.pages < MAX_PAGES),
        session.tool_verdict(len, now) is Ok <==> in_time(session, now) && len
            <= MAX_TOOL_RESULT_BYTES && session.admission.pages < MAX_PAGES
            && session.admission.tool_bytes + len <= MAX_TOOL_RESULT_BYTES_TOTAL,
        !in_time(session, now) ==> session.tool_verdict(len, now) == Err::<(), Refusal>(
            Refusal::DeadlineExceeded,
        ),
        in_time(session, now) && session.tool_verdict(len, now) is Err ==> session.tool_verdict(
            len,
            now,
        ) == Err::<(), Refusal>(Refusal::BudgetExhausted),
{
}

/// What is answered to a tool result depends on nothing but the time, its length and the tool
/// results before it, and a shorter one is granted wherever a longer one is.
pub proof fn tool_results_are_judged_by_their_own_budget(
    session: SessionView,
    other: SessionView,
    len: nat,
    shorter: nat,
    now: nat,
)
    requires
        session.started_at == other.started_at,
        session.admission.pages == other.admission.pages,
        session.admission.tool_bytes == other.admission.tool_bytes,
        shorter <= len,
    ensures
        session.tool_verdict(len, now) == other.tool_verdict(len, now),
        session.tool_verdict(len, now) is Ok ==> other.tool_verdict(shorter, now) is Ok,
{
}

/// A provider request that fits is granted: one within the limit on one request, which leaves the
/// answer and the framing their room in the context window, in a session that still runs and has
/// granted fewer requests than it may, whatever else has happened in it. Nothing else is granted.
/// Where the time is up that is the reason, else where the request is too large by itself the
/// context, and else the budget.
pub proof fn a_provider_request_that_fits_is_granted(
    session: SessionView,
    len: nat,
    window: nat,
    now: nat,
)
    ensures
        session.valid() ==> (session.request_verdict(len, window, now) is Ok <==> in_time(
            session,
            now,
        ) && len <= MAX_PROVIDER_REQUEST_BYTES && len + MAX_OUTPUT_TOKENS + PROVIDER_FRAMING_RESERVE
            <= window && session.admission.provider_requests < MAX_PROVIDER_REQUESTS),
        session.request_verdict(len, window, now) is Ok <==> in_time(session, now) && len
            <= MAX_PROVIDER_REQUEST_BYTES && len + MAX_OUTPUT_TOKENS + PROVIDER_FRAMING_RESERVE
            <= window && session.admission.provider_requests < MAX_PROVIDER_REQUESTS
            && session.admission.provider_bytes + len <= MAX_PROVIDER_REQUEST_BYTES_TOTAL,
        !in_time(session, now) ==> session.request_verdict(len, window, now) == Err::<(), Refusal>(
            Refusal::DeadlineExceeded,
        ),
        in_time(session, now) && (len > MAX_PROVIDER_REQUEST_BYTES || len + MAX_OUTPUT_TOKENS
            + PROVIDER_FRAMING_RESERVE > window) ==> session.request_verdict(len, window, now)
            == Err::<(), Refusal>(Refusal::ContextTooLarge),
        in_time(session, now) && len <= MAX_PROVIDER_REQUEST_BYTES && len + MAX_OUTPUT_TOKENS
            + PROVIDER_FRAMING_RESERVE <= window && session.request_verdict(len, window, now) is Err
            ==> session.request_verdict(len, window, now) == Err::<(), Refusal>(
            Refusal::BudgetExhausted,
        ),
{
}

/// What is answered to a provider request depends on nothing but the time, its length, the window
/// and the requests before it. A shorter one is granted wherever a longer one is, and in a wider
/// window too.
pub proof fn provider_requests_are_judged_by_their_own_budget(
    session: SessionView,
    other: SessionView,
    len: nat,
    shorter: nat,
    window: nat,
    wider: nat,
    now: nat,
)
    requires
        session.started_at == other.started_at,
        session.admission.provider_requests == other.admission.provider_requests,
        session.admission.provider_bytes == other.admission.provider_bytes,
        shorter <= len,
        window <= wider,
    ensures
        session.request_verdict(len, window, now) == other.request_verdict(len, window, now),
        session.request_verdict(len, window, now) is Ok ==> other.request_verdict(
            shorter,
            wider,
            now,
        ) is Ok,
{
}

/// What an operation of one budget grants counts there and nowhere else: each grant adds one to its
/// counter and its length to its sum, and leaves all other budgets, all cursors, and what the
/// session reads from as they were.
pub proof fn a_grant_counts_in_its_own_budget(session: SessionView, len: nat)
    ensures
        ({
            let then = session.with_tool_result(len);
            &&& then.admission.pages == session.admission.pages + 1
            &&& then.admission.tool_bytes == session.admission.tool_bytes + len
            &&& then.admission.provider_requests == session.admission.provider_requests
            &&& then.admission.provider_bytes == session.admission.provider_bytes
            &&& then.admission.user_turn_started == session.admission.user_turn_started
            &&& then.admission.issued == session.admission.issued
            &&& then.admission.consumed == session.admission.consumed
            &&& then.entries == session.entries
            &&& then.binding == session.binding
            &&& then.started_at == session.started_at
        }),
        ({
            let then = session.with_request(len);
            &&& then.admission.provider_requests == session.admission.provider_requests + 1
            &&& then.admission.provider_bytes == session.admission.provider_bytes + len
            &&& then.admission.pages == session.admission.pages
            &&& then.admission.tool_bytes == session.admission.tool_bytes
            &&& then.admission.user_turn_started == session.admission.user_turn_started
            &&& then.admission.issued == session.admission.issued
            &&& then.admission.consumed == session.admission.consumed
            &&& then.entries == session.entries
            &&& then.binding == session.binding
            &&& then.started_at == session.started_at
        }),
        ({
            let then = session.with_turn();
            &&& then.admission.user_turn_started
            &&& then.admission.provider_requests == session.admission.provider_requests
            &&& then.admission.provider_bytes == session.admission.provider_bytes
            &&& then.admission.pages == session.admission.pages
            &&& then.admission.tool_bytes == session.admission.tool_bytes
            &&& then.admission.issued == session.admission.issued
            &&& then.admission.consumed == session.admission.consumed
            &&& then.entries == session.entries
            &&& then.binding == session.binding
            &&& then.started_at == session.started_at
        }),
{
}

/// The first page of an artifact can be read at any time and as often as one likes, as long as the
/// session runs, whatever has become of its cursors and budgets.
pub proof fn a_first_page_can_always_be_read(session: SessionView, artifact_id: Seq<char>, now: nat)
    ensures
        session.page_start(artifact_id, None, now) is Ok <==> in_time(session, now)
            && session.entries.contains_key(artifact_id),
        session.page_start(artifact_id, None, now) is Ok ==> session.page_start(
            artifact_id,
            None,
            now,
        ) == Ok::<nat, Refusal>(0),
{
}

/// A cursor gives a page exactly where the session runs, the cursor is out and has not been used,
/// and it belongs to the artifact that is asked for. The page starts where the cursor stands.
pub proof fn a_cursor_gives_the_page_where_it_stands(
    session: SessionView,
    artifact_id: Seq<char>,
    token: Seq<char>,
    now: nat,
    offset: nat,
)
    ensures
        session.page_start(artifact_id, Some(token), now) == Ok::<nat, Refusal>(offset) <==> {
            &&& in_time(session, now)
            &&& session.entries.contains_key(artifact_id)
            &&& !session.admission.consumed.contains(token)
            &&& session.admission.issued.contains_key(token)
            &&& session.admission.issued[token].artifact_id == artifact_id
            &&& session.admission.issued[token].offset == offset
        },
{
}

/// Why a page is refused: first comes the time, next the artifact, next whether the cursor was used
/// before, next whether it is out, and last whether it belongs to the artifact.
pub proof fn a_refused_page_has_its_reason(
    session: SessionView,
    artifact_id: Seq<char>,
    cursor: Option<Seq<char>>,
    now: nat,
)
    ensures
        ({
            let answer = session.page_start(artifact_id, cursor, now);
            let running = in_time(session, now);
            let known = running && session.entries.contains_key(artifact_id);
            &&& !running ==> answer == Err::<nat, Refusal>(Refusal::DeadlineExceeded)
            &&& running && !known ==> answer == Err::<nat, Refusal>(
                Refusal::InvalidCustody("unknown artifact id"@),
            )
            &&& cursor matches Some(token) ==> {
                let used = session.admission.consumed.contains(token);
                let out = session.admission.issued.contains_key(token);
                &&& known && used ==> answer == Err::<nat, Refusal>(
                    Refusal::InvalidCustody("stale cursor"@),
                )
                &&& known && !used && !out ==> answer == Err::<nat, Refusal>(
                    Refusal::InvalidCustody("forged cursor"@),
                )
                &&& known && !used && out && session.admission.issued[token].artifact_id
                    != artifact_id ==> answer == Err::<nat, Refusal>(
                    Refusal::InvalidCustody("cursor artifact mismatch"@),
                )
            }
        }),
{
}

/// Reading costs no budget and changes nothing but the cursors. Exactly the cursor that gave the
/// page is marked as used.
pub proof fn a_read_uses_its_own_cursor_only(
    session: SessionView,
    artifact_id: Seq<char>,
    cursor: Option<Seq<char>>,
    now: nat,
)
    ensures
        ({
            let next = session.after_read(artifact_id, cursor, now);
            let given = session.page_start(artifact_id, cursor, now) is Ok;
            &&& next.admission.provider_requests == session.admission.provider_requests
            &&& next.admission.provider_bytes == session.admission.provider_bytes
            &&& next.admission.pages == session.admission.pages
            &&& next.admission.tool_bytes == session.admission.tool_bytes
            &&& next.admission.user_turn_started == session.admission.user_turn_started
            &&& next.entries == session.entries
            &&& next.binding == session.binding
            &&& next.started_at == session.started_at
            &&& forall|token: Seq<char>| #[trigger]
                next.admission.consumed.contains(token) <==> session.admission.consumed.contains(token)
                    || (given && cursor == Some(token))
        }),
{
}

/// A page that does not end its artifact hands out one cursor, which stands where the page ends. No
/// other cursor comes out, and none moves.
pub proof fn a_read_hands_out_the_next_cursor_only(
    session: SessionView,
    artifact_id: Seq<char>,
    cursor: Option<Seq<char>>,
    now: nat,
    start: nat,
    token: Seq<char>,
)
    requires
        session.page_start(artifact_id, cursor, now) == Ok::<nat, Refusal>(start),
    ensures
        ({
            let next = session.after_read(artifact_id, cursor, now);
            let page = session.page(artifact_id, start);
            &&& page.next_cursor == Some(token) ==> {
                &&& next.admission.issued.contains_key(token)
                &&& next.admission.issued[token].artifact_id == artifact_id
                &&& next.admission.issued[token].offset == page.byte_end
            }
            &&& page.next_cursor != Some(token) && next.admission.issued.contains_key(token) ==> {
                &&& session.admission.issued.contains_key(token)
                &&& next.admission.issued[token] == session.admission.issued[token]
            }
            &&& page.next_cursor != Some(token) && cursor == Some(token)
                ==> !next.admission.issued.contains_key(token)
            &&& cursor != Some(token) && session.admission.issued.contains_key(token)
                ==> next.admission.issued.contains_key(token)
        }),
{
}

/// A refused read leaves the session as it was, but for one case: a cursor that is out, is unused
/// and belongs to another artifact is taken back, without counting as used, and all other cursors
/// stay.
pub proof fn a_refused_read_takes_back_a_misdirected_cursor_only(
    session: SessionView,
    artifact_id: Seq<char>,
    token: Seq<char>,
    now: nat,
    other: Seq<char>,
)
    ensures
        ({
            let next = session.after_read(artifact_id, Some(token), now);
            let known = in_time(session, now) && session.entries.contains_key(artifact_id);
            let out = !session.admission.consumed.contains(token)
                && session.admission.issued.contains_key(token);
            &&& !known || !out ==> next == session
            &&& known && out && session.admission.issued[token].artifact_id != artifact_id ==> {
                &&& !next.admission.issued.contains_key(token)
                &&& next.admission.consumed == session.admission.consumed
                &&& other != token ==> {
                    &&& next.admission.issued.contains_key(other)
                        == session.admission.issued.contains_key(other)
                    &&& next.admission.issued.contains_key(other) ==> next.admission.issued[other]
                        == session.admission.issued[other]
                }
            }
        }),
        !in_time(session, now) || !session.entries.contains_key(artifact_id)
            ==> session.after_read(artifact_id, None, now) == session,
{
}

/// A page is a stretch of its artifact, and says which: it starts where it was asked to, runs for as
/// many bytes as a page holds, or to the end of the artifact where that comes first, and carries the
/// token of the place where it ends unless that is the end of the artifact.
pub proof fn a_page_is_the_stretch_that_it_says(
    session: SessionView,
    artifact_id: Seq<char>,
    start: nat,
)
    requires
        session.entries.contains_key(artifact_id),
        start <= session.entries[artifact_id].size <= MAX_ARTIFACT_BYTES,
    ensures
        ({
            let entry = session.entries[artifact_id];
            let page = session.page(artifact_id, start);
            &&& page.byte_start == start
            &&& start <= page.byte_end <= entry.size
            &&& page.byte_end - start <= MAX_PAGE_CONTENT_BYTES
            &&& page.byte_end < entry.size ==> page.byte_end - start == MAX_PAGE_CONTENT_BYTES
            &&& page.end == (page.byte_end == entry.size)
            &&& page.artifact_id == entry.artifact_id
            &&& page.sha256 == entry.sha256
            &&& page.byte_end == entry.size ==> page.next_cursor is None
            &&& page.byte_end < entry.size ==> page.next_cursor == Some(
                hex_text(
                    sha256(
                        session.binding.nonce + encode_utf8(session.binding.manifest_sha256)
                            + encode_utf8(session.binding.request_id) + encode_utf8(
                            session.binding.project_id,
                        ) + encode_utf8(session.binding.revision) + encode_utf8(artifact_id)
                            + be_bytes(page.byte_end as u64),
                    ),
                ),
            )
        }),
{
}

/// Two reads of an artifact with the same start give the same page, whatever happens in between.
pub proof fn a_page_is_the_same_at_all_times(
    session: SessionView,
    events: Seq<Event>,
    artifact_id: Seq<char>,
    start: nat,
)
    ensures
        after_all(session, events).page(artifact_id, start) == session.page(artifact_id, start),
{
    artifacts_are_immutable(session, events);
}

/// Without a look at the cursors and budgets a page is handed out exactly where the session runs,
/// no cursor is used, and the artifact fits on one page. Why it is refused else: first comes the
/// time, next the artifact, and last the lock.
pub proof fn a_small_artifact_needs_no_admission(
    session: SessionView,
    artifact_id: Seq<char>,
    cursor: Option<Seq<char>>,
    now: nat,
)
    ensures
        ({
            let answer = session.page_without_admission(artifact_id, cursor, now);
            let known = in_time(session, now) && session.entries.contains_key(artifact_id);
            let small = session.entries[artifact_id].size <= MAX_PAGE_CONTENT_BYTES;
            &&& answer is Ok <==> known && cursor is None && small
            &&& answer is Ok ==> answer == Ok::<PageView, Refusal>(session.page(artifact_id, 0))
            &&& !in_time(session, now) ==> answer == Err::<PageView, Refusal>(
                Refusal::DeadlineExceeded,
            )
            &&& in_time(session, now) && !known ==> answer == Err::<PageView, Refusal>(
                Refusal::InvalidCustody("unknown artifact id"@),
            )
            &&& known && !(cursor is None && small) ==> answer == Err::<PageView, Refusal>(
                Refusal::InvalidCustody("admission lock poisoned"@),
            )
        }),
{
}

/// Whether an operation uses a cursor.
pub open spec fn uses(event: Event, token: Seq<char>) -> bool {
    event matches Event::Read { cursor, .. } && cursor == Some(token)
}

/// Whether a cursor stands in the same place as another of the same token. If it does not, SHA-256
/// has given the different bytes of the two places the same digest.
pub open spec fn same_place_or_collision(
    session: SessionView,
    first: CursorView,
    second: CursorView,
) -> bool {
    let first_bytes = token_bytes(session.binding, first.artifact_id, first.offset as u64);
    let second_bytes = token_bytes(session.binding, second.artifact_id, second.offset as u64);
    ||| first.artifact_id == second.artifact_id && first.offset == second.offset
    ||| first_bytes != second_bytes && sha256(first_bytes) == sha256(second_bytes)
}

/// An operation that does not use a cursor which is out leaves it out, and unused if it was.
pub proof fn a_cursor_stays_out_beside_an_operation(
    session: SessionView,
    event: Event,
    token: Seq<char>,
)
    requires
        session.admission.issued.contains_key(token),
        !uses(event, token),
    ensures
        after(session, event).admission.issued.contains_key(token),
        after(session, event).admission.consumed.contains(token)
            == session.admission.consumed.contains(token),
{
}

/// A cursor that is out stays out until it is used itself: no series of operations that does not use
/// it takes it away, marks it as used or moves it.
pub proof fn a_cursor_stays_out_until_it_is_used(
    session: SessionView,
    events: Seq<Event>,
    token: Seq<char>,
)
    requires
        session.valid(),
        session.admission.issued.contains_key(token),
        forall|i: int| 0 <= i < events.len() ==> !uses(#[trigger] events[i], token),
    ensures
        after_all(session, events).admission.issued.contains_key(token),
        after_all(session, events).admission.consumed.contains(token)
            == session.admission.consumed.contains(token),
        same_place_or_collision(
            session,
            after_all(session, events).admission.issued[token],
            session.admission.issued[token],
        ),
    decreases events.len(),
{
    if events.len() > 0 {
        assert forall|i: int| 0 <= i < events.drop_last().len() implies !uses(
            #[trigger] events.drop_last()[i],
            token,
        ) by {
            assert(!uses(events[i], token));
        }
        a_cursor_stays_out_until_it_is_used(session, events.drop_last(), token);
        assert(!uses(events[events.len() - 1], token));
        a_cursor_stays_out_beside_an_operation(
            after_all(session, events.drop_last()),
            events.last(),
            token,
        );
    }
    let last = after_all(session, events);
    a_series_keeps_a_session_valid(session, events);
    artifacts_are_immutable(session, events);
    let first = session.admission.issued[token];
    let second = last.admission.issued[token];
    assert(token == session.token(first.artifact_id, first.offset));
    assert(token == last.token(second.artifact_id, second.offset));
    assert(first.offset <= MAX_ARTIFACT_BYTES && second.offset <= MAX_ARTIFACT_BYTES);
    if first.artifact_id != second.artifact_id || first.offset != second.offset {
        a_shared_token_is_a_collision(
            session,
            second.artifact_id,
            second.offset as u64,
            first.artifact_id,
            first.offset as u64,
        );
    }
}

/// What a cursor would give, it gives later too: a page that a cursor leads to is still to be had
/// after any series of operations that does not use the cursor, as long as the session runs.
pub proof fn a_cursor_gives_later_what_it_gives_now(
    session: SessionView,
    events: Seq<Event>,
    artifact_id: Seq<char>,
    token: Seq<char>,
    now: nat,
    later: nat,
)
    requires
        session.valid(),
        session.page_start(artifact_id, Some(token), now) is Ok,
        in_time(session, later),
        forall|i: int| 0 <= i < events.len() ==> !uses(#[trigger] events[i], token),
    ensures
        ({
            let last = after_all(session, events);
            let place = session.admission.issued[token];
            let then = last.admission.issued[token];
            &&& same_place_or_collision(session, then, place)
            &&& then.artifact_id == place.artifact_id && then.offset == place.offset
                ==> last.page_start(artifact_id, Some(token), later) == session.page_start(
                artifact_id,
                Some(token),
                now,
            )
        }),
{
    a_cursor_stays_out_until_it_is_used(session, events, token);
    artifacts_are_immutable(session, events);
}

/// The cursor of one artifact is still good after another artifact has been read on: with two pages
/// read of each in turn, the second page of the second artifact is to be had as if the first
/// artifact had not been touched, unless the two next places share a token.
pub proof fn artifacts_can_be_read_in_turn(
    session: SessionView,
    first_id: Seq<char>,
    first_cursor: Option<Seq<char>>,
    second_id: Seq<char>,
    token: Seq<char>,
    now: nat,
)
    requires
        session.valid(),
        session.page_start(first_id, first_cursor, now) is Ok,
        session.page_start(second_id, Some(token), now) is Ok,
        first_cursor != Some(token),
        session.page(first_id, session.page_start(first_id, first_cursor, now)->Ok_0).next_cursor
            != Some(token),
    ensures
        session.after_read(first_id, first_cursor, now).page_start(second_id, Some(token), now)
            == session.page_start(second_id, Some(token), now),
{
}

/// A cursor that no page has brought gives none: what is not out at the beginning of a series, and
/// is not the next cursor of any page read in it, is not out at its end.
pub proof fn a_cursor_comes_from_a_page_only(
    session: SessionView,
    events: Seq<Event>,
    token: Seq<char>,
)
    requires
        !session.admission.issued.contains_key(token),
        forall|i: int|
            0 <= i < events.len() ==> (#[trigger] events[i] matches Event::Read {
                artifact_id,
                cursor,
                now,
            } ==> after_all(session, events.take(i)).page_start(artifact_id, cursor, now) matches Ok(
                start,
            ) ==> after_all(session, events.take(i)).page(artifact_id, start).next_cursor != Some(
                token,
            )),
    ensures
        !after_all(session, events).admission.issued.contains_key(token),
    decreases events.len(),
{
    if events.len() > 0 {
        let fewer = events.drop_last();
        let last = events.len() - 1;
        assert forall|i: int| 0 <= i < fewer.len() implies (#[trigger] fewer[i] matches Event::Read {
            artifact_id,
            cursor,
            now,
        } ==> after_all(session, fewer.take(i)).page_start(artifact_id, cursor, now) matches Ok(start)
            ==> after_all(session, fewer.take(i)).page(artifact_id, start).next_cursor != Some(token)) by {
            assert(fewer[i] == events[i]);
            assert(fewer.take(i) =~= events.take(i));
        }
        a_cursor_comes_from_a_page_only(session, fewer, token);
        assert(events.take(last) =~= fewer);
        assert(events[last] == events.last());
    }
}

} // verus!
