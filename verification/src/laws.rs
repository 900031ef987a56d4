use vstd::prelude::*;
use crate::error::SubmitError;
use crate::limiter::elapsed;
use crate::model::{latest, lemma_latest, time_ordered, Outcome, Row, StoreState};

verus! {

/// The arguments of one intake.
pub struct Intake {
    pub parsed: Option<Seq<char>>,
    pub submitter_id: u32,
    pub window_seconds: u64,
    pub now: u64,
}

impl StoreState {
    /// The outcome of one intake with these arguments.
    pub open spec fn take(self, call: Intake) -> Outcome<Result<Seq<char>, SubmitError>> {
        self.submit(call.parsed, call.submitter_id, call.window_seconds, call.now)
    }

    /// The store after a run of intakes, the first of `calls` first, with no
    /// hand-over in between.
    pub open spec fn after(self, calls: Seq<Intake>) -> StoreState
        decreases calls.len(),
    {
        if calls.len() == 0 {
            self
        } else {
            self.after(calls.drop_last()).take(calls.last()).state
        }
    }
}

/// A fresh store is well formed, and so is a store after any operation on a
/// well-formed one.
pub proof fn law_operations_keep_wf(
    s: StoreState,
    parsed: Option<Seq<char>>,
    origin: Seq<char>,
    submitter_id: u32,
    window_seconds: u64,
    now: u64,
)
    requires
        s.wf(),
    ensures
        StoreState::absent().wf(),
        s.provision().wf(),
        s.insert(origin, submitter_id, now).state.wf(),
        s.clear().wf(),
        s.drain().state.wf(),
        s.submit(parsed, submitter_id, window_seconds, now).state.wf(),
{
    lemma_insert(s, origin, submitter_id, now);
    if parsed is Some {
        lemma_insert(s, parsed->0, submitter_id, now);
    }
}

/// An insertion either changes nothing but the table's presence, or puts one
/// row at the end under the id that was next.
proof fn lemma_insert(s: StoreState, origin: Seq<char>, submitter_id: u32, now: u64)
    requires
        s.wf(),
    ensures
        s.insert(origin, submitter_id, now).state.wf(),
        s.insert(origin, submitter_id, now).result is Err ==> s.insert(
            origin,
            submitter_id,
            now,
        ).state == s.provision(),
        s.insert(origin, submitter_id, now).result is Ok ==> {
            let t = s.insert(origin, submitter_id, now).state;
            &&& t.rows.len() == s.rows.len() + 1
            &&& t.rows.drop_last() == s.rows
            &&& t.rows.last() == Row { id: s.next_id, origin, submitter_id, submitted_at: now }
            &&& t.next_id == s.next_id + 1
            &&& t.provisioned
        },
{
    let t = s.insert(origin, submitter_id, now).state;
    if s.insert(origin, submitter_id, now).result is Ok {
        assert(t.rows.drop_last() =~= s.rows);
        assert forall|i: int, j: int| 0 <= i < j < t.rows.len() implies (#[trigger] t.rows[i]).origin
            != (#[trigger] t.rows[j]).origin by {
            if j == s.rows.len() {
                assert(s.rows[i].origin != origin);
            }
        }
    }
}

/// Putting the table in place twice is the same as once, and it touches no
/// row and no id.
pub proof fn law_provision_idempotent(s: StoreState)
    ensures
        s.provision().provision() == s.provision(),
        s.provision().rows == s.rows,
        s.provision().next_id == s.next_id,
        s.provision().provisioned,
{
}

/// A text that holds no origin is refused with `InvalidUrl`, whoever sends
/// it and whenever, and the store stays exactly as it was.
pub proof fn law_invalid_url_changes_nothing(
    s: StoreState,
    submitter_id: u32,
    window_seconds: u64,
    now: u64,
)
    ensures
        s.submit(None, submitter_id, window_seconds, now).result == Err::<Seq<char>, SubmitError>(
            SubmitError::InvalidUrl,
        ),
        s.submit(None, submitter_id, window_seconds, now).state == s,
{
}

/// An intake fails with `InvalidUrl` only for a text that holds no origin.
pub proof fn law_invalid_url_only_for_bad_text(
    s: StoreState,
    parsed: Option<Seq<char>>,
    submitter_id: u32,
    window_seconds: u64,
    now: u64,
)
    requires
        s.submit(parsed, submitter_id, window_seconds, now).result == Err::<Seq<char>, SubmitError>(
            SubmitError::InvalidUrl,
        ),
    ensures
        parsed is None,
{
}

/// Every failure leaves the rows and the next id as they were, and only a
/// success adds a row: exactly one, at the end.
pub proof fn law_failure_adds_no_row(
    s: StoreState,
    parsed: Option<Seq<char>>,
    submitter_id: u32,
    window_seconds: u64,
    now: u64,
)
    requires
        s.wf(),
    ensures
        s.submit(parsed, submitter_id, window_seconds, now).result is Err ==> {
            &&& s.submit(parsed, submitter_id, window_seconds, now).state.rows == s.rows
            &&& s.submit(parsed, submitter_id, window_seconds, now).state.next_id == s.next_id
        },
        s.submit(parsed, submitter_id, window_seconds, now).result is Ok ==> {
            &&& parsed is Some
            &&& s.submit(parsed, submitter_id, window_seconds, now).result == Ok::<
                Seq<char>,
                SubmitError,
            >(parsed->0)
            &&& s.submit(parsed, submitter_id, window_seconds, now).state.rows == s.rows.push(
                Row { id: s.next_id, origin: parsed->0, submitter_id, submitted_at: now },
            )
            &&& s.submit(parsed, submitter_id, window_seconds, now).state.next_id == s.next_id + 1
        },
{
    if parsed is Some {
        lemma_insert(s, parsed->0, submitter_id, now);
    }
}

/// A submitter with no pending row passes the limiter under every window;
/// its URL is then queued unless the origin is pending or no id is left.
pub proof fn law_first_submission_accepted(
    s: StoreState,
    origin: Seq<char>,
    submitter_id: u32,
    window_seconds: u64,
    now: u64,
)
    requires
        s.wf(),
        forall|i: int| 0 <= i < s.rows.len() ==> (#[trigger] s.rows[i]).submitter_id != submitter_id,
    ensures
        s.check(submitter_id, window_seconds, now) is Ok,
        !s.holds(origin) && !s.exhausted() ==> s.submit(
            Some(origin),
            submitter_id,
            window_seconds,
            now,
        ).result == Ok::<Seq<char>, SubmitError>(origin),
        s.holds(origin) ==> s.submit(Some(origin), submitter_id, window_seconds, now).result
            == Err::<Seq<char>, SubmitError>(SubmitError::DuplicateUrl),
{
    lemma_latest(s.rows, submitter_id);
}

/// A window of 0 lets every submitter through.
pub proof fn law_zero_window_never_limits(s: StoreState, submitter_id: u32, now: u64)
    ensures
        s.check(submitter_id, 0, now) is Ok,
{
}

/// The limiter refuses exactly while less than the window has passed since
/// the submitter's latest pending row, and then names the seconds that are
/// left: more than 0, and no more than the window.
pub proof fn law_limiter_verdict(s: StoreState, submitter_id: u32, window_seconds: u64, now: u64)
    ensures
        s.check(submitter_id, window_seconds, now) is Err <==> (s.last_submitted_at(submitter_id)
            matches Some(t) && elapsed(t, now) < window_seconds),
        s.check(submitter_id, window_seconds, now) matches Err(e) ==> {
            &&& e matches SubmitError::RateLimited(limit)
            &&& 0 < limit.wait_time <= window_seconds
            &&& limit.wait_time == window_seconds - elapsed(
                s.last_submitted_at(submitter_id)->0,
                now,
            )
        },
{
}

/// Appending rows never takes a submitter's latest timestamp back.
proof fn lemma_latest_grows(rows: Seq<Row>, more: Seq<Row>, submitter_id: u32)
    requires
        rows.len() <= more.len(),
        forall|i: int| 0 <= i < rows.len() ==> rows[i] == more[i],
    ensures
        latest(rows, submitter_id) matches Some(t) ==> latest(more, submitter_id) is Some && latest(
            more,
            submitter_id,
        )->0 >= t,
{
    lemma_latest(rows, submitter_id);
    lemma_latest(more, submitter_id);
    if latest(rows, submitter_id) is Some {
        let t = latest(rows, submitter_id)->0;
        let k = choose|i: int|
            0 <= i < rows.len() && (#[trigger] rows[i]).submitter_id == submitter_id
                && rows[i].submitted_at == t;
        assert(more[k] == rows[k]);
    }
}

/// What a run of intakes leaves: a well-formed store whose rows begin with
/// the rows it had, whose further rows have ids from the old next id on, and
/// whose next id is no smaller.
pub proof fn law_intakes_only_append(s: StoreState, calls: Seq<Intake>)
    requires
        s.wf(),
    ensures
        s.after(calls).wf(),
        s.rows.len() <= s.after(calls).rows.len(),
        forall|i: int| 0 <= i < s.rows.len() ==> s.after(calls).rows[i] == s.rows[i],
        forall|i: int|
            s.rows.len() <= i < s.after(calls).rows.len() ==> (#[trigger] s.after(
                calls,
            ).rows[i]).id >= s.next_id,
        s.after(calls).next_id >= s.next_id,
    decreases calls.len(),
{
    if calls.len() > 0 {
        let before = s.after(calls.drop_last());
        let call = calls.last();
        law_intakes_only_append(s, calls.drop_last());
        law_failure_adds_no_row(before, call.parsed, call.submitter_id, call.window_seconds, call.now);
        law_operations_keep_wf(
            before,
            call.parsed,
            Seq::empty(),
            call.submitter_id,
            call.window_seconds,
            call.now,
        );
    }
}

/// After a submitter got a URL in at `first`, and whatever intakes followed,
/// its next intake of a text with an origin under a window of `window_seconds`, at a
/// time less than `window_seconds` after `first`, fails with `RateLimited`:
/// the seconds left are more than 0 and no more than the window, and the
/// store gains no row.
pub proof fn law_rate_limited_within_window(
    s: StoreState,
    accepted: Intake,
    between: Seq<Intake>,
    origin: Seq<char>,
    window_seconds: u64,
    now: u64,
)
    requires
        s.wf(),
        s.take(accepted).result is Ok,
        now - accepted.now < window_seconds,
        0 < window_seconds,
    ensures
        ({
            let t = s.take(accepted).state.after(between);
            let again = t.submit(Some(origin), accepted.submitter_id, window_seconds, now);
            &&& again.result matches Err(SubmitError::RateLimited(limit))
            &&& 0 < limit.wait_time <= window_seconds
            &&& again.state == t
        }),
{
    let first = s.take(accepted).state;
    let t = first.after(between);
    law_failure_adds_no_row(
        s,
        accepted.parsed,
        accepted.submitter_id,
        accepted.window_seconds,
        accepted.now,
    );
    law_operations_keep_wf(
        s,
        accepted.parsed,
        Seq::empty(),
        accepted.submitter_id,
        accepted.window_seconds,
        accepted.now,
    );
    let n = s.rows.len() as int;
    assert(first.rows[n].submitter_id == accepted.submitter_id);
    assert(first.rows[n].submitted_at == accepted.now);
    lemma_latest(first.rows, accepted.submitter_id);
    law_intakes_only_append(first, between);
    lemma_latest_grows(first.rows, t.rows, accepted.submitter_id);
    assert(t.provisioned);
}

/// An origin that is pending stays pending through every intake.
pub proof fn law_pending_stays_pending(s: StoreState, calls: Seq<Intake>, origin: Seq<char>)
    requires
        s.wf(),
        s.holds(origin),
    ensures
        s.after(calls).holds(origin),
{
    law_intakes_only_append(s, calls);
    let k = choose|i: int| 0 <= i < s.rows.len() && (#[trigger] s.rows[i]).origin == origin;
    assert(s.after(calls).rows[k].origin == origin);
}

/// Once an origin has been queued, and whatever intakes follow, an intake of
/// the same origin that the limiter lets through fails with `DuplicateUrl`,
/// whoever sends it and whenever, and the store stays as it was.
pub proof fn law_same_origin_refused(
    s: StoreState,
    accepted: Intake,
    between: Seq<Intake>,
    submitter_id: u32,
    window_seconds: u64,
    now: u64,
)
    requires
        s.wf(),
        s.take(accepted).result is Ok,
        s.take(accepted).state.after(between).check(submitter_id, window_seconds, now) is Ok,
    ensures
        ({
            let t = s.take(accepted).state.after(between);
            let again = t.submit(accepted.parsed, submitter_id, window_seconds, now);
            &&& again.result == Err::<Seq<char>, SubmitError>(SubmitError::DuplicateUrl)
            &&& again.state == t
        }),
{
    let first = s.take(accepted).state;
    let t = first.after(between);
    law_failure_adds_no_row(
        s,
        accepted.parsed,
        accepted.submitter_id,
        accepted.window_seconds,
        accepted.now,
    );
    law_operations_keep_wf(
        s,
        accepted.parsed,
        Seq::empty(),
        accepted.submitter_id,
        accepted.window_seconds,
        accepted.now,
    );
    let n = s.rows.len() as int;
    assert(first.rows[n].origin == accepted.parsed->0);
    assert(first.holds(accepted.parsed->0));
    law_pending_stays_pending(first, between, accepted.parsed->0);
    law_intakes_only_append(first, between);
    assert(t.provisioned);
}

/// Handing over an empty queue answers no origin and leaves it empty.
pub proof fn law_drain_of_empty(s: StoreState)
    requires
        s.rows.len() == 0,
    ensures
        s.drain().result == Seq::<Seq<char>>::empty(),
        s.drain().state.rows.len() == 0,
        s.drain().state == s.provision(),
{
    assert(s.drain().result =~= Seq::<Seq<char>>::empty());
    assert(s.drain().state.rows =~= s.provision().rows);
}

/// A hand-over answers one origin for each pending row, in the rows' order,
/// and nothing is pending afterwards.
pub proof fn law_drain_takes_all(s: StoreState)
    ensures
        s.drain().result.len() == s.rows.len(),
        forall|i: int| 0 <= i < s.rows.len() ==> s.drain().result[i] == s.rows[i].origin,
        s.drain().state.rows.len() == 0,
        s.drain().state.next_id == s.next_id,
        forall|origin: Seq<char>| !s.drain().state.holds(origin),
{
}

/// Of two hand-overs with nothing in between, the second answers nothing:
/// what the first one took is delivered once.
pub proof fn law_second_drain_is_empty(s: StoreState)
    ensures
        s.drain().state.drain().result.len() == 0,
        s.drain().state.drain().state == s.drain().state,
{
    assert(s.drain().state.drain().state.rows =~= s.drain().state.rows);
}

/// No row that a hand-over took comes back: whatever intakes follow it, every
/// row that is pending then has an id that none of the rows taken had.
pub proof fn law_drained_rows_never_return(s: StoreState, calls: Seq<Intake>)
    requires
        s.wf(),
    ensures
        forall|i: int, j: int|
            0 <= i < s.rows.len() && 0 <= j < s.drain().state.after(calls).rows.len() ==> (
            #[trigger] s.rows[i]).id != (#[trigger] s.drain().state.after(calls).rows[j]).id,
{
    law_intakes_only_append(s.drain().state, calls);
}

/// Rows stay in the order of their timestamps as long as no intake happens
/// at a time before the newest row's.
pub proof fn law_time_order_kept(
    s: StoreState,
    parsed: Option<Seq<char>>,
    submitter_id: u32,
    window_seconds: u64,
    now: u64,
)
    requires
        s.wf(),
        time_ordered(s.rows),
        s.rows.len() > 0 ==> s.rows.last().submitted_at <= now,
    ensures
        time_ordered(s.submit(parsed, submitter_id, window_seconds, now).state.rows),
{
    law_failure_adds_no_row(s, parsed, submitter_id, window_seconds, now);
    let t = s.submit(parsed, submitter_id, window_seconds, now).state;
    assert forall|i: int, j: int| 0 <= i < j < t.rows.len() implies (#[trigger] t.rows[i]).submitted_at
        <= (#[trigger] t.rows[j]).submitted_at by {
        if j < s.rows.len() {
            assert(t.rows[i] == s.rows[i] && t.rows[j] == s.rows[j]);
        } else {
            assert(t.rows[i] == s.rows[i]);
            assert(s.rows[i].submitted_at <= s.rows.last().submitted_at);
        }
    }
}

} // verus!
