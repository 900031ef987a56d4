use vstd::prelude::*;
use crate::error::SubmitError;
use crate::limiter::verdict;

verus! {

/// The id of the first row that a store ever takes.
pub const FIRST_ID: u64 = 1;

/// One pending submission, as contracts see it.
pub struct Row {
    pub id: u64,
    pub origin: Seq<char>,
    pub submitter_id: u32,
    pub submitted_at: u64,
}

/// The store as contracts see it: whether its table exists, the pending rows
/// from oldest to newest, and the id that the next row gets.
#[verifier::ext_equal]
pub struct StoreState {
    pub provisioned: bool,
    pub rows: Seq<Row>,
    pub next_id: u64,
}

/// What an operation leaves behind and what it answers.
pub struct Outcome<T> {
    pub state: StoreState,
    pub result: T,
}

/// The latest `submitted_at` among the rows of one submitter.
pub open spec fn latest(rows: Seq<Row>, submitter_id: u32) -> Option<u64>
    decreases rows.len(),
{
    if rows.len() == 0 {
        None
    } else {
        let earlier = latest(rows.drop_last(), submitter_id);
        let row = rows.last();
        if row.submitter_id != submitter_id {
            earlier
        } else if earlier is Some && earlier->0 > row.submitted_at {
            earlier
        } else {
            Some(row.submitted_at)
        }
    }
}

/// Rows come in the order of their timestamps.
pub open spec fn time_ordered(rows: Seq<Row>) -> bool {
    forall|i: int, j: int|
        0 <= i < j < rows.len() ==> (#[trigger] rows[i]).submitted_at <= (
        #[trigger] rows[j]).submitted_at
}

impl StoreState {
    /// A store that nothing has touched yet.
    pub open spec fn absent() -> StoreState {
        StoreState { provisioned: false, rows: Seq::empty(), next_id: FIRST_ID }
    }

    /// A store whose table is in place, with rows and a next id that were
    /// kept elsewhere.
    pub open spec fn kept(rows: Seq<Row>, next_id: u64) -> StoreState {
        StoreState { provisioned: true, rows, next_id }
    }

    /// No row without a table, ids ascending and below `next_id`, no origin twice.
    pub open spec fn wf(self) -> bool {
        &&& self.provisioned || self.rows.len() == 0
        &&& forall|i: int| 0 <= i < self.rows.len() ==> (#[trigger] self.rows[i]).id < self.next_id
        &&& forall|i: int, j: int|
            0 <= i < j < self.rows.len() ==> (#[trigger] self.rows[i]).id < (
            #[trigger] self.rows[j]).id
        &&& forall|i: int, j: int|
            0 <= i < j < self.rows.len() ==> (#[trigger] self.rows[i]).origin != (
            #[trigger] self.rows[j]).origin
    }

    /// The same store with its table in place.
    pub open spec fn provision(self) -> StoreState {
        StoreState { provisioned: true, rows: self.rows, next_id: self.next_id }
    }

    /// Some pending row has this origin.
    pub open spec fn holds(self, origin: Seq<char>) -> bool {
        exists|i: int| 0 <= i < self.rows.len() && (#[trigger] self.rows[i]).origin == origin
    }

    /// The pending origins, oldest first.
    pub open spec fn origins(self) -> Seq<Seq<char>> {
        Seq::new(self.rows.len(), |i: int| self.rows[i].origin)
    }

    /// When this submitter last got a row in, if it has one pending.
    pub open spec fn last_submitted_at(self, submitter_id: u32) -> Option<u64> {
        latest(self.rows, submitter_id)
    }

    /// No id is left to give.
    pub open spec fn exhausted(self) -> bool {
        self.next_id == u64::MAX
    }

    /// Taking one row: refused for an origin that is pending, and when no id
    /// is left; else the row goes to the end under the next id.
    pub open spec fn insert(self, origin: Seq<char>, submitter_id: u32, now: u64) -> Outcome<
        Result<u64, SubmitError>,
    > {
        if self.holds(origin) {
            Outcome { state: self.provision(), result: Err(SubmitError::DuplicateUrl) }
        } else if self.exhausted() {
            Outcome { state: self.provision(), result: Err(SubmitError::StorageError) }
        } else {
            Outcome {
                state: StoreState {
                    provisioned: true,
                    rows: self.rows.push(
                        Row { id: self.next_id, origin, submitter_id, submitted_at: now },
                    ),
                    next_id: (self.next_id + 1) as u64,
                },
                result: Ok(self.next_id),
            }
        }
    }

    /// The store after every row has left it.
    pub open spec fn clear(self) -> StoreState {
        StoreState { provisioned: true, rows: Seq::empty(), next_id: self.next_id }
    }

    /// Handing the queue over: every pending origin, oldest first, and an
    /// empty store.
    pub open spec fn drain(self) -> Outcome<Seq<Seq<char>>> {
        Outcome { state: self.clear(), result: self.origins() }
    }

    /// The limiter's verdict on this submitter at `now`.
    pub open spec fn check(self, submitter_id: u32, window_seconds: u64, now: u64) -> Result<
        (),
        SubmitError,
    > {
        verdict(self.last_submitted_at(submitter_id), window_seconds, now)
    }

    /// One intake: `parsed` is the origin of the submitted text, `None` where
    /// the text holds no origin. The text is judged first, then the
    /// submitter's rate, then the origin.
    pub open spec fn submit(
        self,
        parsed: Option<Seq<char>>,
        submitter_id: u32,
        window_seconds: u64,
        now: u64,
    ) -> Outcome<Result<Seq<char>, SubmitError>> {
        match parsed {
            None => Outcome { state: self, result: Err(SubmitError::InvalidUrl) },
            Some(origin) => match self.check(submitter_id, window_seconds, now) {
                Err(e) => Outcome { state: self.provision(), result: Err(e) },
                Ok(()) => {
                    let taken = self.insert(origin, submitter_id, now);
                    Outcome {
                        state: taken.state,
                        result: match taken.result {
                            Ok(_) => Ok(origin),
                            Err(e) => Err(e),
                        },
                    }
                },
            },
        }
    }
}

/// `latest` is `None` exactly when the submitter has no row; else it is the
/// timestamp of one of its rows, and none of its rows is later.
pub proof fn lemma_latest(rows: Seq<Row>, submitter_id: u32)
    ensures
        latest(rows, submitter_id) is None <==> forall|i: int|
            0 <= i < rows.len() ==> (#[trigger] rows[i]).submitter_id != submitter_id,
        latest(rows, submitter_id) matches Some(t) ==> {
            &&& exists|i: int|
                0 <= i < rows.len() && (#[trigger] rows[i]).submitter_id == submitter_id
                    && rows[i].submitted_at == t
            &&& forall|i: int|
                0 <= i < rows.len() && (#[trigger] rows[i]).submitter_id == submitter_id
                    ==> rows[i].submitted_at <= t
        },
    decreases rows.len(),
{
    if rows.len() > 0 {
        let front = rows.drop_last();
        lemma_latest(front, submitter_id);
        assert(forall|i: int| 0 <= i < front.len() ==> front[i] == rows[i]);
        let n = rows.len() - 1;
        assert(rows[n] == rows.last());
        match latest(rows, submitter_id) {
            None => {
                assert forall|i: int| 0 <= i < rows.len() implies (
                #[trigger] rows[i]).submitter_id != submitter_id by {
                    if i < n {
                        assert(front[i] == rows[i]);
                    }
                }
            },
            Some(t) => {
                if latest(front, submitter_id) == Some(t) {
                    let k = choose|i: int|
                        0 <= i < front.len() && (#[trigger] front[i]).submitter_id == submitter_id
                            && front[i].submitted_at == t;
                    assert(rows[k] == front[k]);
                } else {
                    assert(rows[n].submitter_id == submitter_id && rows[n].submitted_at == t);
                }
                assert forall|i: int|
                    0 <= i < rows.len() && (#[trigger] rows[i]).submitter_id
                        == submitter_id implies rows[i].submitted_at <= t by {
                    if i < n {
                        assert(front[i] == rows[i]);
                    }
                }
            },
        }
        if forall|i: int|
            0 <= i < rows.len() ==> (#[trigger] rows[i]).submitter_id != submitter_id {
            assert forall|i: int| 0 <= i < front.len() implies (
            #[trigger] front[i]).submitter_id != submitter_id by {
                assert(front[i] == rows[i]);
            }
            assert(rows[n].submitter_id != submitter_id);
        }
    }
}

} // verus!
