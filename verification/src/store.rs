use vstd::prelude::*;
use crate::error::SubmitError;
use crate::limiter::rate_limit;
use crate::model::{lemma_latest, Row, StoreState, FIRST_ID};
use crate::origin::{normalize, origin_of, text_of};

verus! {

/// One pending submission.
#[derive(Debug, Clone, PartialEq, Eq)]
pub struct Submission {
    /// Given by the store, ascending, never given twice.
    pub id: u64,
    /// The canonical origin of the submitted URL.
    pub origin: String,
    /// Who submitted it.
    pub submitter_id: u32,
    /// Seconds since the epoch at which the store took it.
    pub submitted_at: u64,
}

impl View for Submission {
    type V = Row;

    open spec fn view(&self) -> Row {
        Row {
            id: self.id,
            origin: self.origin@,
            submitter_id: self.submitter_id,
            submitted_at: self.submitted_at,
        }
    }
}

/// The rows that a sequence of submissions stands for.
pub open spec fn rows_of(subs: Seq<Submission>) -> Seq<Row> {
    Seq::new(subs.len(), |i: int| subs[i]@)
}

/// What contracts see of an origin that may be missing.
pub open spec fn seen(parsed: Option<String>) -> Option<Seq<char>> {
    match parsed {
        Some(origin) => Some(origin@),
        None => None,
    }
}

/// What contracts see of a list of texts.
pub open spec fn texts_of(list: Seq<String>) -> Seq<Seq<char>> {
    Seq::new(list.len(), |i: int| list[i]@)
}

/// The pending submissions, oldest first, behind a table that is made on
/// first use.
pub struct SubmissionStore {
    provisioned: bool,
    rows: Vec<Submission>,
    next_id: u64,
}

impl View for SubmissionStore {
    type V = StoreState;

    closed spec fn view(&self) -> StoreState {
        StoreState {
            provisioned: self.provisioned,
            rows: rows_of(self.rows@),
            next_id: self.next_id,
        }
    }
}

impl SubmissionStore {
    #[verifier::type_invariant]
    spec fn inv(&self) -> bool {
        self@.wf()
    }

    /// A store that nothing has touched yet.
    pub fn new() -> (store: SubmissionStore)
        ensures
            store@ == StoreState::absent(),
            store@.wf(),
    {
        SubmissionStore { provisioned: false, rows: Vec::new(), next_id: FIRST_ID }
    }

    /// Brings a store back from rows that were kept elsewhere, oldest first,
    /// with the id that its next row is to get. Rows that no store could
    /// have held are refused with `StorageError`: an origin that stands
    /// twice, ids that do not ascend, an id that is not below `next_id`.
    pub fn restore(rows: Vec<Submission>, next_id: u64) -> (r: Result<SubmissionStore, SubmitError>)
        ensures
            match r {
                Ok(store) => store@ == StoreState::kept(rows_of(rows@), next_id) && store@.wf(),
                Err(e) => e == SubmitError::StorageError && !StoreState::kept(
                    rows_of(rows@),
                    next_id,
                ).wf(),
            },
    {
        let ghost kept = StoreState::kept(rows_of(rows@), next_id);
        let mut i: usize = 0;
        while i < rows.len()
            invariant
                i <= rows.len(),
                kept == StoreState::kept(rows_of(rows@), next_id),
                forall|k: int| 0 <= k < i ==> (#[trigger] kept.rows[k]).id < next_id,
                forall|a: int, b: int|
                    0 <= a < b < i ==> (#[trigger] kept.rows[a]).id < (#[trigger] kept.rows[b]).id,
                forall|a: int, b: int|
                    0 <= a < b < i ==> (#[trigger] kept.rows[a]).origin != (
                    #[trigger] kept.rows[b]).origin,
            decreases rows.len() - i,
        {
            if rows[i].id >= next_id {
                assert(!(kept.rows[i as int].id < next_id));
                return Err(SubmitError::StorageError);
            }
            if i > 0 && rows[i - 1].id >= rows[i].id {
                assert(!(kept.rows[i - 1].id < kept.rows[i as int].id));
                return Err(SubmitError::StorageError);
            }
            let mut j: usize = 0;
            while j < i
                invariant
                    j <= i < rows.len(),
                    kept == StoreState::kept(rows_of(rows@), next_id),
                    forall|a: int|
                        0 <= a < j ==> (#[trigger] kept.rows[a]).origin != kept.rows[i as int].origin,
                decreases i - j,
            {
                if rows[j].origin == rows[i].origin {
                    assert(kept.rows[j as int].origin == kept.rows[i as int].origin);
                    return Err(SubmitError::StorageError);
                }
                j += 1;
            }
            i += 1;
        }
        Ok(SubmissionStore { provisioned: true, rows, next_id })
    }

    /// Puts the table in place; a second call changes nothing.
    pub fn ensure_schema(&mut self)
        ensures
            final(self)@ == old(self)@.provision(),
            final(self)@.wf(),
    {
        proof {
            use_type_invariant(&*self);
        }
        self.provisioned = true;
    }

    /// Whether the table is in place.
    pub fn is_provisioned(&self) -> (b: bool)
        ensures
            b == self@.provisioned,
            self@.wf(),
    {
        proof {
            use_type_invariant(self);
        }
        self.provisioned
    }

    /// The number of pending rows.
    pub fn len(&self) -> (n: usize)
        ensures
            n == self@.rows.len(),
            self@.wf(),
    {
        proof {
            use_type_invariant(self);
        }
        self.rows.len()
    }

    /// The id that the next row gets.
    pub fn next_id(&self) -> (id: u64)
        ensures
            id == self@.next_id,
            self@.wf(),
    {
        proof {
            use_type_invariant(self);
        }
        self.next_id
    }

    /// Whether some pending row has this origin.
    pub fn holds(&self, origin: &String) -> (b: bool)
        ensures
            b == self@.holds(origin@),
            self@.wf(),
    {
        proof {
            use_type_invariant(self);
        }
        let mut i: usize = 0;
        while i < self.rows.len()
            invariant
                self@.wf(),
                i <= self.rows.len(),
                forall|k: int| 0 <= k < i ==> (#[trigger] self@.rows[k]).origin != origin@,
            decreases self.rows.len() - i,
        {
            if self.rows[i].origin == *origin {
                assert(self@.rows[i as int].origin == origin@);
                return true;
            }
            i += 1;
        }
        false
    }

    /// When this submitter last got a row in, if it has one pending.
    pub fn last_submitted_at(&self, submitter_id: u32) -> (last: Option<u64>)
        ensures
            last == self@.last_submitted_at(submitter_id),
            self@.wf(),
    {
        proof {
            use_type_invariant(self);
        }
        let mut last: Option<u64> = None;
        let mut i: usize = 0;
        while i < self.rows.len()
            invariant
                i <= self.rows.len(),
                last == crate::model::latest(self@.rows.take(i as int), submitter_id),
            decreases self.rows.len() - i,
        {
            let row = &self.rows[i];
            proof {
                let upto = self@.rows.take(i as int + 1);
                assert(upto.drop_last() == self@.rows.take(i as int));
                assert(upto.last() == row@);
            }
            if row.submitter_id == submitter_id {
                let later = match last {
                    Some(t) => t > row.submitted_at,
                    None => false,
                };
                if !later {
                    last = Some(row.submitted_at);
                }
            }
            i += 1;
        }
        assert(self@.rows.take(i as int) == self@.rows);
        last
    }

    /// The limiter's verdict on this submitter at `now`.
    pub fn check(&self, submitter_id: u32, window_seconds: u64, now: u64) -> (r: Result<
        (),
        SubmitError,
    >)
        ensures
            r == self@.check(submitter_id, window_seconds, now),
            self@.wf(),
    {
        rate_limit(self.last_submitted_at(submitter_id), window_seconds, now)
    }

    /// Takes one row and answers its id. An origin that is pending is refused
    /// with `DuplicateUrl`; with no id left, the row is refused with
    /// `StorageError`. The table is in place afterwards either way.
    pub fn insert(&mut self, origin: String, submitter_id: u32, now: u64) -> (r: Result<
        u64,
        SubmitError,
    >)
        ensures
            final(self)@ == old(self)@.insert(origin@, submitter_id, now).state,
            r == old(self)@.insert(origin@, submitter_id, now).result,
            final(self)@.wf(),
    {
        proof {
            use_type_invariant(&*self);
        }
        self.provisioned = true;
        if self.holds(&origin) {
            return Err(SubmitError::DuplicateUrl);
        }
        if self.next_id == u64::MAX {
            return Err(SubmitError::StorageError);
        }
        let id = self.next_id;
        let row = Submission { id, origin, submitter_id, submitted_at: now };
        let ghost before = self@;
        let mut rows: Vec<Submission> = Vec::new();
        std::mem::swap(&mut rows, &mut self.rows);
        rows.push(row);
        proof {
            assert(rows_of(rows@) =~= before.rows.push(row@));
        }
        self.next_id = id + 1;
        self.rows = rows;
        Ok(id)
    }

    /// Every pending row, oldest first. The store stays as it is.
    pub fn list_all(&self) -> (all: Vec<Submission>)
        ensures
            rows_of(all@) == self@.rows,
            self@.wf(),
    {
        proof {
            use_type_invariant(self);
        }
        let mut all: Vec<Submission> = Vec::new();
        let mut i: usize = 0;
        while i < self.rows.len()
            invariant
                i <= self.rows.len(),
                all@.len() == i,
                rows_of(all@) == self@.rows.take(i as int),
            decreases self.rows.len() - i,
        {
            let row = &self.rows[i];
            let copy = Submission {
                id: row.id,
                origin: row.origin.clone(),
                submitter_id: row.submitter_id,
                submitted_at: row.submitted_at,
            };
            let ghost sofar = all@;
            all.push(copy);
            proof {
                assert(copy@ == self@.rows[i as int]);
                assert forall|k: int| 0 <= k < i implies rows_of(all@)[k] == self@.rows[k] by {
                    assert(rows_of(sofar)[k] == self@.rows.take(i as int)[k]);
                }
                assert(rows_of(all@) =~= self@.rows.take(i as int + 1));
            }
            i += 1;
        }
        assert(self@.rows.take(i as int) == self@.rows);
        all
    }

    /// Removes every row. Ids that were given are not given again.
    pub fn clear_all(&mut self)
        ensures
            final(self)@ == old(self)@.clear(),
            final(self)@.wf(),
    {
        proof {
            use_type_invariant(&*self);
        }
        self.provisioned = true;
        self.rows = Vec::new();
        proof {
            assert(self@.rows =~= Seq::<Row>::empty());
        }
    }

    /// Hands the queue over: answers every pending origin, oldest first, and
    /// leaves the store empty. Both happen in this one call, on a store that
    /// nobody else can reach meanwhile.
    pub fn drain(&mut self) -> (origins: Vec<String>)
        ensures
            final(self)@ == old(self)@.drain().state,
            texts_of(origins@) == old(self)@.drain().result,
            origins@.len() == old(self)@.rows.len(),
            final(self)@.wf(),
    {
        let mut origins: Vec<String> = Vec::new();
        let mut i: usize = 0;
        while i < self.rows.len()
            invariant
                i <= self.rows.len(),
                origins@.len() == i,
                texts_of(origins@) == self@.origins().take(i as int),
            decreases self.rows.len() - i,
        {
            let origin = self.rows[i].origin.clone();
            let ghost sofar = origins@;
            origins.push(origin);
            proof {
                assert forall|k: int| 0 <= k < i implies texts_of(origins@)[k]
                    == self@.origins()[k] by {
                    assert(texts_of(sofar)[k] == self@.origins().take(i as int)[k]);
                }
                assert(texts_of(origins@) =~= self@.origins().take(i as int + 1));
            }
            i += 1;
        }
        assert(self@.origins().take(i as int) == self@.origins());
        self.clear_all();
        origins
    }

    /// One intake of an origin that has been worked out already; `None`
    /// stands for a text that holds no origin. The submitter's rate is
    /// judged before the origin is looked up.
    pub fn submit_origin(
        &mut self,
        parsed: Option<String>,
        submitter_id: u32,
        window_seconds: u64,
        now: u64,
    ) -> (r: Result<String, SubmitError>)
        ensures
            final(self)@ == old(self)@.submit(seen(parsed), submitter_id, window_seconds, now).state,
            text_of(r) == old(self)@.submit(
                seen(parsed),
                submitter_id,
                window_seconds,
                now,
            ).result,
            final(self)@.wf(),
    {
        proof {
            use_type_invariant(&*self);
        }
        let origin = match parsed {
            Some(origin) => origin,
            None => {
                return Err(SubmitError::InvalidUrl);
            },
        };
        if let Err(e) = self.check(submitter_id, window_seconds, now) {
            proof {
                use_type_invariant(&*self);
                lemma_latest(self@.rows, submitter_id);
            }
            return Err(e);
        }
        let canonical = origin.clone();
        match self.insert(origin, submitter_id, now) {
            Ok(_) => Ok(canonical),
            Err(e) => Err(e),
        }
    }

    /// One intake: the URL is reduced to its origin, the submitter's rate is
    /// judged, and the origin is queued. Answers the canonical origin.
    ///
    /// `InvalidUrl` comes for a text that holds no origin, and leaves the
    /// store untouched; `RateLimited` with the seconds left to wait where the
    /// submitter's latest pending row is younger than `window_seconds`;
    /// `DuplicateUrl` where the origin is pending; `StorageError` where no id
    /// is left. A window of 0 lets every submitter through.
    pub fn submit(&mut self, raw_url: &str, submitter_id: u32, window_seconds: u64, now: u64) -> (r:
        Result<String, SubmitError>)
        ensures
            final(self)@ == old(self)@.submit(
                origin_of(raw_url),
                submitter_id,
                window_seconds,
                now,
            ).state,
            text_of(r) == old(self)@.submit(
                origin_of(raw_url),
                submitter_id,
                window_seconds,
                now,
            ).result,
            final(self)@.wf(),
    {
        match normalize(raw_url) {
            Ok(origin) => self.submit_origin(Some(origin), submitter_id, window_seconds, now),
            Err(_) => self.submit_origin(None, submitter_id, window_seconds, now),
        }
    }
}

} // verus!
