use vstd::prelude::*;

verus! {

/// How long, in milliseconds, a completed fetch stays fresh.
pub const STALE_TIME: u64 = 100;

/// The outcome of a fetch, or a fetch still under way.
pub enum QueryResult<T, E> {
    /// A successful fetch.
    Value(T),
    /// A failed fetch.
    Error(E),
    /// A fetch in flight, with the last successful value if there was one.
    Loading(Option<T>),
}

/// The value a result carries forward into a new loading state.
pub open spec fn previous_of<T, E>(r: QueryResult<T, E>) -> Option<T> {
    match r {
        QueryResult::Value(v) => Some(v),
        QueryResult::Error(_) => None,
        QueryResult::Loading(v) => v,
    }
}

impl<T, E> QueryResult<T, E> {
    pub fn is_ok(&self) -> (r: bool)
        ensures
            r == (*self is Value),
    {
        matches!(self, QueryResult::Value(..))
    }

    pub fn is_err(&self) -> (r: bool)
        ensures
            r == (*self is Error),
    {
        matches!(self, QueryResult::Error(..))
    }

    pub fn is_loading(&self) -> (r: bool)
        ensures
            r == (*self is Loading),
    {
        matches!(self, QueryResult::Loading(..))
    }

    /// The initial state of every cache record: loading, with nothing cached.
    pub fn loading_empty() -> (r: Self)
        ensures
            r == QueryResult::<T, E>::Loading(None),
    {
        QueryResult::Loading(None)
    }

    /// Turns a `Result` into the matching settled state.
    pub fn from_result(value: Result<T, E>) -> (r: Self)
        ensures
            value is Ok ==> r == QueryResult::<T, E>::Value(value->Ok_0),
            value is Err ==> r == QueryResult::<T, E>::Error(value->Err_0),
    {
        match value {
            Ok(v) => QueryResult::Value(v),
            Err(e) => QueryResult::Error(e),
        }
    }

    /// The last successful value this result carries, if any.
    pub fn into_previous(self) -> (r: Option<T>)
        ensures
            r == previous_of(self),
    {
        match self {
            QueryResult::Value(v) => Some(v),
            QueryResult::Error(_) => None,
            QueryResult::Loading(v) => v,
        }
    }
}

/// A cached query result with the time it was last written.
pub struct CachedResult<T, E> {
    pub value: QueryResult<T, E>,
    /// Milliseconds on the caller's clock at the last write, if any.
    pub instant: Option<u64>,
    pub has_been_queried: bool,
}

/// Fresh: written at some time `t` and `now` is before `t + STALE_TIME`.
pub open spec fn fresh_at(instant: Option<u64>, now: u64) -> bool {
    match instant {
        Some(t) => (now as int) < t + STALE_TIME,
        None => false,
    }
}

impl<T, E> CachedResult<T, E> {
    /// The state of a record that has never been fetched.
    pub fn new() -> (r: Self)
        ensures
            r.value == QueryResult::<T, E>::Loading(None),
            r.instant is None,
            !r.has_been_queried,
    {
        CachedResult { value: QueryResult::Loading(None), instant: None, has_been_queried: false }
    }

    /// The result of a completed fetch, written at `now`.
    pub fn settled(value: QueryResult<T, E>, now: u64) -> (r: Self)
        ensures
            r.value == value,
            r.instant == Some(now),
            r.has_been_queried,
    {
        CachedResult { value, instant: Some(now), has_been_queried: true }
    }

    pub fn value(&self) -> (r: &QueryResult<T, E>)
        ensures
            *r == self.value,
    {
        &self.value
    }

    /// Whether the value was written less than `STALE_TIME` ms before `now`.
    pub fn is_fresh(&self, now: u64) -> (r: bool)
        ensures
            r == fresh_at(self.instant, now),
    {
        match self.instant {
            Some(t) => now < t || now - t < STALE_TIME,
            None => false,
        }
    }

    pub fn has_been_cached(&self) -> (r: bool)
        ensures
            r == (self.instant is Some),
    {
        self.instant.is_some()
    }

    pub fn has_been_queried(&self) -> (r: bool)
        ensures
            r == self.has_been_queried,
    {
        self.has_been_queried
    }

    /// Moves to `Loading`, keeping the last successful value, stamped at `now`.
    pub fn mark_loading(&mut self, now: u64)
        ensures
            final(self).value == QueryResult::<T, E>::Loading(previous_of(old(self).value)),
            final(self).instant == Some(now),
            final(self).has_been_queried,
    {
        let mut old_value = QueryResult::Loading(None);
        std::mem::swap(&mut old_value, &mut self.value);
        self.value = QueryResult::Loading(old_value.into_previous());
        self.instant = Some(now);
        self.has_been_queried = true;
    }
}

/// A value stamped at `t` is fresh for every `now` in `[t, t + STALE_TIME)`.
pub proof fn lemma_fresh_after_write(t: u64, now: u64)
    requires
        t <= now,
        now < t + STALE_TIME,
    ensures
        fresh_at(Some(t), now),
{
}

/// Once stale, a value stays stale as time passes, until it is written again.
pub proof fn lemma_stale_stays_stale(instant: Option<u64>, now1: u64, now2: u64)
    requires
        now1 <= now2,
        !fresh_at(instant, now1),
    ensures
        !fresh_at(instant, now2),
{
}

/// A value stamped at `t` is stale from `t + STALE_TIME` on.
pub proof fn lemma_stale_after_threshold(t: u64, now: u64)
    requires
        now >= t + STALE_TIME,
    ensures
        !fresh_at(Some(t), now),
{
}

} // verus!
