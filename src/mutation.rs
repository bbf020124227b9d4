use vstd::prelude::*;

verus! {

/// The state of a write-style operation.
pub enum MutationResult<T, E> {
    /// The operation succeeded.
    Value(T),
    /// The operation failed.
    Error(E),
    /// The operation is running, with the last successful value if there was one.
    Loading(Option<T>),
    /// The operation has not run yet.
    Pending,
}

/// The value a mutation state carries forward into a new loading state.
pub open spec fn mutation_previous_of<T, E>(m: MutationResult<T, E>) -> Option<T> {
    match m {
        MutationResult::Value(v) => Some(v),
        MutationResult::Error(_) => None,
        MutationResult::Loading(v) => v,
        MutationResult::Pending => None,
    }
}

impl<T, E> MutationResult<T, E> {
    pub fn is_ok(&self) -> (r: bool)
        ensures
            r == (*self is Value),
    {
        matches!(self, MutationResult::Value(..))
    }

    pub fn is_err(&self) -> (r: bool)
        ensures
            r == (*self is Error),
    {
        matches!(self, MutationResult::Error(..))
    }

    pub fn is_loading(&self) -> (r: bool)
        ensures
            r == (*self is Loading),
    {
        matches!(self, MutationResult::Loading(..))
    }

    pub fn is_pending(&self) -> (r: bool)
        ensures
            r == (*self is Pending),
    {
        matches!(self, MutationResult::Pending)
    }

    /// Turns a `Result` into the matching settled state.
    pub fn from_result(value: Result<T, E>) -> (r: Self)
        ensures
            value is Ok ==> r == MutationResult::<T, E>::Value(value->Ok_0),
            value is Err ==> r == MutationResult::<T, E>::Error(value->Err_0),
    {
        match value {
            Ok(v) => MutationResult::Value(v),
            Err(e) => MutationResult::Error(e),
        }
    }

    /// The last successful value this state carries, if any.
    pub fn into_previous(self) -> (r: Option<T>)
        ensures
            r == mutation_previous_of(self),
    {
        match self {
            MutationResult::Value(v) => Some(v),
            MutationResult::Error(_) => None,
            MutationResult::Loading(v) => v,
            MutationResult::Pending => None,
        }
    }
}

/// One declared mutation: its current state and the listener it notifies.
pub struct UseMutation<T, E> {
    value: MutationResult<T, E>,
    scope_id: u64,
}

impl<T, E> UseMutation<T, E> {
    pub closed spec fn state(&self) -> MutationResult<T, E> {
        self.value
    }

    pub closed spec fn listener(&self) -> u64 {
        self.scope_id
    }

    /// A mutation that has not run, notifying `scope_id`.
    pub fn new(scope_id: u64) -> (r: Self)
        ensures
            r.state() == MutationResult::<T, E>::Pending,
            r.listener() == scope_id,
    {
        UseMutation { value: MutationResult::Pending, scope_id }
    }

    /// The current state.
    pub fn result(&self) -> (r: &MutationResult<T, E>)
        ensures
            *r == self.state(),
    {
        &self.value
    }

    pub fn scope_id(&self) -> (r: u64)
        ensures
            r == self.listener(),
    {
        self.scope_id
    }

    /// Enters `Loading` with the last successful value, before the mutation
    /// function runs. Returns the listener to notify, or `None` when silent.
    pub fn start(&mut self, silent: bool) -> (r: Option<u64>)
        ensures
            final(self).state() == MutationResult::<T, E>::Loading(mutation_previous_of(old(self).state())),
            final(self).listener() == old(self).listener(),
            silent ==> r is None,
            !silent ==> r == Some(old(self).listener()),
    {
        let mut current = MutationResult::Pending;
        std::mem::swap(&mut current, &mut self.value);
        self.value = MutationResult::Loading(current.into_previous());
        if silent {
            None
        } else {
            Some(self.scope_id)
        }
    }

    /// Stores what the mutation function returned. Returns the listener to
    /// notify, or `None` when silent.
    pub fn settle(&mut self, value: MutationResult<T, E>, silent: bool) -> (r: Option<u64>)
        ensures
            final(self).state() == value,
            final(self).listener() == old(self).listener(),
            silent ==> r is None,
            !silent ==> r == Some(old(self).listener()),
    {
        self.value = value;
        if silent {
            None
        } else {
            Some(self.scope_id)
        }
    }
}

/// A fresh mutation starts `Pending` and its first run passes through
/// `Loading(None)`; a run after one that succeeded with `v` passes through
/// `Loading(Some(v))`; a run after a failure passes through `Loading(None)`.
pub proof fn lemma_mutation_lifecycle<T, E>(v: T, e: E)
    ensures
        MutationResult::<T, E>::Loading(mutation_previous_of(MutationResult::<T, E>::Pending))
            == MutationResult::<T, E>::Loading(None),
        MutationResult::<T, E>::Loading(mutation_previous_of(MutationResult::<T, E>::Value(v)))
            == MutationResult::<T, E>::Loading(Some(v)),
        MutationResult::<T, E>::Loading(mutation_previous_of(MutationResult::<T, E>::Error(e)))
            == MutationResult::<T, E>::Loading(None),
{
}

} // verus!
