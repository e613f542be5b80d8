//! The hint object that records how many execution scopes a Cairo hint
//! leaves, and the leaving itself.
use vstd::prelude::*;

verus! {

/// The execution scopes of a hint run, counted: the main scope, then one
/// per scope entered and not yet left.
#[derive(Debug, Clone, Copy, PartialEq, Eq, Structural)]
pub struct ExecutionScopes {
    pub depth: usize,
}

/// Why leaving a scope failed.
#[derive(Debug, Clone, Copy, PartialEq, Eq, Structural)]
pub enum ScopeError {
    /// The main scope cannot be left.
    ExitMainScope,
}

impl ExecutionScopes {
    /// Only the main scope.
    pub fn new() -> (r: ExecutionScopes)
        ensures
            r.depth == 1,
    {
        ExecutionScopes { depth: 1 }
    }

    /// Enters a new scope.
    pub fn enter_scope(&mut self)
        requires
            old(self).depth < usize::MAX,
        ensures
            final(self).depth == old(self).depth + 1,
    {
        self.depth = self.depth + 1;
    }

    /// Leaves the current scope; the main scope cannot be left.
    pub fn exit_scope(&mut self) -> (r: Result<(), ScopeError>)
        requires
            old(self).depth >= 1,
        ensures
            old(self).depth == 1 ==> r == Err::<(), ScopeError>(ScopeError::ExitMainScope) && final(self).depth == 1,
            old(self).depth > 1 ==> r == Ok::<(), ScopeError>(()) && final(self).depth == old(self).depth - 1,
    {
        if self.depth == 1 {
            return Err(ScopeError::ExitMainScope);
        }
        self.depth = self.depth - 1;
        Ok(())
    }
}

/// Counts the calls that ask to leave the current execution scope.
#[derive(Debug, Clone)]
pub struct PyExitScope {
    num: u32,
}

impl PyExitScope {
    /// The number of scopes to leave.
    pub closed spec fn exits(&self) -> nat {
        self.num as nat
    }

    /// No scope to leave yet.
    pub fn new() -> (r: PyExitScope)
        ensures
            r.exits() == 0,
    {
        PyExitScope { num: 0 }
    }

    /// One more scope to leave.
    #[allow(non_snake_case)]
    pub fn __call__(&mut self)
        requires
            old(self).exits() < u32::MAX,
        ensures
            final(self).exits() == old(self).exits() + 1,
    {
        self.num += 1
    }

    /// Leaves the recorded number of scopes, one after the other: all of
    /// them when that many were entered; otherwise every scope down to the
    /// main one, and then the error of leaving the main scope.
    pub fn update_scopes(&self, scopes: &mut ExecutionScopes) -> (r: Result<(), ScopeError>)
        requires
            old(scopes).depth >= 1,
        ensures
            self.exits() < old(scopes).depth ==> r == Ok::<(), ScopeError>(())
                && final(scopes).depth == old(scopes).depth - self.exits(),
            self.exits() >= old(scopes).depth ==> r == Err::<(), ScopeError>(ScopeError::ExitMainScope)
                && final(scopes).depth == 1,
    {
        let mut i: u32 = 0;
        while i < self.num
            invariant
                i <= self.num,
                i < old(scopes).depth,
                scopes.depth == old(scopes).depth - i,
            decreases self.num - i,
        {
            let left = scopes.exit_scope();
            if left.is_err() {
                return left;
            }
            i += 1;
        }
        Ok(())
    }

    /// The number of scopes to leave.
    pub fn num_exits(&self) -> (r: u32)
        ensures
            r == self.exits(),
    {
        self.num
    }
}

impl Default for PyExitScope {
    /// No scope to leave yet.
    fn default() -> (r: Self)
        ensures
            r.exits() == 0,
    {
        Self::new()
    }
}

} // verus!
