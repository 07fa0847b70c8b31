//! Systems: units of work that a schedule stage runs against the map context.
use vstd::prelude::*;

verus! {

/// A system that can be added to a stage of a [`Schedule`](crate::schedule::Schedule).
pub trait System<C>: Sized {
    /// What one run of the system may do: starting as `before` on the context
    /// `context_before`, it ends as `after`, having left the context as `context_after`. Each
    /// implementor says what its runs do; one that does not promises nothing of them.
    open spec fn ran(before: Self, context_before: C, after: Self, context_after: C) -> bool {
        true
    }

    /// Returns the system's name.
    fn name(&self) -> String;

    fn run(&mut self, context: &mut C)
        ensures
            Self::ran(*old(self), *old(context), *final(self), *final(context)),
    ;
}

/// Holds one system.
pub struct SystemContainer<S> {
    system: S,
}

impl<S> SystemContainer<S> {
    pub closed spec fn system(&self) -> S {
        self.system
    }

    pub fn new(system: S) -> (r: Self)
        ensures
            r.system() == system,
    {
        SystemContainer { system }
    }

    /// Runs the contained system once.
    pub fn run<C>(&mut self, context: &mut C)
        where S: System<C>,
        ensures
            S::ran(old(self).system(), *old(context), final(self).system(), *final(context)),
    {
        self.system.run(context);
    }
}

} // verus!
