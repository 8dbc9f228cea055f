//! Single-flight guard: at most one generation runs at a time.

use vstd::prelude::*;

verus! {

/// Whether a generation is in flight.
#[derive(Clone, Copy, Debug, PartialEq, Eq, Structural)]
pub enum GenerationState {
    Idle,
    Running,
}

/// Admits a generation only while none is running.
#[derive(Debug)]
pub struct GenerationGuard {
    state: GenerationState,
}

impl View for GenerationGuard {
    type V = GenerationState;

    closed spec fn view(&self) -> GenerationState {
        self.state
    }
}

impl GenerationGuard {
    /// A guard with no generation in flight.
    pub fn new() -> (guard: GenerationGuard)
        ensures
            guard@ == GenerationState::Idle,
    {
        GenerationGuard { state: GenerationState::Idle }
    }

    /// The current state.
    pub fn state(&self) -> (s: GenerationState)
        ensures
            s == self@,
    {
        self.state
    }

    /// Whether a generation is in flight.
    pub fn is_running(&self) -> (r: bool)
        ensures
            r <==> self@ == GenerationState::Running,
    {
        match self.state {
            GenerationState::Running => true,
            GenerationState::Idle => false,
        }
    }

    /// A request to start a generation. It is admitted, and the guard is
    /// running from then on, exactly when the guard was idle; a request that
    /// meets a running guard is rejected and changes nothing.
    pub fn try_begin(&mut self) -> (admitted: bool)
        ensures
            admitted <==> old(self)@ == GenerationState::Idle,
            final(self)@ == GenerationState::Running,
    {
        match self.state {
            GenerationState::Idle => {
                self.state = GenerationState::Running;
                true
            },
            GenerationState::Running => false,
        }
    }

    /// The generation in flight has ended, whether it completed or was
    /// abandoned: the guard is idle again. Tells whether one was in flight.
    pub fn end(&mut self) -> (was_running: bool)
        ensures
            was_running <==> old(self)@ == GenerationState::Running,
            final(self)@ == GenerationState::Idle,
    {
        let was_running: bool = self.is_running();
        self.state = GenerationState::Idle;
        was_running
    }
}

} // verus!
