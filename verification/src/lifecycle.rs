//! The life of an emulator instance: which calls it takes in which state.

use vstd::prelude::*;

verus! {

/// The states of an instance.
#[derive(Clone, Copy, Debug, PartialEq, Eq, Structural)]
pub enum Lifecycle {
    /// Nothing is mapped yet.
    Empty,
    /// Memory is mapped or written; nothing has run.
    Mapped,
    /// A run is under way.
    Running,
    /// A run has ended; registers and memory are as it left them.
    Halted,
}

/// The calls that an instance is asked to take.
#[derive(Clone, Copy, Debug, PartialEq, Eq, Structural)]
pub enum Call {
    /// Mapping pages.
    MapPages,
    /// Writing memory.
    WriteMemory,
    /// Installing a hook.
    InstallHook,
    /// Removing a hook.
    RemoveHook,
    /// Starting a run.
    Start,
    /// The end of a run: the bound was reached, the time or the instruction
    /// limit ran out, or a fault occurred.
    Stop,
}

impl Lifecycle {
    /// The state after a call, or `None` where the state does not take the
    /// call.
    ///
    /// Mapping and writing turn an empty instance into a mapped one and
    /// leave a mapped or halted one as it is. A run starts from a mapped or
    /// a halted instance and ends in a halted one. Hooks are installed and
    /// removed in every state but during a run, and change no state. During
    /// a run nothing but its end is taken.
    pub open spec fn after(self, call: Call) -> Option<Lifecycle> {
        match (self, call) {
            (Lifecycle::Running, Call::Stop) => Some(Lifecycle::Halted),
            (Lifecycle::Running, _) => None,
            (_, Call::Stop) => None,
            (Lifecycle::Empty, Call::MapPages) | (Lifecycle::Empty, Call::WriteMemory) => Some(
                Lifecycle::Mapped,
            ),
            (state, Call::MapPages) | (state, Call::WriteMemory) => Some(state),
            (state, Call::InstallHook) | (state, Call::RemoveHook) => Some(state),
            (Lifecycle::Empty, Call::Start) => None,
            (_, Call::Start) => Some(Lifecycle::Running),
        }
    }

    /// The state of a fresh instance.
    pub fn new() -> (r: Lifecycle)
        ensures
            r == Lifecycle::Empty,
    {
        Lifecycle::Empty
    }

    /// The state after a call, or `None` where the state does not take the
    /// call.
    pub fn next(self, call: Call) -> (r: Option<Lifecycle>)
        ensures
            r == self.after(call),
    {
        match self {
            Lifecycle::Running => match call {
                Call::Stop => Some(Lifecycle::Halted),
                _ => None,
            },
            Lifecycle::Empty => match call {
                Call::MapPages | Call::WriteMemory => Some(Lifecycle::Mapped),
                Call::InstallHook | Call::RemoveHook => Some(Lifecycle::Empty),
                Call::Start | Call::Stop => None,
            },
            state => match call {
                Call::MapPages | Call::WriteMemory | Call::InstallHook | Call::RemoveHook => Some(state),
                Call::Start => Some(Lifecycle::Running),
                Call::Stop => None,
            },
        }
    }

    /// Whether a hook may be installed in this state: in every state but
    /// during a run.
    pub fn takes_hooks(self) -> (r: bool)
        ensures
            r == self.after(Call::InstallHook).is_some(),
            r == (self != Lifecycle::Running),
    {
        match self {
            Lifecycle::Running => false,
            _ => true,
        }
    }
}

/// The state after a list of calls taken in order, or `None` as soon as one
/// of them is not taken.
pub open spec fn after_all(state: Lifecycle, calls: Seq<Call>) -> Option<Lifecycle>
    decreases calls.len(),
{
    if calls.len() == 0 {
        Some(state)
    } else {
        match after_all(state, calls.drop_last()) {
            Some(s) => s.after(calls.last()),
            None => None,
        }
    }
}

/// A halted instance is not at its end: it takes another run, and where a
/// run ends the instance is halted again.
pub proof fn lemma_halted_resumes()
    ensures
        Lifecycle::Halted.after(Call::Start) == Some(Lifecycle::Running),
        Lifecycle::Running.after(Call::Stop) == Some(Lifecycle::Halted),
{
}

/// During a run no call is taken but the end of the run, and a run is under
/// way only after a start.
pub proof fn lemma_running(state: Lifecycle, call: Call)
    ensures
        state == Lifecycle::Running && call != Call::Stop ==> state.after(call).is_none(),
        state.after(call) == Some(Lifecycle::Running) ==> call == Call::Start && (state
            == Lifecycle::Mapped || state == Lifecycle::Halted),
{
}

/// No list of calls brings an instance back to the empty state once it has
/// left it, and an instance that nothing was mapped into never runs.
pub proof fn lemma_empty_is_left_for_good(state: Lifecycle, calls: Seq<Call>)
    requires
        state != Lifecycle::Empty,
    ensures
        after_all(state, calls) != Some(Lifecycle::Empty),
    decreases calls.len(),
{
    if calls.len() > 0 {
        lemma_empty_is_left_for_good(state, calls.drop_last());
    }
}

} // verus!
