use vstd::prelude::*;

verus! {

/// The state of a task: any combination of four flags.
#[derive(Debug, Clone, Copy, PartialEq, Eq, Structural)]
pub struct State {
    bits: u8,
}

impl State {
    /// Task is being waked
    pub const SCHEDULED: u8 = 1;

    /// Polling underlying future
    pub const RUNNING: u8 = 2;

    /// Underlying future has finished but the result is not retrieved yet
    pub const COMPLETED: u8 = 4;

    /// 1. It gets canceled by dropping what runs it or what waits for it.
    /// 2. Its output gets awaited.
    /// 3. It panics while polling the future.
    /// 4. It is completed and what waits for it gets dropped.
    pub const CLOSED: u8 = 8;

    /// The bits that are set.
    pub closed spec fn bits(self) -> u8 {
        self.bits
    }

    /// Whether all of `flags` are set.
    pub open spec fn has(self, flags: u8) -> bool {
        self.bits() & flags == flags
    }

    /// No flag is set.
    pub fn empty() -> (state: Self)
        ensures
            state.bits() == 0,
    {
        State { bits: 0 }
    }

    /// Whether all of `flags` are set.
    pub fn contains(&self, flags: u8) -> (yes: bool)
        ensures
            yes == self.has(flags),
            yes == (self.bits() & flags == flags),
    {
        self.bits & flags == flags
    }

    /// Sets `flags`.
    pub fn insert(&mut self, flags: u8)
        ensures
            final(self).bits() == old(self).bits() | flags,
    {
        self.bits = self.bits | flags;
    }

    /// Clears `flags`.
    pub fn remove(&mut self, flags: u8)
        ensures
            final(self).bits() == old(self).bits() & !flags,
    {
        self.bits = self.bits & !flags;
    }

    /// Hands the state to `f`, and back what `f` returns.
    pub fn update<F, R>(&mut self, f: F) -> (result: R) where F: FnOnce(&mut State) -> R
        requires
            forall|state: &mut State|
                *state == *old(self) ==> #[trigger] call_requires(f, (state,)),
        ensures
            exists|state: &mut State|
                *state == *old(self) && *final(state) == *final(self) && #[trigger] call_ensures(
                    f,
                    (state,),
                    result,
                ),
    {
        f(self)
    }

    /// Whether the task is being waked.
    pub fn is_scheduled(&self) -> (yes: bool)
        ensures
            yes == self.has(Self::SCHEDULED),
            yes == (self.bits() & 1 == 1),
    {
        self.contains(Self::SCHEDULED)
    }

    /// Whether the future is being polled.
    pub fn is_running(&self) -> (yes: bool)
        ensures
            yes == self.has(Self::RUNNING),
            yes == (self.bits() & 2 == 2),
    {
        self.contains(Self::RUNNING)
    }

    /// Whether the future has finished.
    pub fn is_completed(&self) -> (yes: bool)
        ensures
            yes == self.has(Self::COMPLETED),
            yes == (self.bits() & 4 == 4),
    {
        self.contains(Self::COMPLETED)
    }

    /// Whether the task is closed.
    pub fn is_closed(&self) -> (yes: bool)
        ensures
            yes == self.has(Self::CLOSED),
            yes == (self.bits() & 8 == 8),
    {
        self.contains(Self::CLOSED)
    }
}

/// A state has some flags exactly when all of their bits are set.
pub proof fn law_flags_are_bits(state: State, flags: u8)
    ensures
        state.has(flags) <==> state.bits() & flags == flags,
        is_flag(flags) <==> flags == 1 || flags == 2 || flags == 4 || flags == 8,
{
}

/// Whether `flag` is one of the four flags.
pub open spec fn is_flag(flag: u8) -> bool {
    flag == State::SCHEDULED || flag == State::RUNNING || flag == State::COMPLETED || flag
        == State::CLOSED
}

/// A flag that is set is there, and the others are as they were.
pub proof fn law_insert(before: State, after: State, flag: u8, other: u8)
    requires
        is_flag(flag),
        is_flag(other),
        after.bits() == before.bits() | flag,
    ensures
        after.has(flag),
        other != flag ==> after.has(other) == before.has(other),
{
    let bits = before.bits();
    assert((bits | flag) & flag == flag) by (bit_vector);
    assert(other != flag ==> (((bits | flag) & other == other) <==> (bits & other == other)))
        by (bit_vector)
        requires
            flag == 1u8 || flag == 2u8 || flag == 4u8 || flag == 8u8,
            other == 1u8 || other == 2u8 || other == 4u8 || other == 8u8,
    ;
}

/// A flag that is cleared is not there, and the others are as they were.
pub proof fn law_remove(before: State, after: State, flag: u8, other: u8)
    requires
        is_flag(flag),
        is_flag(other),
        after.bits() == before.bits() & !flag,
    ensures
        !after.has(flag),
        other != flag ==> after.has(other) == before.has(other),
{
    let bits = before.bits();
    assert((bits & !flag) & flag != flag) by (bit_vector)
        requires
            flag == 1u8 || flag == 2u8 || flag == 4u8 || flag == 8u8,
    ;
    assert(other != flag ==> (((bits & !flag) & other == other) <==> (bits & other == other)))
        by (bit_vector)
        requires
            flag == 1u8 || flag == 2u8 || flag == 4u8 || flag == 8u8,
            other == 1u8 || other == 2u8 || other == 4u8 || other == 8u8,
    ;
}

/// Clearing a flag undoes setting it, where it was not set before.
pub proof fn law_remove_undoes_insert(before: State, between: State, after: State, flag: u8)
    requires
        is_flag(flag),
        !before.has(flag),
        between.bits() == before.bits() | flag,
        after.bits() == between.bits() & !flag,
    ensures
        after == before,
{
    let bits = before.bits();
    assert((bits | flag) & !flag == bits) by (bit_vector)
        requires
            flag == 1u8 || flag == 2u8 || flag == 4u8 || flag == 8u8,
            bits & flag != flag,
    ;
}

} // verus!
