//! State machine of one chunk's data: empty, loading, loaded.
use vstd::prelude::*;

verus! {

/// Lifecycle state of a chunk's data.
#[derive(Debug, Clone, Copy, PartialEq, Eq, Hash, Structural)]
pub enum ChunkState {
    Empty,
    Loading,
    Loaded,
}

/// External inputs that decide the next `ChunkState`.
#[derive(Debug, Clone, Copy, PartialEq, Eq, Structural)]
pub struct ChunkStatus {
    /// Whether the chunk lies within the load distance.
    pub is_within_load: bool,
    /// Whether the chunk's data is present in storage.
    pub loaded: bool,
}

/// The supported changes of `ChunkState`.
#[derive(Debug, Clone, Copy, PartialEq, Eq, Hash, Structural)]
pub enum ChunkTransition {
    EmptyToLoading,
    LoadingToEmpty,
    LoadingToLoaded,
    LoadedToEmpty,
}

/// The state that follows `curr_state` under `status`.
pub open spec fn next_chunk_state(curr_state: ChunkState, status: ChunkStatus) -> ChunkState {
    if !status.is_within_load {
        ChunkState::Empty
    } else {
        match curr_state {
            ChunkState::Empty => ChunkState::Loading,
            ChunkState::Loading => if status.loaded { ChunkState::Loaded } else { ChunkState::Loading },
            ChunkState::Loaded => ChunkState::Loaded,
        }
    }
}

/// The transition from `from` to `to`, where one is supported.
pub open spec fn chunk_transition(from: ChunkState, to: ChunkState) -> Option<ChunkTransition> {
    match (from, to) {
        (ChunkState::Empty, ChunkState::Loading) => Some(ChunkTransition::EmptyToLoading),
        (ChunkState::Loading, ChunkState::Empty) => Some(ChunkTransition::LoadingToEmpty),
        (ChunkState::Loading, ChunkState::Loaded) => Some(ChunkTransition::LoadingToLoaded),
        (ChunkState::Loaded, ChunkState::Empty) => Some(ChunkTransition::LoadedToEmpty),
        _ => None,
    }
}

impl ChunkTransition {
    /// The state a transition leaves.
    pub open spec fn from_state(self) -> ChunkState {
        match self {
            ChunkTransition::EmptyToLoading => ChunkState::Empty,
            ChunkTransition::LoadingToEmpty => ChunkState::Loading,
            ChunkTransition::LoadingToLoaded => ChunkState::Loading,
            ChunkTransition::LoadedToEmpty => ChunkState::Loaded,
        }
    }

    /// The state a transition enters.
    pub open spec fn to_state(self) -> ChunkState {
        match self {
            ChunkTransition::EmptyToLoading => ChunkState::Loading,
            ChunkTransition::LoadingToEmpty => ChunkState::Empty,
            ChunkTransition::LoadingToLoaded => ChunkState::Loaded,
            ChunkTransition::LoadedToEmpty => ChunkState::Empty,
        }
    }

    /// The state a transition leaves.
    pub fn from(&self) -> (r: ChunkState)
        ensures
            r == self.from_state(),
    {
        match self {
            ChunkTransition::EmptyToLoading => ChunkState::Empty,
            ChunkTransition::LoadingToEmpty => ChunkState::Loading,
            ChunkTransition::LoadingToLoaded => ChunkState::Loading,
            ChunkTransition::LoadedToEmpty => ChunkState::Loaded,
        }
    }

    /// The state a transition enters.
    pub fn to(&self) -> (r: ChunkState)
        ensures
            r == self.to_state(),
    {
        match self {
            ChunkTransition::EmptyToLoading => ChunkState::Loading,
            ChunkTransition::LoadingToEmpty => ChunkState::Empty,
            ChunkTransition::LoadingToLoaded => ChunkState::Loaded,
            ChunkTransition::LoadedToEmpty => ChunkState::Empty,
        }
    }
}

/// Computes the state that follows `curr_state` under `status`.
pub fn get_next_chunk_state(curr_state: ChunkState, status: ChunkStatus) -> (r: ChunkState)
    ensures
        r == next_chunk_state(curr_state, status),
{
    match curr_state {
        ChunkState::Empty => {
            if status.is_within_load {
                ChunkState::Loading
            } else {
                ChunkState::Empty
            }
        },
        ChunkState::Loading => {
            if status.is_within_load {
                if status.loaded {
                    ChunkState::Loaded
                } else {
                    curr_state
                }
            } else {
                ChunkState::Empty
            }
        },
        ChunkState::Loaded => {
            if status.is_within_load {
                curr_state
            } else {
                ChunkState::Empty
            }
        },
    }
}

/// Returns the transition from `from` to `to`, or `None` where none is supported.
pub fn get_chunk_transition(from: ChunkState, to: ChunkState) -> (r: Option<ChunkTransition>)
    ensures
        r == chunk_transition(from, to),
{
    match (from, to) {
        (ChunkState::Empty, ChunkState::Loading) => Some(ChunkTransition::EmptyToLoading),
        (ChunkState::Loading, ChunkState::Empty) => Some(ChunkTransition::LoadingToEmpty),
        (ChunkState::Loading, ChunkState::Loaded) => Some(ChunkTransition::LoadingToLoaded),
        (ChunkState::Loaded, ChunkState::Empty) => Some(ChunkTransition::LoadedToEmpty),
        _ => None,
    }
}

impl ChunkState {
    /// Method form of [`get_next_chunk_state`].
    pub fn get_next_chunk_state(&self, status: ChunkStatus) -> (r: ChunkState)
        ensures
            r == next_chunk_state(*self, status),
    {
        get_next_chunk_state(*self, status)
    }

    /// Method form of [`get_chunk_transition`].
    pub fn get_chunk_transition(&self, to: ChunkState) -> (r: Option<ChunkTransition>)
        ensures
            r == chunk_transition(*self, to),
    {
        get_chunk_transition(*self, to)
    }
}

/// Every change of state that the state machine chooses is a supported
/// transition, and that transition leads from the old state to the new one.
pub proof fn lemma_next_state_change_is_supported(curr_state: ChunkState, status: ChunkStatus)
    ensures
        next_chunk_state(curr_state, status) != curr_state ==> {
            &&& chunk_transition(curr_state, next_chunk_state(curr_state, status)) is Some
            &&& chunk_transition(curr_state, next_chunk_state(curr_state, status))->0.from_state()
                == curr_state
            &&& chunk_transition(curr_state, next_chunk_state(curr_state, status))->0.to_state()
                == next_chunk_state(curr_state, status)
        },
{
}

/// A supported transition always changes the state, and it goes exactly from
/// `from` to `to`.
pub proof fn lemma_transition_endpoints(from: ChunkState, to: ChunkState)
    ensures
        chunk_transition(from, to) matches Some(t) ==> from != to && t.from_state() == from
            && t.to_state() == to,
{
}

/// Under a fixed status the state settles after at most two steps.
pub proof fn lemma_state_settles(curr_state: ChunkState, status: ChunkStatus)
    ensures
        ({
            let s2 = next_chunk_state(next_chunk_state(curr_state, status), status);
            next_chunk_state(s2, status) == s2
        }),
{
}

/// Leaving the load distance always empties the chunk, whatever its state.
pub proof fn lemma_outside_load_is_empty(curr_state: ChunkState, status: ChunkStatus)
    requires
        !status.is_within_load,
    ensures
        next_chunk_state(curr_state, status) == ChunkState::Empty,
{
}

} // verus!
