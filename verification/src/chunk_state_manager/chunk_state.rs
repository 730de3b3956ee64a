//! Combined state machine of one chunk: data and mesh.
use vstd::prelude::*;

verus! {

/// Lifecycle state of a chunk.
#[derive(Debug, Clone, Copy, PartialEq, Eq, Hash, Structural)]
pub enum ChunkState {
    Empty,
    Loading,
    Loaded,
    ToDraw,
    Drawn,
}

/// External inputs that decide the next `ChunkState`.
#[derive(Debug, Clone, Copy, PartialEq, Eq, Structural)]
pub struct ChunkStatus {
    pub is_within_render: bool,
    pub is_within_load: bool,
    pub loaded: bool,
    pub mesh_built: bool,
    pub needs_rebuild: bool,
}

/// The supported changes of `ChunkState`.
#[derive(Debug, Clone, Copy, PartialEq, Eq, Hash, Structural)]
pub enum ChunkTransition {
    EmptyToLoading,
    LoadingToEmpty,
    LoadingToLoaded,
    LoadedToEmpty,
    LoadedToToDraw,
    ToDrawToLoaded,
    ToDrawToDrawn,
    DrawnToToDraw,
    DrawnToLoaded,
}

/// The state that follows `curr_state` under `status`.
pub open spec fn next_chunk_state(curr_state: ChunkState, status: ChunkStatus) -> ChunkState {
    match curr_state {
        ChunkState::Empty => if status.is_within_load {
            ChunkState::Loading
        } else {
            ChunkState::Empty
        },
        ChunkState::Loading => if status.loaded {
            ChunkState::Loaded
        } else {
            ChunkState::Loading
        },
        ChunkState::Loaded => if status.is_within_render {
            ChunkState::ToDraw
        } else if status.is_within_load {
            ChunkState::Loaded
        } else {
            ChunkState::Empty
        },
        ChunkState::ToDraw => if !status.is_within_render {
            ChunkState::Loaded
        } else if status.needs_rebuild {
            ChunkState::Loaded
        } else if status.mesh_built {
            ChunkState::Drawn
        } else {
            ChunkState::ToDraw
        },
        ChunkState::Drawn => if !status.is_within_render {
            ChunkState::Loaded
        } else if status.needs_rebuild {
            ChunkState::ToDraw
        } else {
            ChunkState::Drawn
        },
    }
}

/// The transition from `from` to `to`, where one is supported.
pub open spec fn chunk_transition(from: ChunkState, to: ChunkState) -> Option<ChunkTransition> {
    match (from, to) {
        (ChunkState::Empty, ChunkState::Loading) => Some(ChunkTransition::EmptyToLoading),
        (ChunkState::Loading, ChunkState::Loaded) => Some(ChunkTransition::LoadingToLoaded),
        (ChunkState::Loaded, ChunkState::Empty) => Some(ChunkTransition::LoadedToEmpty),
        (ChunkState::Loaded, ChunkState::ToDraw) => Some(ChunkTransition::LoadedToToDraw),
        (ChunkState::ToDraw, ChunkState::Loaded) => Some(ChunkTransition::ToDrawToLoaded),
        (ChunkState::ToDraw, ChunkState::Drawn) => Some(ChunkTransition::ToDrawToDrawn),
        (ChunkState::Drawn, ChunkState::ToDraw) => Some(ChunkTransition::DrawnToToDraw),
        (ChunkState::Drawn, ChunkState::Loaded) => Some(ChunkTransition::DrawnToLoaded),
        _ => None,
    }
}

impl ChunkTransition {
    /// The state a transition leaves.
    pub open spec fn from_state(self) -> ChunkState {
        match self {
            ChunkTransition::EmptyToLoading => ChunkState::Empty,
            ChunkTransition::LoadingToEmpty => ChunkState::Loading,
            ChunkTransition::LoadingToLoaded => ChunkState::Loading,
            ChunkTransition::LoadedToEmpty => ChunkState::Loaded,
            ChunkTransition::LoadedToToDraw => ChunkState::Loaded,
            ChunkTransition::ToDrawToLoaded => ChunkState::ToDraw,
            ChunkTransition::ToDrawToDrawn => ChunkState::ToDraw,
            ChunkTransition::DrawnToToDraw => ChunkState::Drawn,
            ChunkTransition::DrawnToLoaded => ChunkState::Drawn,
        }
    }

    /// The state a transition enters.
    pub open spec fn to_state(self) -> ChunkState {
        match self {
            ChunkTransition::EmptyToLoading => ChunkState::Loading,
            ChunkTransition::LoadingToEmpty => ChunkState::Empty,
            ChunkTransition::LoadingToLoaded => ChunkState::Loaded,
            ChunkTransition::LoadedToEmpty => ChunkState::Empty,
            ChunkTransition::LoadedToToDraw => ChunkState::ToDraw,
            ChunkTransition::ToDrawToLoaded => ChunkState::Loaded,
            ChunkTransition::ToDrawToDrawn => ChunkState::Drawn,
            ChunkTransition::DrawnToToDraw => ChunkState::ToDraw,
            ChunkTransition::DrawnToLoaded => ChunkState::Loaded,
        }
    }
}

/// Computes the state that follows `curr_state` under `status`.
pub fn get_next_chunk_state(curr_state: ChunkState, status: ChunkStatus) -> (r: ChunkState)
    ensures
        r == next_chunk_state(curr_state, status),
{
    match curr_state {
        ChunkState::Empty => {
            if status.is_within_load {
                ChunkState::Loading
            } else {
                ChunkState::Empty
            }
        },
        ChunkState::Loading => {
            if status.loaded {
                ChunkState::Loaded
            } else {
                curr_state
            }
        },
        ChunkState::Loaded => {
            if status.is_within_render {
                ChunkState::ToDraw
            } else {
                if status.is_within_load {
                    curr_state
                } else {
                    ChunkState::Empty
                }
            }
        },
        ChunkState::ToDraw => {
            if status.is_within_render {
                if status.needs_rebuild {
                    ChunkState::Loaded
                } else {
                    if status.mesh_built {
                        ChunkState::Drawn
                    } else {
                        curr_state
                    }
                }
            } else {
                ChunkState::Loaded
            }
        },
        ChunkState::Drawn => {
            if status.is_within_render {
                if status.needs_rebuild {
                    ChunkState::ToDraw
                } else {
                    curr_state
                }
            } else {
                ChunkState::Loaded
            }
        },
    }
}

/// Returns the transition from `from` to `to`, or `None` where none is supported.
pub fn get_chunk_transition(from: ChunkState, to: ChunkState) -> (r: Option<ChunkTransition>)
    ensures
        r == chunk_transition(from, to),
{
    match (from, to) {
        (ChunkState::Empty, ChunkState::Loading) => Some(ChunkTransition::EmptyToLoading),
        (ChunkState::Loading, ChunkState::Loaded) => Some(ChunkTransition::LoadingToLoaded),
        (ChunkState::Loaded, ChunkState::Empty) => Some(ChunkTransition::LoadedToEmpty),
        (ChunkState::Loaded, ChunkState::ToDraw) => Some(ChunkTransition::LoadedToToDraw),
        (ChunkState::ToDraw, ChunkState::Loaded) => Some(ChunkTransition::ToDrawToLoaded),
        (ChunkState::ToDraw, ChunkState::Drawn) => Some(ChunkTransition::ToDrawToDrawn),
        (ChunkState::Drawn, ChunkState::ToDraw) => Some(ChunkTransition::DrawnToToDraw),
        (ChunkState::Drawn, ChunkState::Loaded) => Some(ChunkTransition::DrawnToLoaded),
        _ => None,
    }
}

/// Every change of state that the state machine chooses is a supported
/// transition, leading from the old state to the new one.
pub proof fn lemma_next_state_change_is_supported(curr_state: ChunkState, status: ChunkStatus)
    ensures
        next_chunk_state(curr_state, status) != curr_state ==> {
            &&& chunk_transition(curr_state, next_chunk_state(curr_state, status)) is Some
            &&& chunk_transition(curr_state, next_chunk_state(curr_state, status))->0.from_state()
                == curr_state
            &&& chunk_transition(curr_state, next_chunk_state(curr_state, status))->0.to_state()
                == next_chunk_state(curr_state, status)
        },
{
}

/// A supported transition always changes the state, and goes exactly from
/// `from` to `to`.
pub proof fn lemma_transition_endpoints(from: ChunkState, to: ChunkState)
    ensures
        chunk_transition(from, to) matches Some(t) ==> from != to && t.from_state() == from
            && t.to_state() == to,
{
}

/// Applying the state machine `n` times under a fixed status.
pub open spec fn iterate_next(s: ChunkState, status: ChunkStatus, n: nat) -> ChunkState
    decreases n,
{
    if n == 0 {
        s
    } else {
        iterate_next(next_chunk_state(s, status), status, (n - 1) as nat)
    }
}

/// Unless a rebuild is pending inside the render distance, the state settles
/// after at most four steps under a fixed status.
pub proof fn lemma_state_settles(curr_state: ChunkState, status: ChunkStatus)
    requires
        !(status.needs_rebuild && status.is_within_render),
    ensures
        next_chunk_state(iterate_next(curr_state, status, 4), status) == iterate_next(
            curr_state,
            status,
            4,
        ),
{
    reveal_with_fuel(iterate_next, 5);
}

/// A pending rebuild inside the render distance makes a loaded chunk
/// alternate between `Loaded` and `ToDraw` for ever.
pub proof fn lemma_pending_rebuild_oscillates(status: ChunkStatus)
    requires
        status.needs_rebuild,
        status.is_within_render,
    ensures
        next_chunk_state(ChunkState::Loaded, status) == ChunkState::ToDraw,
        next_chunk_state(ChunkState::ToDraw, status) == ChunkState::Loaded,
{
}

} // verus!
