//! State machine of one chunk's mesh.
use vstd::prelude::*;

verus! {

/// State of a chunk's mesh.
#[derive(Debug, Clone, Copy, PartialEq, Eq, Hash, Structural)]
pub enum MeshState {
    /// The mesh is not built and is not queued.
    Empty,
    /// The mesh is waiting to be built (e.g. waiting for neighbors to load).
    WaitingToBuild,
    /// The mesh is in the builder queue.
    Building,
    /// The mesh is built and stored in the world.
    Built,
}

/// External inputs for determining the next `MeshState`.
#[derive(Debug, Clone, Copy, PartialEq, Eq, Structural)]
pub struct ChunkMeshStatus {
    /// Whether the chunk is inside the current render distance.
    pub is_within_render: bool,
    /// Whether all preconditions are met to begin building the mesh.
    pub can_start_building: bool,
    /// Whether the mesh building task has completed.
    pub mesh_built: bool,
    /// Whether the current mesh needs to be rebuilt (e.g. voxel edit / neighbor changed).
    pub needs_rebuild: bool,
}

/// A supported change of `MeshState`.
#[derive(Debug, Clone, Copy, PartialEq, Eq, Hash, Structural)]
pub struct MeshTransition {
    pub from: MeshState,
    pub to: MeshState,
}

/// The mesh state that follows `curr` under `status`.
pub open spec fn next_mesh_state(curr: MeshState, status: ChunkMeshStatus) -> MeshState {
    if !status.is_within_render {
        MeshState::Empty
    } else {
        match curr {
            MeshState::Empty => MeshState::WaitingToBuild,
            MeshState::WaitingToBuild => if status.can_start_building {
                MeshState::Building
            } else {
                MeshState::WaitingToBuild
            },
            MeshState::Building => if status.needs_rebuild {
                MeshState::WaitingToBuild
            } else if status.mesh_built {
                MeshState::Built
            } else {
                MeshState::Building
            },
            MeshState::Built => if status.needs_rebuild {
                MeshState::WaitingToBuild
            } else {
                MeshState::Built
            },
        }
    }
}

/// Whether the change from `from` to `to` is a supported mesh transition.
pub open spec fn is_mesh_transition(from: MeshState, to: MeshState) -> bool {
    match (from, to) {
        (MeshState::WaitingToBuild, MeshState::Empty) => true,
        (MeshState::WaitingToBuild, MeshState::Building) => true,
        (MeshState::Building, MeshState::Empty) => true,
        (MeshState::Building, MeshState::WaitingToBuild) => true,
        (MeshState::Building, MeshState::Built) => true,
        (MeshState::Built, MeshState::Empty) => true,
        (MeshState::Built, MeshState::WaitingToBuild) => true,
        _ => false,
    }
}

impl MeshState {
    /// Computes the mesh state that follows `self` under `status`.
    pub fn get_next_chunk_mesh_state(&self, status: ChunkMeshStatus) -> (r: MeshState)
        ensures
            r == next_mesh_state(*self, status),
    {
        let curr_state = *self;

        if !status.is_within_render {
            return MeshState::Empty;
        }
        match curr_state {
            MeshState::Empty => { MeshState::WaitingToBuild },
            MeshState::WaitingToBuild => {
                if status.can_start_building {
                    MeshState::Building
                } else {
                    curr_state
                }
            },
            MeshState::Building => {
                if status.needs_rebuild {
                    return MeshState::WaitingToBuild;
                }
                if status.mesh_built {
                    MeshState::Built
                } else {
                    curr_state
                }
            },
            MeshState::Built => {
                if status.needs_rebuild {
                    MeshState::WaitingToBuild
                } else {
                    curr_state
                }
            },
        }
    }

    /// Returns the transition from `self` to `to`, or `None` where it is not supported.
    pub fn get_mesh_transition(&self, to: MeshState) -> (r: Option<MeshTransition>)
        ensures
            r == (if is_mesh_transition(*self, to) {
                Some(MeshTransition { from: *self, to })
            } else {
                None
            }),
    {
        let from = *self;
        match (from, to) {
            (MeshState::WaitingToBuild, MeshState::Empty)
            | (MeshState::WaitingToBuild, MeshState::Building)
            | (MeshState::Building, MeshState::Empty)
            | (MeshState::Building, MeshState::WaitingToBuild)
            | (MeshState::Building, MeshState::Built)
            | (MeshState::Built, MeshState::Empty)
            | (MeshState::Built, MeshState::WaitingToBuild) => Some(MeshTransition { from, to }),
            _ => None,
        }
    }
}

/// Every change of mesh state that the state machine chooses from a non-empty
/// state is a supported transition.  (From `Empty` the machine moves to
/// `WaitingToBuild`, which the transition table does not list.)
pub proof fn lemma_next_mesh_state_change_is_supported(curr: MeshState, status: ChunkMeshStatus)
    requires
        curr != MeshState::Empty,
    ensures
        next_mesh_state(curr, status) != curr ==> is_mesh_transition(
            curr,
            next_mesh_state(curr, status),
        ),
{
}

/// A supported mesh transition always changes the state.
pub proof fn lemma_mesh_transition_changes_state(from: MeshState, to: MeshState)
    ensures
        is_mesh_transition(from, to) ==> from != to,
{
}

/// Leaving the render distance always drops the mesh, whatever its state.
pub proof fn lemma_outside_render_is_empty(curr: MeshState, status: ChunkMeshStatus)
    requires
        !status.is_within_render,
    ensures
        next_mesh_state(curr, status) == MeshState::Empty,
{
}

/// Without a pending rebuild the mesh state settles after at most three steps.
pub proof fn lemma_mesh_state_settles(curr: MeshState, status: ChunkMeshStatus)
    requires
        !status.needs_rebuild,
    ensures
        ({
            let s3 = next_mesh_state(
                next_mesh_state(next_mesh_state(curr, status), status),
                status,
            );
            next_mesh_state(s3, status) == s3
        }),
{
}

} // verus!
