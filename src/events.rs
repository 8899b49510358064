//! The payloads of the events the protocol publishes. Publishing them is the
//! host's business; the operations hand them back.
use vstd::prelude::*;
use crate::types::{Address, Project};

verus! {

/// Published when a project is registered.
#[derive(Clone, Copy, Debug, PartialEq, Eq)]
pub struct ProjectCreated {
    pub project_id: u64,
    pub creator: Address,
    /// The project's first accepted token.
    pub token: Address,
    pub goal: i128,
}

/// Published when a deposit is credited.
#[derive(Clone, Copy, Debug, PartialEq, Eq)]
pub struct ProjectFunded {
    pub project_id: u64,
    pub donator: Address,
    pub amount: i128,
}

/// Published when a proof is accepted.
#[derive(Clone, Copy, Debug, PartialEq, Eq)]
pub struct ProjectVerified {
    pub project_id: u64,
    pub oracle: Address,
    pub proof_hash: [u8; 32],
}

/// The creation event of `project`; none for a project without tokens.
pub fn project_created(project: &Project) -> (r: Option<ProjectCreated>)
    ensures
        r is Some <==> project.accepted_tokens@.len() > 0,
        r matches Some(e) ==> e.project_id == project.id && e.creator == project.creator && e.token
            == project.accepted_tokens@[0] && e.goal == project.goal,
{
    if project.accepted_tokens.len() > 0 {
        Some(
            ProjectCreated {
                project_id: project.id,
                creator: project.creator,
                token: project.accepted_tokens[0],
                goal: project.goal,
            },
        )
    } else {
        None
    }
}

} // verus!
