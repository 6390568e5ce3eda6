//! What a plugin asks of its host before it is connected.
use vstd::prelude::*;

verus! {

/// Something that only the host can give.
#[derive(Clone, Copy, Debug, PartialEq, Eq, Structural)]
pub enum GrantKind {
    Approval,
    WorkspaceRead,
    WorkspaceWrite,
    Secret,
    Network,
}

/// A grant that a plugin asks for: it cannot do without it, or can use it where it is given.
#[derive(Clone, Copy, Debug, PartialEq, Eq, Structural)]
pub struct GrantRequirement {
    pub kind: GrantKind,
    pub required: bool,
}

} // verus!
