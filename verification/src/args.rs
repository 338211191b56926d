//! The command surface: what a caller selects and the values each command
//! carries. Argument parsing itself stays with the caller.

use vstd::prelude::*;

verus! {

/// The parsed command line: one command to run.
pub struct MixifyArgs {
    pub entity_type: EntityType,
}

/// The commands: create a snapshot to edit, preview a plan, apply it, or
/// re-apply a previously produced snapshot.
pub enum EntityType {
    New(NewCommand),
    Plan(PlanCommand),
    Apply(ApplyCommand),
    Sync(ApplyCommand),
}

/// Creates a new snapshot file to edit.
pub struct NewCommand {
    /// The name of the snapshot.
    pub name: String,
}

/// Shows the changes and playlist updates that would be applied.
pub struct PlanCommand {
    /// The id of the snapshot.
    pub id: u32,
}

/// Applies playlist updates to the remote service.
pub struct ApplyCommand {
    /// The id of the snapshot.
    pub id: u32,
}

} // verus!
