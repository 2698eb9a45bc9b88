//! What an action reads of a table, and what it asks a catalog to change.

use std::collections::HashMap;
use uuid::Uuid;
use vstd::prelude::*;

use crate::schema::Schema;

verus! {

/// `uuid::Uuid`, an identifier that this crate only hands on.
#[verifier::external_type_specification]
#[verifier::external_body]
pub struct ExUuid(uuid::Uuid);

/// The schema id that stands for the schema added last.
pub const LAST_ADDED: i32 = -1;

/// The branch that the actions of this crate commit to.
pub const MAIN_BRANCH: &'static str = "main";

/// What the actions of this crate read of a table's metadata.
#[derive(Clone, Copy, Debug, PartialEq, Eq)]
pub struct TableMetadata {
    /// The identity of the table: a table that is created anew gets another one.
    pub uuid: Uuid,
    pub current_schema_id: i32,
    /// The highest field id that was ever assigned to a column.
    pub last_column_id: i32,
    /// The snapshot that the main branch is at, if the table has any snapshot.
    pub current_snapshot_id: Option<i64>,
}

/// What a snapshot did to the table.
#[derive(Clone, Copy, Debug, PartialEq, Eq, Structural)]
pub enum Operation {
    /// Files were added, and none was removed.
    Append,
    /// Files were removed and files were added, and the rows of the table stayed the same.
    Replace,
}

/// What a snapshot says of itself.
#[derive(Debug)]
pub struct Summary {
    pub operation: Operation,
    /// The properties that the committer attached to the snapshot.
    pub additional_properties: HashMap<String, String>,
}

/// A state of a table.
#[derive(Debug)]
pub struct Snapshot {
    pub snapshot_id: i64,
    pub sequence_number: i64,
    /// Where the manifest list of the snapshot is stored.
    pub manifest_list: String,
    pub summary: Summary,
}

/// What a branch points to.
#[derive(Clone, Copy, Debug, PartialEq, Eq, Structural)]
pub struct SnapshotReference {
    pub snapshot_id: i64,
}

/// A change to the metadata of a table.
#[derive(Debug)]
pub enum TableUpdate {
    /// Add a schema to those that the table knows.
    AddSchema { schema: Schema },
    /// Make a schema the current one; `LAST_ADDED` stands for the schema added last.
    SetCurrentSchema { schema_id: i32 },
    /// Add a snapshot to those that the table knows.
    AddSnapshot { snapshot: Snapshot },
    /// Set a branch to a snapshot.
    SetSnapshotRef { ref_name: String, reference: SnapshotReference },
}

/// A condition that a table has to meet for a commit to take effect.
#[derive(Debug, PartialEq, Eq)]
pub enum TableRequirement {
    /// The table has this identity.
    UuidMatch { uuid: Uuid },
    /// The table's current schema has this id.
    CurrentSchemaIdMatch { current_schema_id: i32 },
    /// This is the highest field id that was ever assigned to a column of the table.
    LastAssignedFieldIdMatch { last_assigned_field_id: i32 },
    /// The branch is at this snapshot, or does not exist yet if there is none.
    RefSnapshotIdMatch { ref_name: String, snapshot_id: Option<i64> },
}

impl TableRequirement {
    /// Whether a table with the metadata `table` meets the condition. The metadata knows of the
    /// main branch alone, so it rules out no condition on another branch.
    pub open spec fn is_met_by(self, table: TableMetadata) -> bool {
        match self {
            TableRequirement::UuidMatch { uuid } => table.uuid == uuid,
            TableRequirement::CurrentSchemaIdMatch { current_schema_id } => table.current_schema_id
                == current_schema_id,
            TableRequirement::LastAssignedFieldIdMatch { last_assigned_field_id } => {
                table.last_column_id == last_assigned_field_id
            },
            TableRequirement::RefSnapshotIdMatch { ref_name, snapshot_id } => ref_name@
                == MAIN_BRANCH@ ==> table.current_snapshot_id == snapshot_id,
        }
    }
}

/// Whether a table with the metadata `table` meets every condition of `requirements`.
pub open spec fn meets_all(table: TableMetadata, requirements: Seq<TableRequirement>) -> bool {
    forall|i: int| 0 <= i < requirements.len() ==> (#[trigger] requirements[i]).is_met_by(table)
}

/// What an action asks of a catalog: to make the updates, in order, if the table meets all the
/// requirements, and to refuse otherwise.
#[derive(Debug)]
pub struct ActionCommit {
    pub updates: Vec<TableUpdate>,
    pub requirements: Vec<TableRequirement>,
}

impl ActionCommit {
    /// A commit with the given updates and requirements.
    pub fn new(updates: Vec<TableUpdate>, requirements: Vec<TableRequirement>) -> (commit:
        ActionCommit)
        ensures
            commit.updates == updates,
            commit.requirements == requirements,
    {
        ActionCommit { updates, requirements }
    }
}

} // verus!
