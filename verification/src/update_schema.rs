//! The action that replaces the schema of a table.

use vstd::prelude::*;

use crate::error::{Error, ErrorKind};
use crate::schema::Schema;
use crate::table::{
    ActionCommit, TableMetadata, TableRequirement, TableUpdate, LAST_ADDED,
};

verus! {

/// A transaction action that replaces the table's current schema with a target schema.
///
/// The caller works out the target schema, say by adding or dropping columns, and hands it to
/// [`Self::set_schema`]. The commit adds the target schema and makes the schema added last the
/// current one, so that the catalog gives it an id that clashes with no other.
///
/// The commit takes effect only on a table that has kept its identity, its current schema and its
/// highest field id, so that a concurrent change of the schema or the columns fails loudly.
///
/// Whether the target schema is a valid evolution of the current one is the caller's concern.
#[derive(Debug)]
pub struct UpdateSchemaAction {
    pub target_schema: Option<Schema>,
}

impl Default for UpdateSchemaAction {
    /// An action with no schema set.
    fn default() -> (action: UpdateSchemaAction)
        ensures
            action.target_schema is None,
    {
        UpdateSchemaAction::new()
    }
}

/// The updates that make `schema` the current schema.
pub open spec fn schema_updates(schema: Schema) -> Seq<TableUpdate> {
    seq![
        TableUpdate::AddSchema { schema },
        TableUpdate::SetCurrentSchema { schema_id: LAST_ADDED },
    ]
}

/// The requirements that the table has kept its identity, its current schema and its highest
/// field id.
pub open spec fn schema_requirements(table: TableMetadata) -> Seq<TableRequirement> {
    seq![
        TableRequirement::UuidMatch { uuid: table.uuid },
        TableRequirement::CurrentSchemaIdMatch { current_schema_id: table.current_schema_id },
        TableRequirement::LastAssignedFieldIdMatch { last_assigned_field_id: table.last_column_id },
    ]
}

impl UpdateSchemaAction {
    /// An action with no schema set.
    pub fn new() -> (action: UpdateSchemaAction)
        ensures
            action.target_schema is None,
    {
        UpdateSchemaAction { target_schema: None }
    }

    /// Sets the schema that the action will commit, in place of any that was set before.
    pub fn set_schema(self, schema: Schema) -> (action: UpdateSchemaAction)
        ensures
            action.target_schema == Some(schema),
    {
        let mut action = self;
        action.target_schema = Some(schema);
        action
    }

    /// Commits the target schema to the table. Without a target schema that is refused.
    pub fn commit(self, table: &TableMetadata) -> (result: Result<ActionCommit, Error>)
        ensures
            match self.target_schema {
                Some(schema) => {
                    &&& result matches Ok(commit)
                    &&& commit.updates@ == schema_updates(schema)
                    &&& commit.updates@.len() == 2
                    &&& commit.updates@[0] == TableUpdate::AddSchema { schema }
                    &&& commit.updates@[1] == TableUpdate::SetCurrentSchema {
                        schema_id: LAST_ADDED,
                    }
                    &&& commit.requirements@ == schema_requirements(*table)
                },
                None => result matches Err(error) && error.kind == ErrorKind::DataInvalid
                    && error.message@ == "Schema is not set for UpdateSchemaAction!"@,
            },
    {
        let target: Schema = match self.target_schema {
            Some(schema) => schema,
            None => {
                return Err(
                    Error::new(
                        ErrorKind::DataInvalid,
                        "Schema is not set for UpdateSchemaAction!",
                    ),
                );
            },
        };
        let updates: Vec<TableUpdate> = vec![
            TableUpdate::AddSchema { schema: target },
            TableUpdate::SetCurrentSchema { schema_id: LAST_ADDED },
        ];
        let requirements: Vec<TableRequirement> = vec![
            TableRequirement::UuidMatch { uuid: table.uuid },
            TableRequirement::CurrentSchemaIdMatch { current_schema_id: table.current_schema_id },
            TableRequirement::LastAssignedFieldIdMatch {
                last_assigned_field_id: table.last_column_id,
            },
        ];
        Ok(ActionCommit::new(updates, requirements))
    }
}

} // verus!
