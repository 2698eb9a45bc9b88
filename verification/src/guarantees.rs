//! What callers can rely on of the actions, told by what they hand over and by what they get.

use std::collections::HashMap;
use uuid::Uuid;
use vstd::prelude::*;

#[allow(unused_imports)]
use crate::append::FastAppendAction;
#[allow(unused_imports)]
use crate::error::{Error, ErrorKind};
#[allow(unused_imports)]
use crate::manifest::{DataContentType, DataFile};
#[allow(unused_imports)]
use crate::rewrite::{contents_of, paths_of, RewriteFilesAction};
#[allow(unused_imports)]
use crate::schema::{NestedField, Schema, Type};
#[allow(unused_imports)]
use crate::table::{meets_all, ActionCommit, TableMetadata, TableRequirement, TableUpdate};
#[allow(unused_imports)]
use crate::transaction::{Action, ApplyTransactionAction, Transaction};
#[allow(unused_imports)]
use crate::update_schema::UpdateSchemaAction;

verus! {

// ---------------------------------------------------------------------------------------------
// Values
// ---------------------------------------------------------------------------------------------
/// An error keeps the class and the message that it was made with.
pub proof fn law_error_keeps_kind_and_message(
    kind: ErrorKind,
    given: &str,
    error: Error,
    message: &str,
)
    requires
        call_ensures(Error::new, (kind, given), error),
        call_ensures(Error::message, (&error,), message),
    ensures
        error.kind == kind,
        message@ == given@,
{
}

/// A file tells the content type and the path that it has.
pub proof fn law_file_tells_its_content_and_path(
    file: DataFile,
    content: DataContentType,
    path: &str,
)
    requires
        call_ensures(DataFile::content_type, (&file,), content),
        call_ensures(DataFile::file_path, (&file,), path),
    ensures
        content == file.content,
        path@ == file.file_path@,
{
}

/// A required field has the id, the name and the type that it was made with, and neither a
/// comment nor a default value.
pub proof fn law_required_field_is_required(
    id: i32,
    name: &str,
    field_type: Type,
    field: NestedField,
)
    requires
        call_ensures(NestedField::required, (id, name, field_type), field),
    ensures
        field.required,
        field.id == id,
        field.name@ == name@,
        field.field_type == field_type,
        field.doc is None && field.initial_default is None && field.write_default is None,
{
}

// ---------------------------------------------------------------------------------------------
// Building actions
// ---------------------------------------------------------------------------------------------
/// The files that hold rows, in order.
pub open spec fn with_rows(files: Seq<DataFile>) -> Seq<DataFile> {
    files.filter(|file: DataFile| file.content == DataContentType::Data)
}

/// The files that hold deletions by position or by equality, in order.
pub open spec fn with_deletions(files: Seq<DataFile>) -> Seq<DataFile> {
    files.filter(
        |file: DataFile|
            file.content == DataContentType::PositionDeletes || file.content
                == DataContentType::EqualityDeletes,
    )
}

/// Telling files apart is telling apart what their content types say.
proof fn lemma_files_by_content(files: Seq<DataFile>)
    ensures
        crate::manifest::data_files(files) == with_rows(files),
        crate::manifest::delete_files(files) == with_deletions(files),
{
    assert((|file: DataFile| file.is_data()) =~= (|file: DataFile|
        file.content == DataContentType::Data));
    assert((|file: DataFile| !file.is_data()) =~= (|file: DataFile|
        file.content == DataContentType::PositionDeletes || file.content
            == DataContentType::EqualityDeletes));
}

/// A new append appends nothing, checks for duplicates, and leaves the commit identifier, the key
/// metadata and the snapshot properties open.
pub proof fn law_new_append_is_empty_and_checks_for_duplicates(
    tx: Transaction,
    action: FastAppendAction,
)
    requires
        call_ensures(Transaction::fast_append, (&tx,), action),
    ensures
        action.check_duplicate,
        action.commit_uuid is None,
        action.key_metadata is None,
        action.snapshot_properties@ == Map::<String, String>::empty(),
        action.added_data_files@.len() == 0,
        action.added_delete_files@.len() == 0,
{
}

/// Files added to an append go to the end of the files of their kind, in the order given, each
/// file exactly where its content type says; nothing else of the action changes.
pub proof fn law_append_routes_by_content(
    action: FastAppendAction,
    files: Vec<DataFile>,
    result: FastAppendAction,
)
    requires
        call_ensures(FastAppendAction::add_data_files, (action, files), result),
    ensures
        result.added_data_files@ == action.added_data_files@ + with_rows(files@),
        result.added_delete_files@ == action.added_delete_files@ + with_deletions(files@),
        result.check_duplicate == action.check_duplicate,
        result.commit_uuid == action.commit_uuid,
        result.key_metadata == action.key_metadata,
        result.snapshot_properties == action.snapshot_properties,
{
    lemma_files_by_content(files@);
}

/// Each setter of an append sets its own field to what it is given and leaves all others alone.
pub proof fn law_append_setters_set_one_field(
    action: FastAppendAction,
    check: bool,
    checked: FastAppendAction,
    commit_uuid: Uuid,
    identified: FastAppendAction,
    key_metadata: Vec<u8>,
    keyed: FastAppendAction,
    properties: HashMap<String, String>,
    described: FastAppendAction,
)
    requires
        call_ensures(FastAppendAction::with_check_duplicate, (action, check), checked),
        call_ensures(FastAppendAction::set_commit_uuid, (action, commit_uuid), identified),
        call_ensures(FastAppendAction::set_key_metadata, (action, key_metadata), keyed),
        call_ensures(FastAppendAction::set_snapshot_properties, (action, properties), described),
    ensures
        checked.check_duplicate == check,
        identified.check_duplicate == action.check_duplicate,
        keyed.check_duplicate == action.check_duplicate,
        described.check_duplicate == action.check_duplicate,
        checked.commit_uuid == action.commit_uuid,
        identified.commit_uuid == Some(commit_uuid),
        keyed.commit_uuid == action.commit_uuid,
        described.commit_uuid == action.commit_uuid,
        checked.key_metadata == action.key_metadata,
        identified.key_metadata == action.key_metadata,
        keyed.key_metadata == Some(key_metadata),
        described.key_metadata == action.key_metadata,
        checked.snapshot_properties == action.snapshot_properties,
        identified.snapshot_properties == action.snapshot_properties,
        keyed.snapshot_properties == action.snapshot_properties,
        described.snapshot_properties == properties,
        checked.added_data_files == action.added_data_files,
        identified.added_data_files == action.added_data_files,
        keyed.added_data_files == action.added_data_files,
        described.added_data_files == action.added_data_files,
        checked.added_delete_files == action.added_delete_files,
        identified.added_delete_files == action.added_delete_files,
        keyed.added_delete_files == action.added_delete_files,
        described.added_delete_files == action.added_delete_files,
{
}

/// A new rewrite removes nothing, adds nothing, and leaves the commit identifier, the key metadata
/// and the snapshot properties open.
pub proof fn law_new_rewrite_is_empty(tx: Transaction, action: RewriteFilesAction)
    requires
        call_ensures(Transaction::rewrite_files, (&tx,), action),
    ensures
        action.commit_uuid is None,
        action.key_metadata is None,
        action.snapshot_properties@ == Map::<String, String>::empty(),
        action.added_data_files@.len() == 0,
        action.added_delete_files@.len() == 0,
        forall|path: Seq<char>| !(#[trigger] action.removed_paths@.contains(path)),
{
}

/// Files added to a rewrite go to the end of the files of their kind, in the order given, each
/// file exactly where its content type says; nothing else of the action changes.
pub proof fn law_rewrite_routes_by_content(
    action: RewriteFilesAction,
    files: Vec<DataFile>,
    result: RewriteFilesAction,
)
    requires
        call_ensures(RewriteFilesAction::add_data_files, (action, files), result),
    ensures
        result.added_data_files@ == action.added_data_files@ + with_rows(files@),
        result.added_delete_files@ == action.added_delete_files@ + with_deletions(files@),
        result.commit_uuid == action.commit_uuid,
        result.key_metadata == action.key_metadata,
        result.snapshot_properties == action.snapshot_properties,
        result.removed_paths == action.removed_paths,
{
    lemma_files_by_content(files@);
}

/// Removing files marks exactly their paths, on top of those marked before; nothing else of the
/// action changes.
pub proof fn law_rewrite_removes_the_paths_of_files(
    action: RewriteFilesAction,
    files: Vec<DataFile>,
    result: RewriteFilesAction,
)
    requires
        call_ensures(RewriteFilesAction::remove_data_files, (action, files), result),
    ensures
        forall|path: Seq<char>| #[trigger]
            result.removed_paths@.contains(path) <==> {
                ||| action.removed_paths@.contains(path)
                ||| exists|i: int|
                    0 <= i < files@.len() && (#[trigger] files@[i]).file_path@ == path
            },
        result.commit_uuid == action.commit_uuid,
        result.key_metadata == action.key_metadata,
        result.snapshot_properties == action.snapshot_properties,
        result.added_data_files == action.added_data_files,
        result.added_delete_files == action.added_delete_files,
{
    let paths = files@.map_values(|file: DataFile| file.path());
    assert forall|path: Seq<char>| #[trigger]
        paths_of(files@).contains(path) <==> exists|i: int|
        0 <= i < files@.len() && (#[trigger] files@[i]).file_path@ == path by {
        if paths_of(files@).contains(path) {
            let i = choose|i: int| 0 <= i < paths.len() && paths[i] == path;
            assert(files@[i].file_path@ == path);
        }
        if exists|i: int| 0 <= i < files@.len() && (#[trigger] files@[i]).file_path@ == path {
            let i = choose|i: int|
                0 <= i < files@.len() && (#[trigger] files@[i]).file_path@ == path;
            assert(paths[i] == path);
        }
    }
}

/// Removing paths marks exactly these paths, on top of those marked before; nothing else of the
/// action changes.
pub proof fn law_rewrite_removes_paths(
    action: RewriteFilesAction,
    paths: Vec<String>,
    result: RewriteFilesAction,
)
    requires
        call_ensures(RewriteFilesAction::remove_paths, (action, paths), result),
    ensures
        forall|path: Seq<char>| #[trigger]
            result.removed_paths@.contains(path) <==> {
                ||| action.removed_paths@.contains(path)
                ||| exists|i: int| 0 <= i < paths@.len() && (#[trigger] paths@[i])@ == path
            },
        result.commit_uuid == action.commit_uuid,
        result.key_metadata == action.key_metadata,
        result.snapshot_properties == action.snapshot_properties,
        result.added_data_files == action.added_data_files,
        result.added_delete_files == action.added_delete_files,
{
    let contents = paths@.map_values(|string: String| string@);
    assert forall|path: Seq<char>| #[trigger]
        contents_of(paths@).contains(path) <==> exists|i: int|
        0 <= i < paths@.len() && (#[trigger] paths@[i])@ == path by {
        if contents_of(paths@).contains(path) {
            let i = choose|i: int| 0 <= i < contents.len() && contents[i] == path;
            assert(paths@[i]@ == path);
        }
        if exists|i: int| 0 <= i < paths@.len() && (#[trigger] paths@[i])@ == path {
            let i = choose|i: int| 0 <= i < paths@.len() && (#[trigger] paths@[i])@ == path;
            assert(contents[i] == path);
        }
    }
}

/// Each setter of a rewrite sets its own field to what it is given and leaves all others alone.
pub proof fn law_rewrite_setters_set_one_field(
    action: RewriteFilesAction,
    commit_uuid: Uuid,
    identified: RewriteFilesAction,
    key_metadata: Vec<u8>,
    keyed: RewriteFilesAction,
    properties: HashMap<String, String>,
    described: RewriteFilesAction,
)
    requires
        call_ensures(RewriteFilesAction::set_commit_uuid, (action, commit_uuid), identified),
        call_ensures(RewriteFilesAction::set_key_metadata, (action, key_metadata), keyed),
        call_ensures(RewriteFilesAction::set_snapshot_properties, (action, properties), described),
    ensures
        identified.commit_uuid == Some(commit_uuid),
        keyed.commit_uuid == action.commit_uuid,
        described.commit_uuid == action.commit_uuid,
        identified.key_metadata == action.key_metadata,
        keyed.key_metadata == Some(key_metadata),
        described.key_metadata == action.key_metadata,
        identified.snapshot_properties == action.snapshot_properties,
        keyed.snapshot_properties == action.snapshot_properties,
        described.snapshot_properties == properties,
        identified.added_data_files == action.added_data_files,
        keyed.added_data_files == action.added_data_files,
        described.added_data_files == action.added_data_files,
        identified.added_delete_files == action.added_delete_files,
        keyed.added_delete_files == action.added_delete_files,
        described.added_delete_files == action.added_delete_files,
        identified.removed_paths == action.removed_paths,
        keyed.removed_paths == action.removed_paths,
        described.removed_paths == action.removed_paths,
{
}

// ---------------------------------------------------------------------------------------------
// Transactions
// ---------------------------------------------------------------------------------------------
/// A new transaction is on the table it was made for and holds no action.
pub proof fn law_new_transaction_is_empty(table: TableMetadata, tx: Transaction)
    requires
        call_ensures(Transaction::new, (&table,), tx),
    ensures
        tx.table == table,
        tx.actions@.len() == 0,
{
}

/// Whether `result` is the transaction `tx` with the action `last` at its end and with nothing
/// else changed.
pub open spec fn ends_with(
    result: Result<Transaction, Error>,
    tx: Transaction,
    last: Action,
) -> bool {
    &&& result matches Ok(applied)
    &&& applied.table == tx.table
    &&& applied.actions@.len() == tx.actions@.len() + 1
    &&& forall|i: int|
        0 <= i < tx.actions@.len() ==> #[trigger] applied.actions@[i] == tx.actions@[i]
    &&& applied.actions@[tx.actions@.len() as int] == last
}

/// Applying an append puts that very append at the end of the transaction: the check for
/// duplicates, the files and all else are as they were set.
pub proof fn law_apply_keeps_the_append(
    action: FastAppendAction,
    tx: Transaction,
    result: Result<Transaction, Error>,
)
    requires
        call_ensures(<FastAppendAction as ApplyTransactionAction>::apply, (action, tx), result),
    ensures
        ends_with(result, tx, Action::FastAppend(action)),
{
}

/// Applying a rewrite puts that very rewrite at the end of the transaction.
pub proof fn law_apply_keeps_the_rewrite(
    action: RewriteFilesAction,
    tx: Transaction,
    result: Result<Transaction, Error>,
)
    requires
        call_ensures(<RewriteFilesAction as ApplyTransactionAction>::apply, (action, tx), result),
    ensures
        ends_with(result, tx, Action::RewriteFiles(action)),
{
}

/// Applying a schema update puts that very update at the end of the transaction.
pub proof fn law_apply_keeps_the_schema_update(
    action: UpdateSchemaAction,
    tx: Transaction,
    result: Result<Transaction, Error>,
)
    requires
        call_ensures(<UpdateSchemaAction as ApplyTransactionAction>::apply, (action, tx), result),
    ensures
        ends_with(result, tx, Action::UpdateSchema(action)),
{
}

// ---------------------------------------------------------------------------------------------
// Schema updates
// ---------------------------------------------------------------------------------------------
/// A schema update that was set up with several schemas one after the other commits the last of
/// them, by exactly two updates: add it, and make the schema added last the current one. The
/// table must have kept its identity, its current schema and its highest field id.
pub proof fn law_schema_commit_sets_the_target(
    action: UpdateSchemaAction,
    schema: Schema,
    set: UpdateSchemaAction,
    table: TableMetadata,
    result: Result<ActionCommit, Error>,
)
    requires
        call_ensures(UpdateSchemaAction::set_schema, (action, schema), set),
        call_ensures(UpdateSchemaAction::commit, (set, &table), result),
    ensures
        result matches Ok(commit) && {
            &&& commit.updates@.len() == 2
            &&& commit.updates@[0] == TableUpdate::AddSchema { schema }
            &&& commit.updates@[1] == TableUpdate::SetCurrentSchema { schema_id: -1i32 }
            &&& commit.requirements@.len() == 3
            &&& commit.requirements@[0] == TableRequirement::UuidMatch { uuid: table.uuid }
            &&& commit.requirements@[1] == TableRequirement::CurrentSchemaIdMatch {
                current_schema_id: table.current_schema_id,
            }
            &&& commit.requirements@[2] == TableRequirement::LastAssignedFieldIdMatch {
                last_assigned_field_id: table.last_column_id,
            }
        },
{
}

/// A schema update without a target, newly made or by default, is refused as invalid data, on
/// every table.
pub proof fn law_schema_commit_needs_a_target(
    new: UpdateSchemaAction,
    by_default: UpdateSchemaAction,
    table: TableMetadata,
    result: Result<ActionCommit, Error>,
    default_result: Result<ActionCommit, Error>,
)
    requires
        call_ensures(UpdateSchemaAction::new, (), new),
        call_ensures(<UpdateSchemaAction as Default>::default, (), by_default),
        call_ensures(UpdateSchemaAction::commit, (new, &table), result),
        call_ensures(UpdateSchemaAction::commit, (by_default, &table), default_result),
    ensures
        result matches Err(error) && error.kind == ErrorKind::DataInvalid && error.message@
            == "Schema is not set for UpdateSchemaAction!"@,
        default_result matches Err(error) && error.kind == ErrorKind::DataInvalid
            && error.message@ == "Schema is not set for UpdateSchemaAction!"@,
{
}

/// The schemas that a catalog knows of a table, the latest added last, and which is current.
pub struct CatalogSchemas {
    pub known: Seq<Schema>,
    pub current: Schema,
}

impl CatalogSchemas {
    /// The schemas after the catalog carried out `update`. The schema id -1 stands for the schema
    /// added last.
    pub open spec fn after(self, update: TableUpdate) -> CatalogSchemas {
        match update {
            TableUpdate::AddSchema { schema } => CatalogSchemas {
                known: self.known.push(schema),
                ..self
            },
            TableUpdate::SetCurrentSchema { schema_id } => {
                if schema_id == -1 {
                    CatalogSchemas { current: self.known.last(), ..self }
                } else if exists|i: int|
                    0 <= i < self.known.len() && (#[trigger] self.known[i]).schema_id
                        == schema_id {
                    let i = choose|i: int|
                        0 <= i < self.known.len() && (#[trigger] self.known[i]).schema_id
                            == schema_id;
                    CatalogSchemas { current: self.known[i], ..self }
                } else {
                    self
                }
            },
            _ => self,
        }
    }

    /// The schemas after the catalog carried out `updates`, in order.
    pub open spec fn after_all(self, updates: Seq<TableUpdate>) -> CatalogSchemas
        decreases updates.len(),
    {
        if updates.len() == 0 {
            self
        } else {
            self.after(updates.first()).after_all(updates.drop_first())
        }
    }
}

/// Once a catalog has carried out a schema commit, the target schema is the current schema of the
/// table, and the schemas that the table knew before are still known.
pub proof fn law_schema_commit_makes_the_target_current(
    action: UpdateSchemaAction,
    schema: Schema,
    set: UpdateSchemaAction,
    table: TableMetadata,
    result: Result<ActionCommit, Error>,
    catalog: CatalogSchemas,
)
    requires
        call_ensures(UpdateSchemaAction::set_schema, (action, schema), set),
        call_ensures(UpdateSchemaAction::commit, (set, &table), result),
    ensures
        result matches Ok(commit) && {
            &&& catalog.after_all(commit.updates@).current == schema
            &&& catalog.after_all(commit.updates@).known == catalog.known.push(schema)
        },
{
    law_schema_commit_sets_the_target(action, schema, set, table, result);
    let updates = result->Ok_0.updates@;
    reveal_with_fuel(CatalogSchemas::after_all, 3);
    assert(updates.drop_first().first() == updates[1]);
    assert(updates.drop_first().drop_first().len() == 0);
}

/// A catalog takes a schema commit on a table exactly if the table has the identity, the current
/// schema and the highest field id of the table that the commit was made for, and so on that table
/// itself.
pub proof fn law_schema_commit_is_taken_on_the_same_state_only(
    action: UpdateSchemaAction,
    table: TableMetadata,
    result: Result<ActionCommit, Error>,
    later: TableMetadata,
)
    requires
        action.target_schema is Some,
        call_ensures(UpdateSchemaAction::commit, (action, &table), result),
    ensures
        result matches Ok(commit) && {
            &&& meets_all(later, commit.requirements@) <==> {
                &&& later.uuid == table.uuid
                &&& later.current_schema_id == table.current_schema_id
                &&& later.last_column_id == table.last_column_id
            }
            &&& meets_all(table, commit.requirements@)
        },
{
    crate::laws::law_schema_commit_fails_on_concurrent_change(table, later);
}

} // verus!
