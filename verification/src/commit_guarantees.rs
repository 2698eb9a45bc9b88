//! What callers can rely on of a commit that makes a snapshot, from the action to what the catalog
//! is asked for.

use uuid::Uuid;
use vstd::prelude::*;

#[allow(unused_imports)]
use crate::append::{FastAppendAction, FastAppendOperation};
#[allow(unused_imports)]
use crate::error::{Error, ErrorKind};
#[allow(unused_imports)]
use crate::manifest::{
    DataFile, ManifestContentType, ManifestEntry, ManifestFile, ManifestStatus, NewManifest,
};
#[allow(unused_imports)]
use crate::rewrite::{RewriteFilesAction, RewriteFilesOperation};
#[allow(unused_imports)]
use crate::snapshot::{
    added_manifests, manifest_list, CommitStep, CommitTask, Production, SnapshotCommit,
    SnapshotProduceOperation,
};
#[allow(unused_imports)]
use crate::table::{
    meets_all, ActionCommit, Operation, TableMetadata, TableRequirement, TableUpdate,
};

verus! {

/// Whether `before` becomes `after` by a check that passed.
pub open spec fn passes<O>(before: SnapshotCommit<O>, after: SnapshotCommit<O>) -> bool {
    call_ensures(
        SnapshotCommit::<O>::checked,
        (before, Ok::<(), Error>(())),
        Ok::<SnapshotCommit<O>, Error>(after),
    )
}

/// Whether each of `commits` but the first comes of the one before by a check that passed.
pub open spec fn checks_passed<O>(commits: Seq<SnapshotCommit<O>>) -> bool {
    &&& commits.len() > 0
    &&& forall|k: int, n: int|
        0 <= k && n == k + 1 && n < commits.len() ==> #[trigger] passes(commits[k], commits[n])
}

/// Whether the commit is ready to produce its snapshot.
pub open spec fn is_ready<O>(commit: SnapshotCommit<O>) -> bool {
    call_ensures(SnapshotCommit::<O>::task, (&commit,), CommitTask::Produce)
}

/// Checks change nothing of a commit but its step.
proof fn lemma_checks_keep_the_commit<O>(commits: Seq<SnapshotCommit<O>>, k: int)
    requires
        checks_passed(commits),
        0 <= k < commits.len(),
        commits[0].step == CommitStep::ValidateDataFiles,
    ensures
        commits[k].producer == commits[0].producer,
        commits[k].operation == commits[0].operation,
        commits[k].check_duplicate == commits[0].check_duplicate,
        k == 1 ==> commits[k].step == CommitStep::ValidateDeleteFiles,
        k == 2 && commits[0].check_duplicate ==> commits[k].step
            == CommitStep::ValidateDuplicateFiles,
        k == 2 && !commits[0].check_duplicate ==> commits[k].step == CommitStep::Produce,
        k >= 3 ==> commits[k].step == CommitStep::Produce,
    decreases k,
{
    if k > 0 {
        lemma_checks_keep_the_commit(commits, k - 1);
        assert(passes(commits[k - 1], commits[k]));
    }
}

/// The checks of an append: first its own data files are to be validated, then its own delete
/// files, then, exactly if it checks for duplicates, all of them against the table it is committed
/// to; after that it is ready.
pub proof fn law_append_asks_for_its_checks_in_order(
    action: FastAppendAction,
    table: TableMetadata,
    commits: Seq<SnapshotCommit<FastAppendOperation>>,
    k: int,
    task: CommitTask,
)
    requires
        checks_passed(commits),
        call_ensures(FastAppendAction::commit, (action, &table), commits[0]),
        0 <= k < commits.len(),
        call_ensures(SnapshotCommit::<FastAppendOperation>::task, (&commits[k],), task),
    ensures
        k == 0 ==> task == CommitTask::ValidateAddedFiles(&action.added_data_files),
        k == 1 ==> task == CommitTask::ValidateAddedFiles(&action.added_delete_files),
        k == 2 && action.check_duplicate ==> {
            &&& task matches CommitTask::ValidateDuplicateFiles(producer)
            &&& producer.added_data_files == action.added_data_files
            &&& producer.added_delete_files == action.added_delete_files
            &&& producer.table == table
        },
        k == 2 && !action.check_duplicate ==> task == CommitTask::Produce,
        k >= 3 ==> task == CommitTask::Produce,
{
    lemma_checks_keep_the_commit(commits, k);
}

/// The checks of a rewrite: first its own data files are to be validated, then its own delete
/// files; after that it is ready. It never asks for a check for duplicates.
pub proof fn law_rewrite_asks_for_its_checks_in_order(
    action: RewriteFilesAction,
    table: TableMetadata,
    commits: Seq<SnapshotCommit<RewriteFilesOperation>>,
    k: int,
    task: CommitTask,
)
    requires
        checks_passed(commits),
        call_ensures(RewriteFilesAction::commit, (action, &table), commits[0]),
        0 <= k < commits.len(),
        call_ensures(SnapshotCommit::<RewriteFilesOperation>::task, (&commits[k],), task),
    ensures
        k == 0 ==> task == CommitTask::ValidateAddedFiles(&action.added_data_files),
        k == 1 ==> task == CommitTask::ValidateAddedFiles(&action.added_delete_files),
        k >= 2 ==> task == CommitTask::Produce,
{
    lemma_checks_keep_the_commit(commits, k);
}

/// A check that failed ends the commit with the error of the check, whichever check it was.
pub proof fn law_failed_check_ends_the_commit<O>(
    commit: SnapshotCommit<O>,
    error: Error,
    next: Result<SnapshotCommit<O>, Error>,
)
    requires
        call_ensures(
            SnapshotCommit::<O>::checked,
            (commit, Err::<(), Error>(error)),
            next,
        ),
    ensures
        next == Err::<SnapshotCommit<O>, Error>(error),
{
}

/// A check that passed never ends the commit.
pub proof fn law_passed_check_goes_on<O>(
    commit: SnapshotCommit<O>,
    next: Result<SnapshotCommit<O>, Error>,
)
    requires
        call_ensures(SnapshotCommit::<O>::checked, (commit, Ok::<(), Error>(())), next),
    ensures
        next is Ok,
{
}

/// One data file, one delete file or one property is each enough to make a snapshot of, and with
/// none of them the commit is refused.
pub proof fn law_any_addition_is_enough<O>(
    commit: SnapshotCommit<O>,
    snapshot_id: i64,
    sequence_number: i64,
    result: Result<Production<O>, Error>,
)
    requires
        call_ensures(
            SnapshotCommit::<O>::produce,
            (commit, snapshot_id, sequence_number),
            result,
        ),
    ensures
        commit.producer.added_data_files@.len() > 0 ==> result is Ok,
        commit.producer.added_delete_files@.len() > 0 ==> result is Ok,
        forall|key: String| #[trigger]
            commit.producer.snapshot_properties@.contains_key(key) ==> result is Ok,
        commit.producer.added_data_files@.len() == 0 && commit.producer.added_delete_files@.len()
            == 0 && commit.producer.snapshot_properties@ == Map::<String, String>::empty()
            ==> (result matches Err(error) && error.kind == ErrorKind::PreconditionFailed
            && error.message@ == "No added files or snapshot properties to make a snapshot of"@),
{
}

/// Whether `manifest` adds exactly `files`, in order, for the snapshot `snapshot_id`, with
/// sequence numbers that are still to be inherited.
pub open spec fn adds_exactly(
    manifest: NewManifest,
    files: Seq<DataFile>,
    snapshot_id: i64,
) -> bool {
    &&& manifest.entries@.len() == files.len()
    &&& forall|i: int|
        0 <= i < files.len() ==> {
            let entry = #[trigger] manifest.entries@[i];
            &&& entry.data_file == files[i]
            &&& entry.status == ManifestStatus::Added
            &&& entry.snapshot_id == Some(snapshot_id)
            &&& entry.sequence_number is None
            &&& entry.file_sequence_number is None
        }
}

/// Whether `manifests` add exactly the files of `data` and of `deletes`: the former in a data
/// manifest and the latter in a delete manifest after it, and no manifest where there is no file.
pub open spec fn add_all(
    manifests: Seq<NewManifest>,
    data: Seq<DataFile>,
    deletes: Seq<DataFile>,
    snapshot_id: i64,
) -> bool {
    let of_data: int = if data.len() > 0 {
        1
    } else {
        0
    };
    let of_deletes: int = if deletes.len() > 0 {
        1
    } else {
        0
    };
    &&& manifests.len() == of_data + of_deletes
    &&& data.len() > 0 ==> manifests[0].content == ManifestContentType::Data && adds_exactly(
        manifests[0],
        data,
        snapshot_id,
    )
    &&& deletes.len() > 0 ==> manifests[of_data].content == ManifestContentType::Deletes
        && adds_exactly(manifests[of_data], deletes, snapshot_id)
}

/// A manifest for added files lists each of them as added by the snapshot, in order, with
/// sequence numbers that are still to be inherited.
pub proof fn law_new_manifest_adds_exactly_its_files(
    files: Vec<DataFile>,
    content: ManifestContentType,
    snapshot_id: i64,
    manifest: NewManifest,
)
    requires
        call_ensures(NewManifest::added, (files, content, snapshot_id), manifest),
    ensures
        manifest.content == content,
        adds_exactly(manifest, files@, snapshot_id),
{
}

/// What a production is made of comes from its commit, and its manifests add exactly the commit's
/// files.
pub proof fn law_production_takes_over_the_commit<O>(
    commit: SnapshotCommit<O>,
    snapshot_id: i64,
    sequence_number: i64,
    production: Production<O>,
)
    requires
        call_ensures(
            SnapshotCommit::<O>::produce,
            (commit, snapshot_id, sequence_number),
            Ok::<Production<O>, Error>(production),
        ),
    ensures
        production.operation == commit.operation,
        production.table == commit.producer.table,
        production.commit_uuid == commit.producer.commit_uuid,
        production.key_metadata == commit.producer.key_metadata,
        production.snapshot_properties == commit.producer.snapshot_properties,
        production.snapshot_id == snapshot_id,
        production.sequence_number == sequence_number,
        add_all(
            production.added@,
            commit.producer.added_data_files@,
            commit.producer.added_delete_files@,
            snapshot_id,
        ),
{
    let data = commit.producer.added_data_files@;
    let deletes = commit.producer.added_delete_files@;
    let views = production.added@.map_values(|manifest: NewManifest| manifest@);
    assert(commit.producer.adds_something());
    assert(views == added_manifests(data, deletes, snapshot_id));
    assert(views.len() == production.added@.len());
    let of_data: int = if data.len() > 0 {
        1
    } else {
        0
    };
    if data.len() > 0 {
        assert(views[0] == production.added@[0]@);
    }
    if deletes.len() > 0 {
        assert(views[of_data] == production.added@[of_data]@);
    }
}

/// The manifests of a new snapshot are those that hold files of the prior one and then those of
/// the added files, all of them and in order.
pub proof fn law_manifest_list_holds_all(
    existing: Vec<ManifestFile>,
    added: Vec<ManifestFile>,
    list: Vec<ManifestFile>,
)
    requires
        call_ensures(manifest_list, (existing, added), list),
    ensures
        list@ == existing@ + added@,
{
}

/// Whether `commit` asks the catalog to add the snapshot described by the arguments and to set the
/// main branch to it, on the condition that the table has the identity and the current snapshot of
/// `table`.
pub open spec fn publishes(
    commit: ActionCommit,
    table: TableMetadata,
    operation: Operation,
    properties: std::collections::HashMap<String, String>,
    snapshot_id: i64,
    sequence_number: i64,
    path: String,
) -> bool {
    &&& commit.updates@.len() == 2
    &&& commit.updates@[0] matches TableUpdate::AddSnapshot { snapshot }
    &&& snapshot.snapshot_id == snapshot_id
    &&& snapshot.sequence_number == sequence_number
    &&& snapshot.manifest_list == path
    &&& snapshot.summary.operation == operation
    &&& snapshot.summary.additional_properties == properties
    &&& commit.updates@[1] matches TableUpdate::SetSnapshotRef { ref_name, reference }
    &&& ref_name@ == "main"@
    &&& reference.snapshot_id == snapshot_id
    &&& commit.requirements@.len() == 2
    &&& commit.requirements@[0] == TableRequirement::UuidMatch { uuid: table.uuid }
    &&& commit.requirements@[1] matches TableRequirement::RefSnapshotIdMatch {
        ref_name: guarded,
        snapshot_id: expected,
    }
    &&& guarded@ == "main"@
    &&& expected == table.current_snapshot_id
}

/// A production publishes itself: the snapshot under its id, sequence number and manifest list,
/// with its operation and its properties, on the table it was made for.
pub proof fn law_finish_publishes_the_production<O: SnapshotProduceOperation>(
    production: Production<O>,
    operation: Operation,
    path: String,
    commit: ActionCommit,
)
    requires
        call_ensures(
            <O as SnapshotProduceOperation>::operation,
            (&production.operation,),
            operation,
        ),
        call_ensures(Production::<O>::finish, (production, path), commit),
    ensures
        publishes(
            commit,
            production.table,
            operation,
            production.snapshot_properties,
            production.snapshot_id,
            production.sequence_number,
            path,
        ),
{
}

/// An append, from the action to the catalog. Once its checks have passed, it produces a snapshot
/// exactly if it adds a data file, a delete file or a property. The snapshot adds exactly the
/// action's files; it is an append, with the action's properties, key metadata and identifier; and
/// the catalog is asked to publish it on the very table that was committed to.
pub proof fn law_append_from_action_to_catalog(
    action: FastAppendAction,
    table: TableMetadata,
    commits: Seq<SnapshotCommit<FastAppendOperation>>,
    snapshot_id: i64,
    sequence_number: i64,
    result: Result<Production<FastAppendOperation>, Error>,
    path: String,
    commit: ActionCommit,
)
    requires
        checks_passed(commits),
        call_ensures(FastAppendAction::commit, (action, &table), commits[0]),
        is_ready(commits.last()),
        call_ensures(
            SnapshotCommit::<FastAppendOperation>::produce,
            (commits.last(), snapshot_id, sequence_number),
            result,
        ),
        result matches Ok(production) ==> call_ensures(
            Production::<FastAppendOperation>::finish,
            (production, path),
            commit,
        ),
    ensures
        result is Ok <==> action.added_data_files@.len() > 0 || action.added_delete_files@.len() > 0
            || action.snapshot_properties@ != Map::<String, String>::empty(),
        result matches Err(error) ==> error.kind == ErrorKind::PreconditionFailed,
        result matches Ok(production) ==> {
            &&& add_all(
                production.added@,
                action.added_data_files@,
                action.added_delete_files@,
                snapshot_id,
            )
            &&& production.key_metadata == action.key_metadata
            &&& action.commit_uuid matches Some(id) ==> production.commit_uuid == id
            &&& action.commit_uuid is None ==> call_ensures(
                Uuid::now_v7,
                (),
                production.commit_uuid,
            )
            &&& publishes(
                commit,
                table,
                Operation::Append,
                action.snapshot_properties,
                snapshot_id,
                sequence_number,
                path,
            )
        },
{
    lemma_checks_keep_the_commit(commits, commits.len() - 1);
    lemma_empty_properties(action.snapshot_properties@);
    if let Ok(production) = result {
        law_production_takes_over_the_commit(
            commits.last(),
            snapshot_id,
            sequence_number,
            production,
        );
    }
}

/// A rewrite, from the action to the catalog. Once its checks have passed, it produces a snapshot
/// exactly if it adds a data file, a delete file or a property. The snapshot adds exactly the
/// action's files and removes exactly the action's paths; it is a replacement, with the action's
/// properties, key metadata and identifier; and the catalog is asked to publish it on the very
/// table that was committed to.
pub proof fn law_rewrite_from_action_to_catalog(
    action: RewriteFilesAction,
    table: TableMetadata,
    commits: Seq<SnapshotCommit<RewriteFilesOperation>>,
    snapshot_id: i64,
    sequence_number: i64,
    result: Result<Production<RewriteFilesOperation>, Error>,
    path: String,
    commit: ActionCommit,
)
    requires
        checks_passed(commits),
        call_ensures(RewriteFilesAction::commit, (action, &table), commits[0]),
        is_ready(commits.last()),
        call_ensures(
            SnapshotCommit::<RewriteFilesOperation>::produce,
            (commits.last(), snapshot_id, sequence_number),
            result,
        ),
        result matches Ok(production) ==> call_ensures(
            Production::<RewriteFilesOperation>::finish,
            (production, path),
            commit,
        ),
    ensures
        result is Ok <==> action.added_data_files@.len() > 0 || action.added_delete_files@.len() > 0
            || action.snapshot_properties@ != Map::<String, String>::empty(),
        result matches Err(error) ==> error.kind == ErrorKind::PreconditionFailed,
        result matches Ok(production) ==> {
            &&& add_all(
                production.added@,
                action.added_data_files@,
                action.added_delete_files@,
                snapshot_id,
            )
            &&& production.operation.removed_paths == action.removed_paths
            &&& production.key_metadata == action.key_metadata
            &&& action.commit_uuid matches Some(id) ==> production.commit_uuid == id
            &&& action.commit_uuid is None ==> call_ensures(
                Uuid::now_v7,
                (),
                production.commit_uuid,
            )
            &&& publishes(
                commit,
                table,
                Operation::Replace,
                action.snapshot_properties,
                snapshot_id,
                sequence_number,
                path,
            )
        },
{
    lemma_checks_keep_the_commit(commits, commits.len() - 1);
    lemma_empty_properties(action.snapshot_properties@);
    if let Ok(production) = result {
        law_production_takes_over_the_commit(
            commits.last(),
            snapshot_id,
            sequence_number,
            production,
        );
    }
}

/// A map is empty if and only if it is the empty map.
proof fn lemma_empty_properties(properties: Map<String, String>)
    ensures
        properties.is_empty() <==> properties == Map::<String, String>::empty(),
{
    if properties.is_empty() {
        assert(properties =~= Map::<String, String>::empty());
    }
}

/// What a published commit demands is met by a table exactly if it has the identity and the
/// current snapshot of the table that was committed to, and so by that table itself.
proof fn lemma_published_on_the_same_state_only(
    commit: ActionCommit,
    table: TableMetadata,
    operation: Operation,
    properties: std::collections::HashMap<String, String>,
    snapshot_id: i64,
    sequence_number: i64,
    path: String,
    later: TableMetadata,
)
    requires
        publishes(
            commit,
            table,
            operation,
            properties,
            snapshot_id,
            sequence_number,
            path,
        ),
    ensures
        meets_all(later, commit.requirements@) <==> later.uuid == table.uuid
            && later.current_snapshot_id == table.current_snapshot_id,
{
    if meets_all(later, commit.requirements@) {
        assert(commit.requirements@[0].is_met_by(later));
        assert(commit.requirements@[1].is_met_by(later));
    }
}

/// A catalog takes an append on a table exactly if the table has the identity and the current
/// snapshot of the table that the append was committed to, and so on that table itself.
pub proof fn law_append_is_taken_on_the_same_state_only(
    action: FastAppendAction,
    table: TableMetadata,
    commits: Seq<SnapshotCommit<FastAppendOperation>>,
    snapshot_id: i64,
    sequence_number: i64,
    production: Production<FastAppendOperation>,
    path: String,
    commit: ActionCommit,
    later: TableMetadata,
)
    requires
        checks_passed(commits),
        call_ensures(FastAppendAction::commit, (action, &table), commits[0]),
        is_ready(commits.last()),
        call_ensures(
            SnapshotCommit::<FastAppendOperation>::produce,
            (commits.last(), snapshot_id, sequence_number),
            Ok::<Production<FastAppendOperation>, Error>(production),
        ),
        call_ensures(Production::<FastAppendOperation>::finish, (production, path), commit),
    ensures
        meets_all(later, commit.requirements@) <==> later.uuid == table.uuid
            && later.current_snapshot_id == table.current_snapshot_id,
        meets_all(table, commit.requirements@),
{
    law_append_from_action_to_catalog(
        action,
        table,
        commits,
        snapshot_id,
        sequence_number,
        Ok(production),
        path,
        commit,
    );
    lemma_published_on_the_same_state_only(
        commit,
        table,
        Operation::Append,
        action.snapshot_properties,
        snapshot_id,
        sequence_number,
        path,
        later,
    );
    lemma_published_on_the_same_state_only(
        commit,
        table,
        Operation::Append,
        action.snapshot_properties,
        snapshot_id,
        sequence_number,
        path,
        table,
    );
}

/// A catalog takes a rewrite on a table exactly if the table has the identity and the current
/// snapshot of the table that the rewrite was committed to, and so on that table itself.
pub proof fn law_rewrite_is_taken_on_the_same_state_only(
    action: RewriteFilesAction,
    table: TableMetadata,
    commits: Seq<SnapshotCommit<RewriteFilesOperation>>,
    snapshot_id: i64,
    sequence_number: i64,
    production: Production<RewriteFilesOperation>,
    path: String,
    commit: ActionCommit,
    later: TableMetadata,
)
    requires
        checks_passed(commits),
        call_ensures(RewriteFilesAction::commit, (action, &table), commits[0]),
        is_ready(commits.last()),
        call_ensures(
            SnapshotCommit::<RewriteFilesOperation>::produce,
            (commits.last(), snapshot_id, sequence_number),
            Ok::<Production<RewriteFilesOperation>, Error>(production),
        ),
        call_ensures(Production::<RewriteFilesOperation>::finish, (production, path), commit),
    ensures
        meets_all(later, commit.requirements@) <==> later.uuid == table.uuid
            && later.current_snapshot_id == table.current_snapshot_id,
        meets_all(table, commit.requirements@),
{
    law_rewrite_from_action_to_catalog(
        action,
        table,
        commits,
        snapshot_id,
        sequence_number,
        Ok(production),
        path,
        commit,
    );
    lemma_published_on_the_same_state_only(
        commit,
        table,
        Operation::Replace,
        action.snapshot_properties,
        snapshot_id,
        sequence_number,
        path,
        later,
    );
    lemma_published_on_the_same_state_only(
        commit,
        table,
        Operation::Replace,
        action.snapshot_properties,
        snapshot_id,
        sequence_number,
        path,
        table,
    );
}

/// Whether two commits are the same but for their identifiers.
pub open spec fn same_but_for_identifier<O>(a: SnapshotCommit<O>, b: SnapshotCommit<O>) -> bool {
    &&& a.operation == b.operation
    &&& a.check_duplicate == b.check_duplicate
    &&& a.step == b.step
    &&& a.producer.table == b.producer.table
    &&& a.producer.key_metadata == b.producer.key_metadata
    &&& a.producer.snapshot_properties == b.producer.snapshot_properties
    &&& a.producer.added_data_files == b.producer.added_data_files
    &&& a.producer.added_delete_files == b.producer.added_delete_files
}

/// Committing under a given identifier is committing, with that identifier in place of the
/// action's own.
pub proof fn law_append_commit_under_an_identifier(
    action: FastAppendAction,
    table: TableMetadata,
    commit: SnapshotCommit<FastAppendOperation>,
    commit_uuid: Uuid,
    identified: SnapshotCommit<FastAppendOperation>,
)
    requires
        call_ensures(FastAppendAction::commit, (action, &table), commit),
        call_ensures(FastAppendAction::commit_as, (action, &table, commit_uuid), identified),
    ensures
        identified.producer.commit_uuid == commit_uuid,
        same_but_for_identifier(identified, commit),
        identified.producer.table == table,
        identified.producer.added_data_files == action.added_data_files,
        identified.producer.added_delete_files == action.added_delete_files,
        identified.check_duplicate == action.check_duplicate,
{
}

/// Committing under a given identifier is committing, with that identifier in place of the
/// action's own.
pub proof fn law_rewrite_commit_under_an_identifier(
    action: RewriteFilesAction,
    table: TableMetadata,
    commit: SnapshotCommit<RewriteFilesOperation>,
    commit_uuid: Uuid,
    identified: SnapshotCommit<RewriteFilesOperation>,
)
    requires
        call_ensures(RewriteFilesAction::commit, (action, &table), commit),
        call_ensures(RewriteFilesAction::commit_as, (action, &table, commit_uuid), identified),
    ensures
        identified.producer.commit_uuid == commit_uuid,
        same_but_for_identifier(identified, commit),
        identified.producer.table == table,
        identified.producer.added_data_files == action.added_data_files,
        identified.producer.added_delete_files == action.added_delete_files,
        identified.operation.removed_paths == action.removed_paths,
        !identified.check_duplicate,
{
}

/// An append is recorded as an append and a rewrite as a replacement, and neither records any file
/// as deleted.
pub proof fn law_operations_are_recorded(
    append: FastAppendOperation,
    append_kind: Operation,
    append_deletes: Vec<ManifestEntry>,
    rewrite: RewriteFilesOperation,
    rewrite_kind: Operation,
    rewrite_deletes: Vec<ManifestEntry>,
)
    requires
        call_ensures(
            <FastAppendOperation as SnapshotProduceOperation>::operation,
            (&append,),
            append_kind,
        ),
        call_ensures(
            <FastAppendOperation as SnapshotProduceOperation>::delete_entries,
            (&append,),
            append_deletes,
        ),
        call_ensures(
            <RewriteFilesOperation as SnapshotProduceOperation>::operation,
            (&rewrite,),
            rewrite_kind,
        ),
        call_ensures(
            <RewriteFilesOperation as SnapshotProduceOperation>::delete_entries,
            (&rewrite,),
            rewrite_deletes,
        ),
    ensures
        append_kind == Operation::Append,
        append_deletes@.len() == 0,
        rewrite_kind == Operation::Replace,
        rewrite_deletes@.len() == 0,
{
}

/// An append keeps exactly the manifests of the prior snapshot that are marked as holding added or
/// existing files, unchanged and in order; without a prior snapshot there is none to keep.
pub proof fn law_append_keeps_the_manifests_in_use(
    operation: FastAppendOperation,
    list: Vec<ManifestFile>,
    existing: Vec<ManifestFile>,
    of_nothing: Vec<ManifestFile>,
)
    requires
        call_ensures(FastAppendOperation::existing_manifest, (&operation, Some(list)), existing),
        call_ensures(
            FastAppendOperation::existing_manifest,
            (&operation, None::<Vec<ManifestFile>>),
            of_nothing,
        ),
    ensures
        existing@ == list@.filter(
            |manifest: ManifestFile| manifest.has_added_files || manifest.has_existing_files,
        ),
        of_nothing@.len() == 0,
{
}

/// Keeping manifests looks at each manifest by itself: what is kept of two lists, one after the
/// other, is what is kept of the first and then what is kept of the second.
pub proof fn law_append_keeps_manifests_one_by_one(
    operation: FastAppendOperation,
    first: Vec<ManifestFile>,
    kept_first: Vec<ManifestFile>,
    second: Vec<ManifestFile>,
    kept_second: Vec<ManifestFile>,
    both: Vec<ManifestFile>,
    kept_both: Vec<ManifestFile>,
)
    requires
        both@ == first@ + second@,
        call_ensures(FastAppendOperation::existing_manifest, (&operation, Some(first)), kept_first),
        call_ensures(
            FastAppendOperation::existing_manifest,
            (&operation, Some(second)),
            kept_second,
        ),
        call_ensures(FastAppendOperation::existing_manifest, (&operation, Some(both)), kept_both),
    ensures
        kept_both@ == kept_first@ + kept_second@,
{
    Seq::filter_distributes_over_add(
        first@,
        second@,
        |manifest: ManifestFile| manifest.has_added_files || manifest.has_existing_files,
    );
}

} // verus!
