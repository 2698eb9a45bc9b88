//! The action that swaps files of a table for others.

use std::collections::HashMap;
use uuid::Uuid;
use vstd::hash_set::StringHashSet;
use vstd::prelude::*;

use crate::manifest::{route_files, DataFile, ManifestEntry, ManifestFile};
#[allow(unused_imports)]
use crate::manifest::{are_apart, delete_files};
#[allow(unused_imports)]
use crate::snapshot::CommitStep;
use crate::snapshot::{SnapshotCommit, SnapshotProduceOperation, SnapshotProducer};
use crate::table::{Operation, TableMetadata};
use crate::walk::ManifestWalk;
#[allow(unused_imports)]
use crate::walk::WalkView;

verus! {

/// A transaction action that drops files from the table and adds others in a single snapshot.
/// Compaction uses it to swap many small files for few large ones, with no state in between that
/// a reader could see.
///
/// The files to remove are known by their paths, which have to match exactly. Of the manifests of
/// the prior snapshot,
/// - those with no removed file carry forward unchanged;
/// - those with removed files only leave the manifest list;
/// - all others are rewritten: their survivors go into a new manifest, marked as existing, each
///   with the snapshot id and the sequence numbers it had.
///
/// The added files go into new manifests of their own, data files and delete files apart.
pub struct RewriteFilesAction {
    pub commit_uuid: Option<Uuid>,
    pub key_metadata: Option<Vec<u8>>,
    pub snapshot_properties: HashMap<String, String>,
    pub added_data_files: Vec<DataFile>,
    pub added_delete_files: Vec<DataFile>,
    /// The paths of the files to remove.
    pub removed_paths: StringHashSet,
}

/// The paths of `files`.
pub open spec fn paths_of(files: Seq<DataFile>) -> Set<Seq<char>> {
    files.map_values(|file: DataFile| file.path()).to_set()
}

/// The contents of `strings`.
pub open spec fn contents_of(strings: Seq<String>) -> Set<Seq<char>> {
    strings.map_values(|string: String| string@).to_set()
}

impl RewriteFilesAction {
    /// Whether the added files are told apart by what they hold.
    pub open spec fn is_routed(self) -> bool {
        are_apart(self.added_data_files@, self.added_delete_files@)
    }

    /// An action that removes nothing and adds nothing.
    pub(crate) fn new() -> (action: RewriteFilesAction)
        ensures
            action.commit_uuid is None,
            action.key_metadata is None,
            action.snapshot_properties@ == Map::<String, String>::empty(),
            action.added_data_files@ == Seq::<DataFile>::empty(),
            action.added_delete_files@ == Seq::<DataFile>::empty(),
            action.removed_paths@ == Set::<Seq<char>>::empty(),
            action.is_routed(),
    {
        RewriteFilesAction {
            commit_uuid: None,
            key_metadata: None,
            snapshot_properties: HashMap::new(),
            added_data_files: Vec::new(),
            added_delete_files: Vec::new(),
            removed_paths: StringHashSet::new(),
        }
    }

    /// Adds the files that the rewrite produced, in order, told apart by what they hold.
    pub fn add_data_files(self, data_files: Vec<DataFile>) -> (action: RewriteFilesAction)
        ensures
            action.added_data_files@ == self.added_data_files@ + crate::manifest::data_files(
                data_files@,
            ),
            action.added_delete_files@ == self.added_delete_files@ + delete_files(data_files@),
            action == (RewriteFilesAction {
                added_data_files: action.added_data_files,
                added_delete_files: action.added_delete_files,
                ..self
            }),
            self.is_routed() ==> action.is_routed(),
    {
        let mut action = self;
        route_files(data_files, &mut action.added_data_files, &mut action.added_delete_files);
        action
    }

    /// Marks the files at the paths of `files` as removed.
    pub fn remove_data_files(self, files: Vec<DataFile>) -> (action: RewriteFilesAction)
        ensures
            action.removed_paths@ == self.removed_paths@.union(paths_of(files@)),
            action == (RewriteFilesAction { removed_paths: action.removed_paths, ..self }),
    {
        let ghost all = files@;
        let ghost before = self.removed_paths@;
        let mut action = self;
        for file in iter: files
            invariant
                iter.seq() == all,
                action.removed_paths@ =~= before.union(paths_of(all.take(iter.index() as int))),
                action == (RewriteFilesAction { removed_paths: action.removed_paths, ..self }),
        {
            proof {
                let n = iter.index() as int;
                let path = |file: DataFile| file.path();
                all.take(n).map_values(path).lemma_push_to_set_commute(path(file));
                assert(all.take(n + 1).map_values(path) == all.take(n).map_values(path).push(
                    path(file),
                ));
            }
            action.removed_paths.insert(file.file_path);
        }
        assert(all.take(all.len() as int) == all);
        action
    }

    /// Marks the files at `paths` as removed.
    pub fn remove_paths(self, paths: Vec<String>) -> (action: RewriteFilesAction)
        ensures
            action.removed_paths@ == self.removed_paths@.union(contents_of(paths@)),
            action == (RewriteFilesAction { removed_paths: action.removed_paths, ..self }),
    {
        let ghost all = paths@;
        let ghost before = self.removed_paths@;
        let mut action = self;
        for path in iter: paths
            invariant
                iter.seq() == all,
                action.removed_paths@ =~= before.union(contents_of(all.take(iter.index() as int))),
                action == (RewriteFilesAction { removed_paths: action.removed_paths, ..self }),
        {
            proof {
                let n = iter.index() as int;
                let content = |string: String| string@;
                all.take(n).map_values(content).lemma_push_to_set_commute(content(path));
                assert(all.take(n + 1).map_values(content) == all.take(n).map_values(content).push(
                    content(path),
                ));
            }
            action.removed_paths.insert(path);
        }
        assert(all.take(all.len() as int) == all);
        action
    }

    /// Sets the identifier of the commit.
    pub fn set_commit_uuid(self, commit_uuid: Uuid) -> (action: RewriteFilesAction)
        ensures
            action == (RewriteFilesAction { commit_uuid: Some(commit_uuid), ..self }),
    {
        let mut action = self;
        action.commit_uuid = Some(commit_uuid);
        action
    }

    /// Sets the key metadata of the manifests that the commit writes.
    pub fn set_key_metadata(self, key_metadata: Vec<u8>) -> (action: RewriteFilesAction)
        ensures
            action == (RewriteFilesAction { key_metadata: Some(key_metadata), ..self }),
    {
        let mut action = self;
        action.key_metadata = Some(key_metadata);
        action
    }

    /// Sets the properties of the snapshot's summary, in place of any that were set before.
    pub fn set_snapshot_properties(self, snapshot_properties: HashMap<String, String>) -> (action:
        RewriteFilesAction)
        ensures
            action == (RewriteFilesAction { snapshot_properties, ..self }),
    {
        let mut action = self;
        action.snapshot_properties = snapshot_properties;
        action
    }

    /// The commit of the action to `table`, identified by `commit_uuid`, with no check made yet.
    /// A rewrite never checks for duplicates.
    pub open spec fn commit_of(self, table: TableMetadata, commit_uuid: Uuid) -> SnapshotCommit<
        RewriteFilesOperation,
    > {
        SnapshotCommit {
            producer: SnapshotProducer {
                table,
                commit_uuid,
                key_metadata: self.key_metadata,
                snapshot_properties: self.snapshot_properties,
                added_data_files: self.added_data_files,
                added_delete_files: self.added_delete_files,
            },
            operation: RewriteFilesOperation { removed_paths: self.removed_paths },
            check_duplicate: false,
            step: CommitStep::ValidateDataFiles,
        }
    }

    /// Begins to commit the action to `table`, identified by the commit identifier that was set,
    /// or else by a new one that `Uuid::now_v7` draws.
    pub fn commit(self, table: &TableMetadata) -> (commit: SnapshotCommit<RewriteFilesOperation>)
        ensures
            commit == self.commit_of(*table, commit.producer.commit_uuid),
            commit.producer.table == *table,
            self.commit_uuid matches Some(commit_uuid) ==> commit.producer.commit_uuid
                == commit_uuid,
            self.commit_uuid is None ==> call_ensures(
                uuid::Uuid::now_v7,
                (),
                commit.producer.commit_uuid,
            ),
    {
        let commit_uuid: Uuid = match self.commit_uuid {
            Some(commit_uuid) => commit_uuid,
            None => Uuid::now_v7(),
        };
        self.commit_as(table, commit_uuid)
    }

    /// Begins to commit the action to `table`, identified by `commit_uuid` whatever was set.
    pub fn commit_as(self, table: &TableMetadata, commit_uuid: Uuid) -> (commit: SnapshotCommit<
        RewriteFilesOperation,
    >)
        ensures
            commit == self.commit_of(*table, commit_uuid),
            commit.producer.table == *table,
    {
        let producer = SnapshotProducer::new(
            table,
            commit_uuid,
            self.key_metadata,
            self.snapshot_properties,
            self.added_data_files,
            self.added_delete_files,
        );
        SnapshotCommit::start(
            producer,
            RewriteFilesOperation { removed_paths: self.removed_paths },
            false,
        )
    }
}

/// The snapshot of a [`RewriteFilesAction`].
pub struct RewriteFilesOperation {
    /// The paths of the files to remove.
    pub removed_paths: StringHashSet,
}

impl SnapshotProduceOperation for RewriteFilesOperation {
    open spec fn kind(&self) -> Operation {
        Operation::Replace
    }

    fn operation(&self) -> (operation: Operation) {
        Operation::Replace
    }

    fn delete_entries(&self) -> (entries: Vec<ManifestEntry>) {
        Vec::new()
    }
}

impl RewriteFilesOperation {
    /// Begins the walk that gives the manifests of the new snapshot that hold files of the prior
    /// one, where `prior` is the manifest list of the prior snapshot, or nothing if there is no
    /// prior snapshot.
    pub fn existing_manifest(&self, prior: Option<Vec<ManifestFile>>) -> (walk: ManifestWalk<'_>)
        ensures
            walk@ == WalkView::start(
                self.removed_paths@,
                match prior {
                    Some(list) => list@,
                    None => Seq::empty(),
                },
            ),
            walk@.well_formed(),
    {
        let list: Vec<ManifestFile> = match prior {
            Some(list) => list,
            None => Vec::new(),
        };
        ManifestWalk::start(&self.removed_paths, list)
    }
}

} // verus!
