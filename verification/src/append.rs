//! The action that appends files to a table.

use std::collections::HashMap;
use uuid::Uuid;
use vstd::prelude::*;

use crate::manifest::{route_files, DataFile, ManifestEntry, ManifestFile};
#[allow(unused_imports)]
use crate::manifest::{are_apart, delete_files};
#[allow(unused_imports)]
use crate::snapshot::CommitStep;
use crate::snapshot::{SnapshotCommit, SnapshotProduceOperation, SnapshotProducer};
use crate::table::{Operation, TableMetadata};

verus! {

/// A transaction action that appends data files, equality delete files and position delete files
/// to the table in a single snapshot.
///
/// The files given to [`Self::add_data_files`] are told apart by what they hold: data files go
/// into a data manifest, delete files into a delete manifest. A manifest never mixes the two.
pub struct FastAppendAction {
    /// Whether to check that no added file is part of the table already.
    pub check_duplicate: bool,
    pub commit_uuid: Option<Uuid>,
    pub key_metadata: Option<Vec<u8>>,
    pub snapshot_properties: HashMap<String, String>,
    pub added_data_files: Vec<DataFile>,
    pub added_delete_files: Vec<DataFile>,
}

impl FastAppendAction {
    /// Whether the added files are told apart by what they hold.
    pub open spec fn is_routed(self) -> bool {
        are_apart(self.added_data_files@, self.added_delete_files@)
    }

    /// An action that appends nothing and checks for duplicates.
    pub(crate) fn new() -> (action: FastAppendAction)
        ensures
            action.check_duplicate,
            action.commit_uuid is None,
            action.key_metadata is None,
            action.snapshot_properties@ == Map::<String, String>::empty(),
            action.added_data_files@ == Seq::<DataFile>::empty(),
            action.added_delete_files@ == Seq::<DataFile>::empty(),
            action.is_routed(),
    {
        FastAppendAction {
            check_duplicate: true,
            commit_uuid: None,
            key_metadata: None,
            snapshot_properties: HashMap::new(),
            added_data_files: Vec::new(),
            added_delete_files: Vec::new(),
        }
    }

    /// Sets whether to check that no added file is part of the table already.
    pub fn with_check_duplicate(self, v: bool) -> (action: FastAppendAction)
        ensures
            action == (FastAppendAction { check_duplicate: v, ..self }),
    {
        let mut action = self;
        action.check_duplicate = v;
        action
    }

    /// Adds files to the snapshot, in order, told apart by what they hold.
    pub fn add_data_files(self, data_files: Vec<DataFile>) -> (action: FastAppendAction)
        ensures
            action.added_data_files@ == self.added_data_files@ + crate::manifest::data_files(
                data_files@,
            ),
            action.added_delete_files@ == self.added_delete_files@ + delete_files(data_files@),
            action == (FastAppendAction {
                added_data_files: action.added_data_files,
                added_delete_files: action.added_delete_files,
                ..self
            }),
            self.is_routed() ==> action.is_routed(),
    {
        let mut action = self;
        route_files(data_files, &mut action.added_data_files, &mut action.added_delete_files);
        action
    }

    /// Sets the identifier of the commit.
    pub fn set_commit_uuid(self, commit_uuid: Uuid) -> (action: FastAppendAction)
        ensures
            action == (FastAppendAction { commit_uuid: Some(commit_uuid), ..self }),
    {
        let mut action = self;
        action.commit_uuid = Some(commit_uuid);
        action
    }

    /// Sets the key metadata of the manifests that the commit writes.
    pub fn set_key_metadata(self, key_metadata: Vec<u8>) -> (action: FastAppendAction)
        ensures
            action == (FastAppendAction { key_metadata: Some(key_metadata), ..self }),
    {
        let mut action = self;
        action.key_metadata = Some(key_metadata);
        action
    }

    /// Sets the properties of the snapshot's summary, in place of any that were set before.
    pub fn set_snapshot_properties(self, snapshot_properties: HashMap<String, String>) -> (action:
        FastAppendAction)
        ensures
            action == (FastAppendAction { snapshot_properties, ..self }),
    {
        let mut action = self;
        action.snapshot_properties = snapshot_properties;
        action
    }

    /// The commit of the action to `table`, identified by `commit_uuid`, with no check made yet.
    pub open spec fn commit_of(self, table: TableMetadata, commit_uuid: Uuid) -> SnapshotCommit<
        FastAppendOperation,
    > {
        SnapshotCommit {
            producer: SnapshotProducer {
                table,
                commit_uuid,
                key_metadata: self.key_metadata,
                snapshot_properties: self.snapshot_properties,
                added_data_files: self.added_data_files,
                added_delete_files: self.added_delete_files,
            },
            operation: FastAppendOperation,
            check_duplicate: self.check_duplicate,
            step: CommitStep::ValidateDataFiles,
        }
    }

    /// Begins to commit the action to `table`, identified by the commit identifier that was set,
    /// or else by a new one that `Uuid::now_v7` draws.
    pub fn commit(self, table: &TableMetadata) -> (commit: SnapshotCommit<FastAppendOperation>)
        ensures
            commit == self.commit_of(*table, commit.producer.commit_uuid),
            commit.producer.table == *table,
            self.commit_uuid matches Some(commit_uuid) ==> commit.producer.commit_uuid
                == commit_uuid,
            self.commit_uuid is None ==> call_ensures(
                uuid::Uuid::now_v7,
                (),
                commit.producer.commit_uuid,
            ),
    {
        let commit_uuid: Uuid = match self.commit_uuid {
            Some(commit_uuid) => commit_uuid,
            None => Uuid::now_v7(),
        };
        self.commit_as(table, commit_uuid)
    }

    /// Begins to commit the action to `table`, identified by `commit_uuid` whatever was set.
    pub fn commit_as(self, table: &TableMetadata, commit_uuid: Uuid) -> (commit: SnapshotCommit<
        FastAppendOperation,
    >)
        ensures
            commit == self.commit_of(*table, commit_uuid),
            commit.producer.table == *table,
    {
        let producer = SnapshotProducer::new(
            table,
            commit_uuid,
            self.key_metadata,
            self.snapshot_properties,
            self.added_data_files,
            self.added_delete_files,
        );
        SnapshotCommit::start(producer, FastAppendOperation, self.check_duplicate)
    }
}

/// The snapshot of a [`FastAppendAction`].
pub struct FastAppendOperation;

impl SnapshotProduceOperation for FastAppendOperation {
    open spec fn kind(&self) -> Operation {
        Operation::Append
    }

    fn operation(&self) -> (operation: Operation) {
        Operation::Append
    }

    fn delete_entries(&self) -> (entries: Vec<ManifestEntry>) {
        Vec::new()
    }
}

/// The manifests of `list` that may hold files of the table, in order.
pub open spec fn manifests_in_use(list: Seq<ManifestFile>) -> Seq<ManifestFile> {
    list.filter(|manifest: ManifestFile| manifest.has_added_files || manifest.has_existing_files)
}

impl FastAppendOperation {
    /// The manifests of the new snapshot that hold files of the prior one, where `prior` is the
    /// manifest list of the prior snapshot, or nothing if there is no prior snapshot.
    pub fn existing_manifest(&self, prior: Option<Vec<ManifestFile>>) -> (existing: Vec<
        ManifestFile,
    >)
        ensures
            existing@ == match prior {
                Some(list) => manifests_in_use(list@),
                None => Seq::empty(),
            },
    {
        let mut existing: Vec<ManifestFile> = Vec::new();
        let list: Vec<ManifestFile> = match prior {
            Some(list) => list,
            None => return existing,
        };
        let ghost all = list@;
        assert(all.take(0) == Seq::<ManifestFile>::empty());
        for manifest in iter: list
            invariant
                iter.seq() == all,
                existing@ == manifests_in_use(all.take(iter.index() as int)),
        {
            proof {
                let n = iter.index() as int;
                reveal(Seq::filter);
                assert(all.take(n + 1).drop_last() == all.take(n));
                assert(all.take(n + 1).last() == manifest);
            }
            if manifest.has_added_files || manifest.has_existing_files {
                existing.push(manifest);
            }
        }
        assert(all.take(all.len() as int) == all);
        existing
    }
}

} // verus!
