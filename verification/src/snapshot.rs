//! How an action that adds files becomes a new snapshot.
//!
//! A commit runs in two parts. [`SnapshotCommit`] says which checks the caller has to make on the
//! added files, and stops at the first that fails. [`SnapshotCommit::produce`] then gives a
//! [`Production`]: the manifests that the caller has to write for the added files, and in the end
//! the updates and requirements for the catalog.

use std::collections::HashMap;
use uuid::Uuid;
use vstd::prelude::*;

use crate::error::{Error, ErrorKind};
use crate::manifest::{DataFile, ManifestContentType, ManifestEntry, ManifestFile, NewManifest};
#[allow(unused_imports)]
use crate::manifest::{added_entries, ManifestContents};
use crate::table::{
    ActionCommit, Operation, Snapshot, SnapshotReference, Summary, TableMetadata, TableRequirement,
    TableUpdate, MAIN_BRANCH,
};

verus! {

/// `uuid::Uuid::now_v7` makes an identifier from the clock and from chance, so that nothing can
/// be said here of which one it is. That it carries version 7, and that one process gets them in
/// ascending order, is left unsaid: the bits of a `Uuid` are not visible here. The function panics
/// where the system clock stands before 1970, or where the system has no random bytes to give.
pub assume_specification[ uuid::Uuid::now_v7 ]() -> Uuid;

/// What sets one kind of snapshot apart from another.
pub trait SnapshotProduceOperation {
    /// What the snapshot does to the table.
    spec fn kind(&self) -> Operation;

    /// What the snapshot does to the table.
    fn operation(&self) -> (operation: Operation)
        ensures
            operation == self.kind(),
    ;

    /// The entries by which the snapshot records files as deleted. No kind of snapshot records
    /// any: a file that is removed is simply no longer referred to.
    fn delete_entries(&self) -> (entries: Vec<ManifestEntry>)
        ensures
            entries@ == Seq::<ManifestEntry>::empty(),
    ;
}

/// What a new snapshot is made of.
pub struct SnapshotProducer {
    pub table: TableMetadata,
    /// Identifies the commit.
    pub commit_uuid: Uuid,
    /// Goes into every manifest that the commit writes.
    pub key_metadata: Option<Vec<u8>>,
    pub snapshot_properties: HashMap<String, String>,
    pub added_data_files: Vec<DataFile>,
    pub added_delete_files: Vec<DataFile>,
}

impl SnapshotProducer {
    /// Whether there is anything to make a snapshot of: files, or at least properties.
    pub open spec fn adds_something(self) -> bool {
        ||| self.added_data_files@.len() > 0
        ||| self.added_delete_files@.len() > 0
        ||| !self.snapshot_properties@.is_empty()
    }

    /// A producer of a snapshot of `table`.
    pub fn new(
        table: &TableMetadata,
        commit_uuid: Uuid,
        key_metadata: Option<Vec<u8>>,
        snapshot_properties: HashMap<String, String>,
        added_data_files: Vec<DataFile>,
        added_delete_files: Vec<DataFile>,
    ) -> (producer: SnapshotProducer)
        ensures
            producer == (SnapshotProducer {
                table: *table,
                commit_uuid,
                key_metadata,
                snapshot_properties,
                added_data_files,
                added_delete_files,
            }),
    {
        SnapshotProducer {
            table: *table,
            commit_uuid,
            key_metadata,
            snapshot_properties,
            added_data_files,
            added_delete_files,
        }
    }
}

/// Where a commit stands.
#[derive(Clone, Copy, Debug, PartialEq, Eq, Structural)]
pub enum CommitStep {
    /// The added data files have to fit the table's partition spec.
    ValidateDataFiles,
    /// The added delete files have to fit the table's partition spec, by the same rules.
    ValidateDeleteFiles,
    /// No added file may be part of the table already.
    ValidateDuplicateFiles,
    /// The checks are over: the snapshot can be produced.
    Produce,
}

impl CommitStep {
    /// The step that follows once this one is passed.
    pub open spec fn next(self, check_duplicate: bool) -> CommitStep {
        match self {
            CommitStep::ValidateDataFiles => CommitStep::ValidateDeleteFiles,
            CommitStep::ValidateDeleteFiles => if check_duplicate {
                CommitStep::ValidateDuplicateFiles
            } else {
                CommitStep::Produce
            },
            CommitStep::ValidateDuplicateFiles => CommitStep::Produce,
            CommitStep::Produce => CommitStep::Produce,
        }
    }
}

/// What a commit waits for.
pub enum CommitTask<'a> {
    /// Whether these files fit the table's partition spec, to be handed to
    /// [`SnapshotCommit::checked`].
    ValidateAddedFiles(&'a Vec<DataFile>),
    /// Whether none of the producer's files is part of the table already, to be handed to
    /// [`SnapshotCommit::checked`].
    ValidateDuplicateFiles(&'a SnapshotProducer),
    /// Nothing: [`SnapshotCommit::produce`] begins to produce the snapshot.
    Produce,
}

/// A commit whose added files are being checked.
pub struct SnapshotCommit<O> {
    pub producer: SnapshotProducer,
    pub operation: O,
    /// Whether to check that no added file is part of the table already.
    pub check_duplicate: bool,
    pub step: CommitStep,
}

impl<O> SnapshotCommit<O> {
    /// A commit that has checked nothing yet.
    pub fn start(producer: SnapshotProducer, operation: O, check_duplicate: bool) -> (commit:
        SnapshotCommit<O>)
        ensures
            commit == (SnapshotCommit {
                producer,
                operation,
                check_duplicate,
                step: CommitStep::ValidateDataFiles,
            }),
    {
        SnapshotCommit { producer, operation, check_duplicate, step: CommitStep::ValidateDataFiles }
    }

    /// What the commit waits for.
    pub fn task(&self) -> (task: CommitTask<'_>)
        ensures
            task == match self.step {
                CommitStep::ValidateDataFiles => CommitTask::ValidateAddedFiles(
                    &self.producer.added_data_files,
                ),
                CommitStep::ValidateDeleteFiles => CommitTask::ValidateAddedFiles(
                    &self.producer.added_delete_files,
                ),
                CommitStep::ValidateDuplicateFiles => CommitTask::ValidateDuplicateFiles(
                    &self.producer,
                ),
                CommitStep::Produce => CommitTask::Produce,
            },
    {
        match self.step {
            CommitStep::ValidateDataFiles => CommitTask::ValidateAddedFiles(
                &self.producer.added_data_files,
            ),
            CommitStep::ValidateDeleteFiles => CommitTask::ValidateAddedFiles(
                &self.producer.added_delete_files,
            ),
            CommitStep::ValidateDuplicateFiles => CommitTask::ValidateDuplicateFiles(
                &self.producer,
            ),
            CommitStep::Produce => CommitTask::Produce,
        }
    }

    /// Goes on after the caller made the check that the commit waited for. A check that failed
    /// ends the commit with the error of the check.
    pub fn checked(self, outcome: Result<(), Error>) -> (next: Result<SnapshotCommit<O>, Error>)
        ensures
            match outcome {
                Ok(_) => next == Ok::<SnapshotCommit<O>, Error>(
                    SnapshotCommit { step: self.step.next(self.check_duplicate), ..self },
                ),
                Err(error) => next == Err::<SnapshotCommit<O>, Error>(error),
            },
    {
        match outcome {
            Err(error) => Err(error),
            Ok(_) => {
                let step: CommitStep = match self.step {
                    CommitStep::ValidateDataFiles => CommitStep::ValidateDeleteFiles,
                    CommitStep::ValidateDeleteFiles => {
                        if self.check_duplicate {
                            CommitStep::ValidateDuplicateFiles
                        } else {
                            CommitStep::Produce
                        }
                    },
                    CommitStep::ValidateDuplicateFiles | CommitStep::Produce => CommitStep::Produce,
                };
                Ok(SnapshotCommit { step, ..self })
            },
        }
    }
}

/// The manifests by which the snapshot `snapshot_id` adds files: one for the data files and one
/// for the delete files, each only if there are any.
pub open spec fn added_manifests(
    data: Seq<DataFile>,
    deletes: Seq<DataFile>,
    snapshot_id: i64,
) -> Seq<ManifestContents> {
    let of_data = ManifestContents {
        content: ManifestContentType::Data,
        entries: added_entries(data, snapshot_id),
    };
    let of_deletes = ManifestContents {
        content: ManifestContentType::Deletes,
        entries: added_entries(deletes, snapshot_id),
    };
    (if data.len() > 0 {
        seq![of_data]
    } else {
        seq![]
    }) + (if deletes.len() > 0 {
        seq![of_deletes]
    } else {
        seq![]
    })
}

/// A snapshot that is being produced.
pub struct Production<O> {
    pub operation: O,
    pub table: TableMetadata,
    pub commit_uuid: Uuid,
    pub key_metadata: Option<Vec<u8>>,
    pub snapshot_properties: HashMap<String, String>,
    pub snapshot_id: i64,
    pub sequence_number: i64,
    /// The manifests that are to be written for the added files.
    pub added: Vec<NewManifest>,
}

impl<O> SnapshotCommit<O> {
    /// Begins to produce the snapshot, under the given id and sequence number. That is refused
    /// where there is nothing to make a snapshot of.
    pub fn produce(self, snapshot_id: i64, sequence_number: i64) -> (result: Result<
        Production<O>,
        Error,
    >)
        requires
            self.step == CommitStep::Produce,
        ensures
            result is Ok <==> {
                ||| self.producer.added_data_files@.len() > 0
                ||| self.producer.added_delete_files@.len() > 0
                ||| !self.producer.snapshot_properties@.is_empty()
            },
            self.producer.adds_something() ==> {
                &&& result matches Ok(production)
                &&& production.operation == self.operation
                &&& production.table == self.producer.table
                &&& production.commit_uuid == self.producer.commit_uuid
                &&& production.key_metadata == self.producer.key_metadata
                &&& production.snapshot_properties == self.producer.snapshot_properties
                &&& production.snapshot_id == snapshot_id
                &&& production.sequence_number == sequence_number
                &&& production.added@.map_values(|manifest: NewManifest| manifest@)
                    == added_manifests(
                    self.producer.added_data_files@,
                    self.producer.added_delete_files@,
                    snapshot_id,
                )
            },
            !self.producer.adds_something() ==> {
                &&& result matches Err(error)
                &&& error.kind == ErrorKind::PreconditionFailed
                &&& error.message@ == "No added files or snapshot properties to make a snapshot of"@
            },
    {
        let producer = self.producer;
        let no_data: bool = producer.added_data_files.is_empty();
        let no_deletes: bool = producer.added_delete_files.is_empty();
        if no_data && no_deletes && producer.snapshot_properties.is_empty() {
            return Err(
                Error::new(
                    ErrorKind::PreconditionFailed,
                    "No added files or snapshot properties to make a snapshot of",
                ),
            );
        }
        let mut added: Vec<NewManifest> = Vec::new();
        if !no_data {
            added.push(
                NewManifest::added(
                    producer.added_data_files,
                    ManifestContentType::Data,
                    snapshot_id,
                ),
            );
        }
        if !no_deletes {
            added.push(
                NewManifest::added(
                    producer.added_delete_files,
                    ManifestContentType::Deletes,
                    snapshot_id,
                ),
            );
        }
        Ok(
            Production {
                operation: self.operation,
                table: producer.table,
                commit_uuid: producer.commit_uuid,
                key_metadata: producer.key_metadata,
                snapshot_properties: producer.snapshot_properties,
                snapshot_id,
                sequence_number,
                added,
            },
        )
    }
}

/// The manifests of the new snapshot: those that hold files of the prior one, and then those that
/// were written for the added files.
pub fn manifest_list(existing: Vec<ManifestFile>, added: Vec<ManifestFile>) -> (list: Vec<
    ManifestFile,
>)
    ensures
        list@ == existing@ + added@,
{
    let mut list = existing;
    let mut rest = added;
    list.append(&mut rest);
    list
}

/// Whether `updates` add the snapshot `snapshot` and set the main branch to it.
pub open spec fn adds_snapshot(updates: Seq<TableUpdate>, snapshot: Snapshot) -> bool {
    &&& updates.len() == 2
    &&& updates[0] == TableUpdate::AddSnapshot { snapshot }
    &&& updates[1] matches TableUpdate::SetSnapshotRef { ref_name, reference }
    &&& ref_name@ == MAIN_BRANCH@
    &&& reference.snapshot_id == snapshot.snapshot_id
}

/// Whether `requirements` say that the table has kept the identity and the snapshot that `table`
/// shows.
pub open spec fn guards_snapshot(
    requirements: Seq<TableRequirement>,
    table: TableMetadata,
) -> bool {
    &&& requirements.len() == 2
    &&& requirements[0] == TableRequirement::UuidMatch { uuid: table.uuid }
    &&& requirements[1] matches TableRequirement::RefSnapshotIdMatch { ref_name, snapshot_id }
    &&& ref_name@ == MAIN_BRANCH@
    &&& snapshot_id == table.current_snapshot_id
}

impl<O: SnapshotProduceOperation> Production<O> {
    /// The snapshot whose manifest list is stored at `manifest_list`.
    pub open spec fn snapshot(self, manifest_list: String) -> Snapshot {
        Snapshot {
            snapshot_id: self.snapshot_id,
            sequence_number: self.sequence_number,
            manifest_list,
            summary: Summary {
                operation: self.operation.kind(),
                additional_properties: self.snapshot_properties,
            },
        }
    }

    /// Ends the production, once the manifest list of the snapshot is stored at `manifest_list`.
    pub fn finish(self, manifest_list: String) -> (commit: ActionCommit)
        ensures
            adds_snapshot(commit.updates@, self.snapshot(manifest_list)),
            guards_snapshot(commit.requirements@, self.table),
    {
        let snapshot = Snapshot {
            snapshot_id: self.snapshot_id,
            sequence_number: self.sequence_number,
            manifest_list,
            summary: Summary {
                operation: self.operation.operation(),
                additional_properties: self.snapshot_properties,
            },
        };
        let updates: Vec<TableUpdate> = vec![
            TableUpdate::AddSnapshot { snapshot },
            TableUpdate::SetSnapshotRef {
                ref_name: MAIN_BRANCH.to_owned(),
                reference: SnapshotReference { snapshot_id: self.snapshot_id },
            },
        ];
        let requirements: Vec<TableRequirement> = vec![
            TableRequirement::UuidMatch { uuid: self.table.uuid },
            TableRequirement::RefSnapshotIdMatch {
                ref_name: MAIN_BRANCH.to_owned(),
                snapshot_id: self.table.current_snapshot_id,
            },
        ];
        ActionCommit::new(updates, requirements)
    }
}

} // verus!
