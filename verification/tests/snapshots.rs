use std::collections::HashMap;

use iceberg_transaction::append::{FastAppendAction, FastAppendOperation};
use iceberg_transaction::error::{Error, ErrorKind};
use iceberg_transaction::manifest::{
    DataContentType, DataFile, DataFileFormat, ManifestContentType, ManifestEntry,
    ManifestFile, ManifestStatus, NewManifest,
};
use iceberg_transaction::rewrite::{RewriteFilesAction, RewriteFilesOperation};
use iceberg_transaction::schema::Literal;
use iceberg_transaction::snapshot::{
    manifest_list, CommitStep, CommitTask, Production, SnapshotCommit, SnapshotProduceOperation,
};
use iceberg_transaction::table::{
    ActionCommit, Operation, Snapshot, TableMetadata, TableRequirement, TableUpdate, MAIN_BRANCH,
};
use iceberg_transaction::transaction::{Action, ApplyTransactionAction, Transaction};
use iceberg_transaction::walk::{plan_manifest, Plan, WalkTask};
use uuid::Uuid;

/// A table whose files are kept in memory.
struct MemoryTable {
    metadata: TableMetadata,
    /// Whether the table is partitioned by one column of type long.
    partitioned_by_long: bool,
    manifests: HashMap<String, Vec<ManifestEntry>>,
    lists: HashMap<String, Vec<ManifestFile>>,
    current: Option<Snapshot>,
    last_sequence_number: i64,
    log: Vec<String>,
}

impl MemoryTable {
    fn new(partitioned_by_long: bool) -> MemoryTable {
        MemoryTable {
            metadata: TableMetadata {
                uuid: Uuid::from_u128(0x9c12d441_03fe_4693_9a96_a0705ddf69c1),
                current_schema_id: 0,
                last_column_id: 3,
                current_snapshot_id: None,
            },
            partitioned_by_long,
            manifests: HashMap::new(),
            lists: HashMap::new(),
            current: None,
            last_sequence_number: 34,
            log: Vec::new(),
        }
    }

    fn location(&self) -> &'static str {
        "memory:///warehouse/public/orders"
    }

    fn prior(&self) -> Option<Vec<ManifestFile>> {
        self.current
            .as_ref()
            .map(|snapshot| self.lists[&snapshot.manifest_list].clone())
    }

    fn load_manifest_list(&self) -> Vec<ManifestFile> {
        self.prior().unwrap()
    }

    /// The entries of a manifest; an added entry inherits the sequence number of its manifest.
    fn load_manifest(&self, manifest: &ManifestFile) -> Result<Vec<ManifestEntry>, Error> {
        let stored = match self.manifests.get(&manifest.manifest_path) {
            Some(stored) => stored,
            None => return Err(Error::new(ErrorKind::Unexpected, "no such manifest")),
        };
        let mut entries = stored.clone();
        for entry in &mut entries {
            if entry.status == ManifestStatus::Added && entry.sequence_number.is_none() {
                entry.sequence_number = Some(manifest.sequence_number);
                entry.file_sequence_number = Some(manifest.sequence_number);
            }
        }
        Ok(entries)
    }

    fn write_manifest(&mut self, manifest: &NewManifest) -> ManifestFile {
        let path = format!("{}/metadata/m{}.avro", self.location(), self.manifests.len());
        self.manifests.insert(path.clone(), manifest.entries.clone());
        let holds = |status| manifest.entries.iter().any(|entry| entry.status == status);
        ManifestFile {
            manifest_path: path,
            content: manifest.content,
            sequence_number: self.last_sequence_number + 1,
            has_added_files: holds(ManifestStatus::Added),
            has_existing_files: holds(ManifestStatus::Existing),
        }
    }

    fn write_manifest_list(&mut self, list: Vec<ManifestFile>) -> String {
        let path = format!("{}/metadata/snap-{}.avro", self.location(), self.lists.len());
        self.lists.insert(path.clone(), list);
        path
    }

    fn validate_added_files(&self, files: &[DataFile]) -> Result<(), Error> {
        for file in files {
            let fits = if self.partitioned_by_long {
                matches!(file.partition[..], [None] | [Some(Literal::Long(_))])
            } else {
                file.partition.is_empty()
            };
            if file.partition_spec_id != 0 || !fits {
                return Err(Error::new(
                    ErrorKind::DataInvalid,
                    "Partition value is not compatible with partition type",
                ));
            }
        }
        Ok(())
    }

    fn validate_duplicate_files(&self, files: &[DataFile]) -> Result<(), Error> {
        for manifest in self.prior().unwrap_or_default() {
            for entry in self.load_manifest(&manifest)? {
                if entry.status != ManifestStatus::Deleted
                    && files.iter().any(|f| f.file_path == entry.data_file.file_path)
                {
                    return Err(Error::new(
                        ErrorKind::DataInvalid,
                        "Cannot add files that are already referenced by table",
                    ));
                }
            }
        }
        Ok(())
    }

    fn run_checks<O>(&mut self, mut commit: SnapshotCommit<O>) -> Result<Production<O>, Error> {
        loop {
            let outcome = match commit.task() {
                CommitTask::ValidateAddedFiles(files) => {
                    self.log.push(format!("validate {}", files.len()));
                    self.validate_added_files(files)
                }
                CommitTask::ValidateDuplicateFiles(producer) => {
                    self.log.push("duplicates".to_string());
                    let mut files = producer.added_data_files.clone();
                    files.extend(producer.added_delete_files.clone());
                    self.validate_duplicate_files(&files)
                }
                CommitTask::Produce => break,
            };
            commit = commit.checked(outcome)?;
        }
        let snapshot_id = 1000 + self.lists.len() as i64;
        commit.produce(snapshot_id, self.last_sequence_number + 1)
    }

    fn finish<O: SnapshotProduceOperation>(
        &mut self,
        production: Production<O>,
        existing: Vec<ManifestFile>,
    ) -> ActionCommit {
        assert!(production.operation.delete_entries().is_empty());
        let mut added = Vec::new();
        for manifest in &production.added {
            added.push(self.write_manifest(manifest));
        }
        let path = self.write_manifest_list(manifest_list(existing, added));
        production.finish(path)
    }

    fn run_append(&mut self, action: FastAppendAction) -> Result<ActionCommit, Error> {
        let production = self.run_checks(action.commit(&self.metadata))?;
        let existing = production.operation.existing_manifest(self.prior());
        Ok(self.finish(production, existing))
    }

    fn run_rewrite(&mut self, action: RewriteFilesAction) -> Result<ActionCommit, Error> {
        let production = self.run_checks(action.commit(&self.metadata))?;
        let existing = self.run_walk(&production.operation)?;
        Ok(self.finish(production, existing))
    }

    fn run_walk(&mut self, operation: &RewriteFilesOperation) -> Result<Vec<ManifestFile>, Error> {
        let mut walk = operation.existing_manifest(self.prior());
        loop {
            walk = match walk.task() {
                WalkTask::Load(manifest) => {
                    let outcome = self.load_manifest(manifest);
                    walk.loaded(outcome)?
                }
                WalkTask::Write(manifest) => {
                    let written = self.write_manifest(manifest);
                    walk.written(Ok(written))?
                }
                WalkTask::Finish => break,
            };
        }
        Ok(walk.finish())
    }

    /// Runs the actions of a transaction one after the other.
    fn commit(&mut self, tx: Transaction) -> Result<(), Error> {
        for action in tx.actions {
            let commit = match action {
                Action::FastAppend(action) => self.run_append(action)?,
                Action::RewriteFiles(action) => self.run_rewrite(action)?,
                Action::UpdateSchema(action) => action.commit(&self.metadata)?,
            };
            for update in commit.updates {
                if let TableUpdate::AddSnapshot { snapshot } = update {
                    self.metadata.current_snapshot_id = Some(snapshot.snapshot_id);
                    self.last_sequence_number = snapshot.sequence_number;
                    self.current = Some(snapshot);
                }
            }
        }
        Ok(())
    }
}

fn data_file(path: &str, record_count: u64, byte_size: u64) -> DataFile {
    DataFile {
        content: DataContentType::Data,
        file_path: path.to_string(),
        file_format: DataFileFormat::Parquet,
        record_count,
        file_size_in_bytes: byte_size,
        partition_spec_id: 0,
        partition: vec![],
        equality_ids: None,
    }
}

fn partitioned_file(path: &str, value: Literal) -> DataFile {
    DataFile {
        partition: vec![Some(value)],
        ..data_file(path, 1, 100)
    }
}

fn eq_delete_file(path: &str) -> DataFile {
    DataFile {
        content: DataContentType::EqualityDeletes,
        equality_ids: Some(vec![1]),
        ..data_file(path, 1, 64)
    }
}

fn entry(status: ManifestStatus, path: &str) -> ManifestEntry {
    ManifestEntry {
        status,
        snapshot_id: Some(7),
        sequence_number: Some(3),
        file_sequence_number: Some(2),
        data_file: data_file(path, 1, 1),
    }
}

fn manifest_file(path: &str, added: bool, existing: bool) -> ManifestFile {
    ManifestFile {
        manifest_path: path.to_string(),
        content: ManifestContentType::Data,
        sequence_number: 1,
        has_added_files: added,
        has_existing_files: existing,
    }
}

fn properties() -> HashMap<String, String> {
    let mut snapshot_properties = HashMap::new();
    snapshot_properties.insert("key".to_string(), "val".to_string());
    snapshot_properties
}

fn count(list: &[ManifestFile], content: ManifestContentType) -> usize {
    list.iter().filter(|m| m.content == content).count()
}

fn all_paths(table: &MemoryTable) -> Vec<String> {
    let mut paths = Vec::new();
    for manifest in table.load_manifest_list() {
        for entry in table.load_manifest(&manifest).unwrap() {
            paths.push(entry.data_file.file_path().to_string());
        }
    }
    paths.sort();
    paths
}

fn append(table: &mut MemoryTable, files: Vec<DataFile>) {
    let tx = Transaction::new(&table.metadata);
    let action = tx
        .fast_append()
        .with_check_duplicate(false)
        .add_data_files(files);
    let tx = action.apply(tx).unwrap();
    table.commit(tx).unwrap();
}

fn rewrite(table: &mut MemoryTable, added: Vec<DataFile>, removed: Vec<DataFile>) {
    let tx = Transaction::new(&table.metadata);
    let action = tx
        .rewrite_files()
        .add_data_files(added)
        .remove_data_files(removed);
    let tx = action.apply(tx).unwrap();
    table.commit(tx).unwrap();
}

#[test]
fn test_empty_data_append_action() {
    let mut table = MemoryTable::new(true);
    let tx = Transaction::new(&table.metadata);
    let action = tx.fast_append().add_data_files(vec![]);
    let err = table.run_append(action).err().unwrap();
    assert_eq!(err.kind, ErrorKind::PreconditionFailed);
}

#[test]
fn test_set_snapshot_properties() {
    let mut table = MemoryTable::new(true);
    let tx = Transaction::new(&table.metadata);
    let data_file = partitioned_file("test/1.parquet", Literal::Long(300));

    let action = tx
        .fast_append()
        .set_snapshot_properties(properties())
        .add_data_files(vec![data_file]);
    let updates = table.run_append(action).unwrap().updates;

    // Check customized properties is contained in snapshot summary properties.
    let new_snapshot = if let TableUpdate::AddSnapshot { snapshot } = &updates[0] {
        snapshot
    } else {
        unreachable!()
    };
    assert_eq!(
        new_snapshot.summary.additional_properties.get("key").unwrap(),
        "val"
    );
}

#[test]
fn test_append_snapshot_properties() {
    let mut table = MemoryTable::new(true);
    let tx = Transaction::new(&table.metadata);

    let action = tx.fast_append().set_snapshot_properties(properties());
    let updates = table.run_append(action).unwrap().updates;

    // Check customized properties is contained in snapshot summary properties.
    let new_snapshot = if let TableUpdate::AddSnapshot { snapshot } = &updates[0] {
        snapshot
    } else {
        unreachable!()
    };
    assert_eq!(
        new_snapshot.summary.additional_properties.get("key").unwrap(),
        "val"
    );
}

#[test]
fn test_fast_append_routes_equality_deletes_into_separate_manifest() {
    let mut table = MemoryTable::new(false);
    let data_file = data_file(&format!("{}/data/0001.parquet", table.location()), 7, 2048);
    let delete_file = eq_delete_file(&format!("{}/deletes/0001.parquet", table.location()));

    append(&mut table, vec![data_file.clone(), delete_file.clone()]);

    assert!(table.current.is_some(), "commit must produce a snapshot");
    let list = table.load_manifest_list();

    // Two manifests: one Data, one Deletes.
    assert_eq!(list.len(), 2);
    let mut content_types: Vec<ManifestContentType> = list.iter().map(|e| e.content).collect();
    content_types.sort_by_key(|c| match c {
        ManifestContentType::Data => 0,
        ManifestContentType::Deletes => 1,
    });
    assert_eq!(
        content_types,
        vec![ManifestContentType::Data, ManifestContentType::Deletes]
    );

    // Walk each manifest and confirm the right file landed in the right bucket.
    for manifest in &list {
        let entries = table.load_manifest(manifest).unwrap();
        assert_eq!(entries.len(), 1);
        let me = &entries[0];
        match manifest.content {
            ManifestContentType::Data => {
                assert_eq!(me.data_file.content_type(), DataContentType::Data);
                assert_eq!(me.data_file.record_count, 7);
            }
            ManifestContentType::Deletes => {
                assert_eq!(me.data_file.content_type(), DataContentType::EqualityDeletes);
                assert_eq!(me.data_file.equality_ids, Some(vec![1]));
            }
        }
    }
}

#[test]
fn test_fast_append_file_with_incompatible_partition_value() {
    let mut table = MemoryTable::new(true);
    let tx = Transaction::new(&table.metadata);
    let action = tx.fast_append();

    // check add data file with incompatible partition value
    let data_file = partitioned_file("test/3.parquet", Literal::String("test".to_string()));
    let action = action.add_data_files(vec![data_file.clone()]);

    assert!(table.run_append(action).is_err());
}

#[test]
fn test_fast_append() {
    let mut table = MemoryTable::new(true);
    let tx = Transaction::new(&table.metadata);
    let action = tx.fast_append();

    let data_file = partitioned_file("test/3.parquet", Literal::Long(300));
    let action = action.add_data_files(vec![data_file.clone()]);
    let commit = table.run_append(action).unwrap();
    let updates = commit.updates;
    let requirements = commit.requirements;

    // check updates and requirements
    assert!(
        matches!((&updates[0],&updates[1]), (TableUpdate::AddSnapshot { snapshot },TableUpdate::SetSnapshotRef { reference,ref_name }) if snapshot.snapshot_id == reference.snapshot_id && ref_name == MAIN_BRANCH)
    );
    assert_eq!(updates.len(), 2);
    assert_eq!(
        vec![
            TableRequirement::UuidMatch {
                uuid: table.metadata.uuid
            },
            TableRequirement::RefSnapshotIdMatch {
                ref_name: MAIN_BRANCH.to_string(),
                snapshot_id: table.metadata.current_snapshot_id
            }
        ],
        requirements
    );

    // check manifest list
    let new_snapshot = if let TableUpdate::AddSnapshot { snapshot } = &updates[0] {
        snapshot
    } else {
        unreachable!()
    };
    let list = table.lists[&new_snapshot.manifest_list].clone();
    assert_eq!(1, list.len());
    assert_eq!(list[0].sequence_number, new_snapshot.sequence_number);

    // check manifest
    let entries = table.load_manifest(&list[0]).unwrap();
    assert_eq!(1, entries.len());
    assert_eq!(
        new_snapshot.sequence_number,
        entries[0]
            .sequence_number
            .expect("Inherit sequence number by load manifest")
    );
    assert_eq!(new_snapshot.snapshot_id, entries[0].snapshot_id.unwrap());
    assert_eq!(data_file, entries[0].data_file);
    assert_eq!(new_snapshot.summary.operation, Operation::Append);
}

#[test]
fn rewrite_drops_all_files_in_manifest_and_swaps_in_new_one() {
    let mut table = MemoryTable::new(false);

    let f1 = data_file("memory:///warehouse/public/orders/data/1.parquet", 10, 1024);
    let f2 = data_file("memory:///warehouse/public/orders/data/2.parquet", 20, 2048);
    let f3 = data_file("memory:///warehouse/public/orders/data/3.parquet", 30, 3072);
    append(&mut table, vec![f1.clone(), f2.clone(), f3.clone()]);

    let compacted = data_file(
        "memory:///warehouse/public/orders/data/compact-0.parquet",
        60,
        5120,
    );
    rewrite(
        &mut table,
        vec![compacted.clone()],
        vec![f1.clone(), f2.clone(), f3.clone()],
    );

    let snap = table.current.as_ref().unwrap();
    assert_eq!(snap.summary.operation, Operation::Replace);

    let data_manifests: Vec<ManifestFile> = table
        .load_manifest_list()
        .into_iter()
        .filter(|m| m.content == ManifestContentType::Data)
        .collect();
    assert_eq!(data_manifests.len(), 1);

    let entries = table.load_manifest(&data_manifests[0]).unwrap();
    assert_eq!(entries.len(), 1);
    assert_eq!(entries[0].data_file.file_path(), compacted.file_path());
}

#[test]
fn rewrite_partial_manifest_keeps_survivors_as_existing() {
    let mut table = MemoryTable::new(false);

    let f1 = data_file("memory:///warehouse/public/orders/data/1.parquet", 10, 1024);
    let f2 = data_file("memory:///warehouse/public/orders/data/2.parquet", 20, 2048);
    let f3 = data_file("memory:///warehouse/public/orders/data/3.parquet", 30, 3072);
    append(&mut table, vec![f1.clone(), f2.clone(), f3.clone()]);
    let first_snapshot = table.metadata.current_snapshot_id;

    // Drop only f1, replace with a "smaller" compacted file. f2 and f3
    // survive in the rewritten manifest.
    let new_file = data_file(
        "memory:///warehouse/public/orders/data/compact-0.parquet",
        10,
        1024,
    );
    rewrite(&mut table, vec![new_file.clone()], vec![f1.clone()]);

    let snap = table.current.as_ref().unwrap();
    assert_eq!(snap.summary.operation, Operation::Replace);

    let data_manifests: Vec<ManifestFile> = table
        .load_manifest_list()
        .into_iter()
        .filter(|m| m.content == ManifestContentType::Data)
        .collect();
    // Two data manifests: rewritten survivor manifest + new added manifest.
    assert_eq!(data_manifests.len(), 2);

    let mut survivor_paths: Vec<String> = Vec::new();
    let mut added_paths: Vec<String> = Vec::new();
    for mf in &data_manifests {
        for entry in table.load_manifest(mf).unwrap() {
            match entry.status {
                ManifestStatus::Existing => {
                    assert_eq!(entry.snapshot_id, first_snapshot);
                    assert_eq!(entry.sequence_number, Some(35));
                    survivor_paths.push(entry.data_file.file_path().to_string());
                }
                ManifestStatus::Added => {
                    assert_eq!(entry.snapshot_id, table.metadata.current_snapshot_id);
                    assert_eq!(entry.sequence_number, Some(36));
                    added_paths.push(entry.data_file.file_path().to_string());
                }
                ManifestStatus::Deleted => {
                    panic!("unexpected Deleted status in new manifest list");
                }
            }
        }
    }
    survivor_paths.sort();
    let mut want_survivors = vec![f2.file_path().to_string(), f3.file_path().to_string()];
    want_survivors.sort();
    assert_eq!(survivor_paths, want_survivors);
    assert_eq!(added_paths, vec![new_file.file_path().to_string()]);
}

#[test]
fn rewrite_carries_forward_unaffected_delete_manifest() {
    let mut table = MemoryTable::new(false);

    let d1 = data_file("memory:///warehouse/public/orders/data/d1.parquet", 10, 1024);
    let d2 = data_file("memory:///warehouse/public/orders/data/d2.parquet", 20, 2048);
    let eq_delete = eq_delete_file("memory:///warehouse/public/orders/deletes/eq.parquet");
    append(&mut table, vec![d1.clone(), d2.clone(), eq_delete.clone()]);
    let before = table.load_manifest_list();

    // Rewrite: drop d1, keep d2 + eq_delete. Add a compacted file.
    let new_file = data_file(
        "memory:///warehouse/public/orders/data/compact-0.parquet",
        10,
        1024,
    );
    rewrite(&mut table, vec![new_file.clone()], vec![d1.clone()]);

    // Counts: 2 data manifests (rewritten survivors + new added) and
    // 1 delete manifest (unchanged carry-forward).
    let list = table.load_manifest_list();
    assert_eq!(count(&list, ManifestContentType::Data), 2);
    assert_eq!(count(&list, ManifestContentType::Deletes), 1);
    assert_eq!(list[1], before[1]);

    // Every survivor and added file is reachable.
    let mut want = vec![
        d2.file_path().to_string(),
        new_file.file_path().to_string(),
        eq_delete.file_path().to_string(),
    ];
    want.sort();
    assert_eq!(all_paths(&table), want);
}

#[test]
fn rewrite_with_no_removals_carries_prior_manifest() {
    let mut table = MemoryTable::new(false);
    let f1 = data_file("memory:///warehouse/public/orders/data/1.parquet", 10, 1024);
    append(&mut table, vec![f1.clone()]);
    let before = table.load_manifest_list();

    let f2 = data_file("memory:///warehouse/public/orders/data/2.parquet", 20, 2048);
    rewrite(&mut table, vec![f2.clone()], vec![]);

    let snap = table.current.as_ref().unwrap();
    assert_eq!(snap.summary.operation, Operation::Replace);

    let list = table.load_manifest_list();
    assert_eq!(count(&list, ManifestContentType::Data), 2);
    assert_eq!(list[0], before[0]);
}

#[test]
fn rewrite_with_empty_input_errors() {
    let mut table = MemoryTable::new(false);
    let f1 = data_file("memory:///warehouse/public/orders/data/1.parquet", 10, 1024);
    append(&mut table, vec![f1.clone()]);

    let tx = Transaction::new(&table.metadata);
    let action = tx.rewrite_files();
    let tx = action.apply(tx).unwrap();
    assert!(table.commit(tx).is_err());
}

#[test]
fn rewrite_with_removals_alone_errors() {
    let mut table = MemoryTable::new(false);
    append(&mut table, vec![data_file("a", 1, 1)]);
    let tx = Transaction::new(&table.metadata);
    let action = tx.rewrite_files().remove_paths(vec!["a".to_string()]);
    let err = table.run_rewrite(action).err().unwrap();
    assert_eq!(err.kind, ErrorKind::PreconditionFailed);
    assert_eq!(
        err.message(),
        "No added files or snapshot properties to make a snapshot of"
    );
}

#[test]
fn rewriting_again_carries_everything_forward() {
    let mut table = MemoryTable::new(false);
    let files = vec![data_file("a", 1, 1), data_file("b", 1, 1)];
    append(&mut table, files.clone());
    rewrite(&mut table, vec![data_file("c", 2, 2)], vec![files[0].clone()]);
    let before = table.load_manifest_list();
    rewrite(&mut table, vec![data_file("d", 2, 2)], vec![files[0].clone()]);
    let after = table.load_manifest_list();
    assert_eq!(after[..before.len()], before[..]);
    assert_eq!(all_paths(&table), vec!["b", "c", "d"]);
}

#[test]
fn removing_in_steps_keeps_what_removing_at_once_keeps() {
    let files = vec![data_file("a", 1, 1), data_file("b", 1, 1), data_file("c", 1, 1)];
    let added = vec![data_file("d", 1, 1), data_file("e", 1, 1)];

    let mut in_steps = MemoryTable::new(false);
    append(&mut in_steps, files.clone());
    rewrite(&mut in_steps, added[..1].to_vec(), vec![files[0].clone()]);
    rewrite(&mut in_steps, added[1..].to_vec(), vec![files[2].clone()]);

    let mut at_once = MemoryTable::new(false);
    append(&mut at_once, files.clone());
    rewrite(&mut at_once, added, vec![files[0].clone(), files[2].clone()]);

    assert_eq!(all_paths(&in_steps), vec!["b", "d", "e"]);
    assert_eq!(all_paths(&at_once), vec!["b", "d", "e"]);
}

#[test]
fn removal_is_by_exact_path() {
    let mut table = MemoryTable::new(false);
    append(&mut table, vec![data_file("data/1", 1, 1), data_file("data/10", 1, 1)]);
    let tx = Transaction::new(&table.metadata);
    let action = tx
        .rewrite_files()
        .remove_paths(vec!["data/1".to_string(), "data".to_string()])
        .add_data_files(vec![data_file("data/2", 1, 1)]);
    let tx = action.apply(tx).unwrap();
    table.commit(tx).unwrap();
    assert_eq!(all_paths(&table), vec!["data/10", "data/2"]);
}

#[test]
fn removing_files_and_removing_paths_agree() {
    let files = vec![data_file("a", 1, 1), data_file("b", 1, 1)];
    for by_path in [false, true] {
        let mut table = MemoryTable::new(false);
        append(&mut table, files.clone());
        append(&mut table, vec![data_file("c", 1, 1)]);
        let tx = Transaction::new(&table.metadata);
        let action = tx.rewrite_files().add_data_files(vec![data_file("d", 1, 1)]);
        let action = if by_path {
            action.remove_paths(vec!["b".to_string(), "a".to_string(), "a".to_string()])
        } else {
            action.remove_data_files(files.clone())
        };
        let tx = action.apply(tx).unwrap();
        table.commit(tx).unwrap();
        assert_eq!(all_paths(&table), vec!["c", "d"]);
        assert_eq!(table.load_manifest_list().len(), 2);
    }
}

#[test]
fn plans_cover_the_three_cases() {
    let tx = Transaction::new(&MemoryTable::new(false).metadata);
    let action = tx
        .rewrite_files()
        .remove_paths(vec!["a".to_string(), "b".to_string()]);
    let removed = &action.removed_paths;
    let m = manifest_file("m", true, false);
    let deleted = ManifestStatus::Deleted;
    let added = ManifestStatus::Added;

    let plan = plan_manifest(removed, m.clone(), vec![entry(added, "c")]);
    assert!(matches!(&plan, Plan::CarryForward(kept) if *kept == m));

    let plan = plan_manifest(removed, m.clone(), vec![entry(added, "b"), entry(deleted, "a")]);
    assert!(matches!(plan, Plan::DropEntirely));

    // A manifest without entries has no removed file.
    let plan = plan_manifest(removed, m.clone(), vec![]);
    assert!(matches!(&plan, Plan::CarryForward(kept) if *kept == m));

    let plan = plan_manifest(
        removed,
        m.clone(),
        vec![entry(added, "c"), entry(added, "a"), entry(deleted, "d")],
    );
    match plan {
        Plan::Rewrite(manifest) => {
            assert_eq!(manifest.content, ManifestContentType::Data);
            assert_eq!(
                manifest.entries,
                vec![
                    entry(ManifestStatus::Existing, "c"),
                    entry(ManifestStatus::Existing, "d")
                ]
            );
        }
        _ => panic!("a manifest with some removed files is rewritten"),
    }
}

#[test]
fn walk_without_prior_snapshot_is_over_at_once() {
    let tx = Transaction::new(&MemoryTable::new(false).metadata);
    let table = MemoryTable::new(false);
    let action = tx.rewrite_files().remove_paths(vec!["a".to_string()]);
    let commit = action.commit(&table.metadata);
    let walk = commit.operation.existing_manifest(None);
    assert!(matches!(walk.task(), WalkTask::Finish));
    assert!(walk.finish().is_empty());
}

#[test]
fn walk_ends_with_the_error_of_reading_or_writing() {
    let table = MemoryTable::new(false);
    let tx = Transaction::new(&table.metadata);
    let action = tx.rewrite_files().remove_paths(vec!["a".to_string()]);
    let commit = action.commit(&table.metadata);
    let list = vec![manifest_file("m", true, false)];

    let walk = commit.operation.existing_manifest(Some(list.clone()));
    assert!(matches!(walk.task(), WalkTask::Load(m) if *m == list[0]));
    let err = walk
        .loaded(Err(Error::new(ErrorKind::Unexpected, "unreadable")))
        .err()
        .unwrap();
    assert_eq!(err, Error::new(ErrorKind::Unexpected, "unreadable"));

    let walk = commit.operation.existing_manifest(Some(list));
    let entries = vec![
        entry(ManifestStatus::Added, "a"),
        entry(ManifestStatus::Added, "b"),
    ];
    let walk = walk.loaded(Ok(entries)).ok().unwrap();
    assert!(matches!(walk.task(), WalkTask::Write(_)));
    let err = walk
        .written(Err(Error::new(ErrorKind::Unexpected, "unwritable")))
        .err()
        .unwrap();
    assert_eq!(err, Error::new(ErrorKind::Unexpected, "unwritable"));
}

#[test]
fn append_leaves_out_manifests_without_files_in_use() {
    let list = vec![
        manifest_file("a", true, false),
        manifest_file("b", false, false),
        manifest_file("c", false, true),
        manifest_file("d", true, true),
    ];
    let existing = FastAppendOperation.existing_manifest(Some(list.clone()));
    assert_eq!(
        existing,
        vec![list[0].clone(), list[2].clone(), list[3].clone()]
    );
    assert!(FastAppendOperation.existing_manifest(None).is_empty());
    assert_eq!(FastAppendOperation.operation(), Operation::Append);
    assert!(FastAppendOperation.delete_entries().is_empty());
}

#[test]
fn append_keeps_prior_files_and_adds_new_ones() {
    let mut table = MemoryTable::new(false);
    append(&mut table, vec![data_file("a", 1, 1), eq_delete_file("x")]);
    append(&mut table, vec![data_file("b", 1, 1)]);
    assert_eq!(all_paths(&table), vec!["a", "b", "x"]);
    assert_eq!(table.load_manifest_list().len(), 3);
}

#[test]
fn files_are_told_apart_in_order() {
    let table = MemoryTable::new(false);
    let tx = Transaction::new(&table.metadata);
    let position = DataFile {
        content: DataContentType::PositionDeletes,
        ..data_file("p", 1, 1)
    };
    let files = vec![
        position.clone(),
        data_file("a", 1, 1),
        eq_delete_file("e"),
        data_file("b", 1, 1),
    ];
    let once = tx.fast_append().add_data_files(files.clone());
    let twice = tx
        .fast_append()
        .add_data_files(files[..1].to_vec())
        .add_data_files(files[1..].to_vec());
    for action in [once, twice] {
        assert_eq!(
            action.added_data_files,
            vec![files[1].clone(), files[3].clone()]
        );
        assert_eq!(
            action.added_delete_files,
            vec![files[0].clone(), files[2].clone()]
        );
    }
    let rewrite = tx.rewrite_files().add_data_files(files.clone());
    assert_eq!(rewrite.added_data_files.len(), 2);
    assert_eq!(rewrite.added_delete_files.len(), 2);
}

#[test]
fn duplicates_are_checked_last_and_only_when_asked() {
    let mut table = MemoryTable::new(false);
    append(&mut table, vec![data_file("a", 1, 1)]);
    assert_eq!(table.log, vec!["validate 1", "validate 0"]);
    table.log.clear();

    let tx = Transaction::new(&table.metadata);
    let action = tx.fast_append().add_data_files(vec![data_file("a", 1, 1)]);
    let err = table.run_append(action).err().unwrap();
    assert_eq!(err.kind, ErrorKind::DataInvalid);
    assert_eq!(
        err.message(),
        "Cannot add files that are already referenced by table"
    );
    assert_eq!(table.log, vec!["validate 1", "validate 0", "duplicates"]);
    table.log.clear();

    // A check that fails ends the commit.
    let misfit = partitioned_file("b", Literal::Long(1));
    let action = tx.fast_append().add_data_files(vec![misfit]);
    assert!(table.run_append(action).is_err());
    assert_eq!(table.log, vec!["validate 1"]);
    table.log.clear();

    // A rewrite never checks for duplicates.
    rewrite(&mut table, vec![data_file("a", 1, 1)], vec![]);
    assert_eq!(table.log, vec!["validate 1", "validate 0"]);
}

#[test]
fn commit_keeps_its_identifier_and_key_metadata() {
    let table = MemoryTable::new(false);
    let tx = Transaction::new(&table.metadata);
    let id = Uuid::from_u128(42);

    let commit = tx
        .fast_append()
        .set_commit_uuid(id)
        .set_key_metadata(vec![1, 2, 3])
        .commit(&table.metadata);
    assert_eq!(commit.producer.commit_uuid, id);
    assert_eq!(commit.producer.key_metadata, Some(vec![1, 2, 3]));
    assert_eq!(commit.step, CommitStep::ValidateDataFiles);
    assert!(commit.check_duplicate);

    let commit = tx
        .rewrite_files()
        .set_commit_uuid(id)
        .set_key_metadata(vec![4])
        .set_snapshot_properties(properties())
        .commit(&table.metadata);
    assert_eq!(commit.producer.commit_uuid, id);
    assert_eq!(commit.producer.key_metadata, Some(vec![4]));
    assert_eq!(commit.producer.snapshot_properties["key"], "val");
    assert!(!commit.check_duplicate);
}

#[test]
fn commit_without_identifier_gets_a_new_one() {
    let table = MemoryTable::new(false);
    let tx = Transaction::new(&table.metadata);
    let first = tx.fast_append().commit(&table.metadata);
    let second = tx.rewrite_files().commit(&table.metadata);
    assert_eq!(first.producer.commit_uuid.get_version_num(), 7);
    assert_eq!(second.producer.commit_uuid.get_version_num(), 7);
    assert!(first.producer.commit_uuid < second.producer.commit_uuid);
    let given = Uuid::from_u128(5);
    let third = tx.fast_append().commit_as(&table.metadata, given);
    assert_eq!(third.producer.commit_uuid, given);
    let fourth = tx.rewrite_files().commit_as(&table.metadata, given);
    assert_eq!(fourth.producer.commit_uuid, given);
}

#[test]
fn snapshot_commit_guards_the_snapshot_it_was_made_on() {
    let mut table = MemoryTable::new(false);
    append(&mut table, vec![data_file("a", 1, 1)]);
    assert_eq!(table.metadata.current_snapshot_id, Some(1000));
    let tx = Transaction::new(&table.metadata);
    let action = tx.fast_append().add_data_files(vec![data_file("b", 1, 1)]);
    let commit = table.run_append(action).unwrap();
    assert_eq!(
        commit.requirements[1],
        TableRequirement::RefSnapshotIdMatch {
            ref_name: "main".to_string(),
            snapshot_id: Some(1000)
        }
    );
}
