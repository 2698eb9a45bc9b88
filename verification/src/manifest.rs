//! Data files, manifests, and what a list of manifests refers to.

use vstd::prelude::*;

use crate::schema::Literal;

verus! {

/// What a file holds: rows, or deletions of rows.
#[derive(Clone, Copy, Debug, PartialEq, Eq, Structural)]
pub enum DataContentType {
    /// Rows.
    Data,
    /// Deletions, each by the position of a row in a data file.
    PositionDeletes,
    /// Deletions, each by the values of the equality columns.
    EqualityDeletes,
}

/// The format of a file.
#[derive(Clone, Copy, Debug, PartialEq, Eq, Structural)]
pub enum DataFileFormat {
    Avro,
    Orc,
    Parquet,
    Puffin,
}

/// A file of rows or of deletions, as a manifest describes it. A file is known by its path, and
/// by its path anything else is found that a manifest records of it.
#[derive(Clone, Debug, PartialEq, Eq)]
pub struct DataFile {
    /// What the file holds.
    pub content: DataContentType,
    /// Where the file is stored.
    pub file_path: String,
    /// The format of the file.
    pub file_format: DataFileFormat,
    /// How many rows or deletions the file holds.
    pub record_count: u64,
    /// The size of the file.
    pub file_size_in_bytes: u64,
    /// The partition spec that `partition` belongs to.
    pub partition_spec_id: i32,
    /// The partition tuple, one value per field of the partition spec.
    pub partition: Vec<Option<Literal>>,
    /// The columns by which an equality delete file identifies rows.
    pub equality_ids: Option<Vec<i32>>,
}

impl DataFile {
    /// Whether the file holds rows.
    pub open spec fn is_data(self) -> bool {
        self.content == DataContentType::Data
    }

    /// The path, as characters.
    pub open spec fn path(self) -> Seq<char> {
        self.file_path@
    }

    /// What the file holds.
    pub fn content_type(&self) -> (content: DataContentType)
        ensures
            content == self.content,
    {
        self.content
    }

    /// Where the file is stored.
    pub fn file_path(&self) -> (path: &str)
        ensures
            path@ == self.path(),
            path@ == self.file_path@,
    {
        self.file_path.as_str()
    }
}

/// The files of `files` that hold rows, in order.
pub open spec fn data_files(files: Seq<DataFile>) -> Seq<DataFile> {
    files.filter(|file: DataFile| file.is_data())
}

/// The files of `files` that hold deletions, in order.
pub open spec fn delete_files(files: Seq<DataFile>) -> Seq<DataFile> {
    files.filter(|file: DataFile| !file.is_data())
}

/// Whether all of `data` hold rows and all of `deletes` hold deletions.
pub open spec fn are_apart(data: Seq<DataFile>, deletes: Seq<DataFile>) -> bool {
    &&& forall|i: int| 0 <= i < data.len() ==> (#[trigger] data[i]).is_data()
    &&& forall|i: int| 0 <= i < deletes.len() ==> !(#[trigger] deletes[i]).is_data()
}

/// Sends each of `files` to the end of `data` or of `deletes`, by what it holds.
pub(crate) fn route_files(
    files: Vec<DataFile>,
    data: &mut Vec<DataFile>,
    deletes: &mut Vec<DataFile>,
)
    ensures
        final(data)@ == old(data)@ + data_files(files@),
        final(deletes)@ == old(deletes)@ + delete_files(files@),
        are_apart(old(data)@, old(deletes)@) ==> are_apart(final(data)@, final(deletes)@),
{
    let ghost all = files@;
    let ghost data_before = data@;
    let ghost deletes_before = deletes@;
    assert(all.take(0) == Seq::<DataFile>::empty());
    for file in iter: files
        invariant
            iter.seq() == all,
            data@ == data_before + data_files(all.take(iter.index() as int)),
            deletes@ == deletes_before + delete_files(all.take(iter.index() as int)),
            are_apart(data_before, deletes_before) ==> are_apart(data@, deletes@),
    {
        proof {
            let n = iter.index() as int;
            reveal(Seq::filter);
            assert(all.take(n + 1).drop_last() == all.take(n));
            assert(all.take(n + 1).last() == file);
        }
        match file.content_type() {
            DataContentType::Data => data.push(file),
            DataContentType::EqualityDeletes | DataContentType::PositionDeletes => deletes.push(
                file,
            ),
        }
    }
    assert(all.take(all.len() as int) == all);
}

/// The place of a file in the history of a table.
#[derive(Clone, Copy, Debug, PartialEq, Eq, Structural)]
pub enum ManifestStatus {
    /// The file was part of the table before the snapshot that wrote the manifest.
    Existing,
    /// The snapshot that wrote the manifest added the file.
    Added,
    /// The snapshot that wrote the manifest deleted the file.
    Deleted,
}

/// What the files of a manifest hold. A manifest never mixes the two.
#[derive(Clone, Copy, Debug, PartialEq, Eq, Structural)]
pub enum ManifestContentType {
    /// Rows.
    Data,
    /// Deletions.
    Deletes,
}

/// One line of a manifest: a file and its history.
#[derive(Clone, Debug, PartialEq, Eq)]
pub struct ManifestEntry {
    pub status: ManifestStatus,
    /// The snapshot that added the file, or that deleted it.
    pub snapshot_id: Option<i64>,
    /// The sequence number of the file's content; none while it is still to be inherited from
    /// the manifest.
    pub sequence_number: Option<i64>,
    /// The sequence number of the snapshot that added the file; none while it is still to be
    /// inherited from the manifest.
    pub file_sequence_number: Option<i64>,
    pub data_file: DataFile,
}

impl ManifestEntry {
    /// Whether the entry's file is part of the table.
    pub open spec fn is_alive(self) -> bool {
        self.status != ManifestStatus::Deleted
    }

    /// The same entry, marked as existing: the file and its history stay as they are.
    pub open spec fn as_existing(self) -> ManifestEntry {
        ManifestEntry { status: ManifestStatus::Existing, ..self }
    }
}

/// The entries, each marked as existing.
pub open spec fn as_existing(entries: Seq<ManifestEntry>) -> Seq<ManifestEntry> {
    entries.map_values(|entry: ManifestEntry| entry.as_existing())
}

/// The entries that are alive, in order.
pub open spec fn live(entries: Seq<ManifestEntry>) -> Seq<ManifestEntry> {
    entries.filter(|entry: ManifestEntry| entry.is_alive())
}

/// The entry that the snapshot `snapshot_id` adds `file` with. The sequence numbers are left to
/// be inherited from the manifest.
pub open spec fn added_entry(file: DataFile, snapshot_id: i64) -> ManifestEntry {
    ManifestEntry {
        status: ManifestStatus::Added,
        snapshot_id: Some(snapshot_id),
        sequence_number: None,
        file_sequence_number: None,
        data_file: file,
    }
}

/// The entries that the snapshot `snapshot_id` adds `files` with.
pub open spec fn added_entries(files: Seq<DataFile>, snapshot_id: i64) -> Seq<ManifestEntry> {
    files.map_values(|file: DataFile| added_entry(file, snapshot_id))
}

/// A stored manifest, as the manifest list of a snapshot describes it.
#[derive(Clone, Debug, PartialEq, Eq)]
pub struct ManifestFile {
    /// Where the manifest is stored.
    pub manifest_path: String,
    /// What the manifest's files hold.
    pub content: ManifestContentType,
    /// The sequence number of the snapshot that wrote the manifest.
    pub sequence_number: i64,
    /// Whether the manifest may hold entries marked as added.
    pub has_added_files: bool,
    /// Whether the manifest may hold entries marked as existing.
    pub has_existing_files: bool,
}

/// A manifest that is still to be written.
#[derive(Clone, Debug, PartialEq, Eq)]
pub struct NewManifest {
    /// What the manifest's files hold.
    pub content: ManifestContentType,
    pub entries: Vec<ManifestEntry>,
}

/// The contents of a manifest.
#[verifier::ext_equal]
pub struct ManifestContents {
    pub content: ManifestContentType,
    pub entries: Seq<ManifestEntry>,
}

impl ManifestContents {
    /// Whether every file holds what the manifest says its files hold.
    pub open spec fn is_uniform(self) -> bool {
        holds_only(self.content, self.entries)
    }
}

/// Whether the files of all `entries` hold `content`.
pub open spec fn holds_only(content: ManifestContentType, entries: Seq<ManifestEntry>) -> bool {
    forall|i: int|
        0 <= i < entries.len() ==> ((#[trigger] entries[i]).data_file.is_data() <==> content
            == ManifestContentType::Data)
}

impl View for NewManifest {
    type V = ManifestContents;

    open spec fn view(&self) -> ManifestContents {
        ManifestContents { content: self.content, entries: self.entries@ }
    }
}

impl NewManifest {
    /// A manifest that carries `survivors` over from an older one: each is marked as existing
    /// and keeps its snapshot id and its sequence numbers.
    pub fn existing(survivors: Vec<ManifestEntry>, content: ManifestContentType) -> (manifest:
        NewManifest)
        ensures
            manifest@ == (ManifestContents { content, entries: as_existing(survivors@) }),
            manifest.content == content,
            manifest.entries@.len() == survivors@.len(),
            forall|k: int|
                0 <= k < survivors@.len() ==> {
                    let entry = #[trigger] manifest.entries@[k];
                    &&& entry.status == ManifestStatus::Existing
                    &&& entry.snapshot_id == survivors@[k].snapshot_id
                    &&& entry.sequence_number == survivors@[k].sequence_number
                    &&& entry.file_sequence_number == survivors@[k].file_sequence_number
                    &&& entry.data_file == survivors@[k].data_file
                },
    {
        let ghost all = survivors@;
        let mut entries: Vec<ManifestEntry> = Vec::with_capacity(survivors.len());
        for survivor in iter: survivors
            invariant
                iter.seq() == all,
                entries@ == as_existing(all).take(iter.index() as int),
        {
            entries.push(ManifestEntry { status: ManifestStatus::Existing, ..survivor });
        }
        assert(entries@ == as_existing(all));
        NewManifest { content, entries }
    }

    /// A manifest by which the snapshot `snapshot_id` adds `files`.
    pub fn added(files: Vec<DataFile>, content: ManifestContentType, snapshot_id: i64) -> (manifest:
        NewManifest)
        ensures
            manifest@ == (ManifestContents {
                content,
                entries: added_entries(files@, snapshot_id),
            }),
            manifest.content == content,
            manifest.entries@.len() == files@.len(),
            forall|k: int|
                0 <= k < files@.len() ==> {
                    let entry = #[trigger] manifest.entries@[k];
                    &&& entry.status == ManifestStatus::Added
                    &&& entry.snapshot_id == Some(snapshot_id)
                    &&& entry.sequence_number is None
                    &&& entry.file_sequence_number is None
                    &&& entry.data_file == files@[k]
                },
    {
        let ghost all = files@;
        let mut entries: Vec<ManifestEntry> = Vec::with_capacity(files.len());
        for file in iter: files
            invariant
                iter.seq() == all,
                entries@ == added_entries(all, snapshot_id).take(iter.index() as int),
        {
            entries.push(
                ManifestEntry {
                    status: ManifestStatus::Added,
                    snapshot_id: Some(snapshot_id),
                    sequence_number: None,
                    file_sequence_number: None,
                    data_file: file,
                },
            );
        }
        assert(entries@ == added_entries(all, snapshot_id));
        NewManifest { content, entries }
    }
}

/// What is stored: the entries of each stored manifest.
pub type Store = spec_fn(ManifestFile) -> Seq<ManifestEntry>;

/// The entries of all the manifests of `list`, in the order of the list.
pub open spec fn entries_of(list: Seq<ManifestFile>, store: Store) -> Seq<ManifestEntry>
    decreases list.len(),
{
    if list.len() == 0 {
        Seq::empty()
    } else {
        store(list.first()) + entries_of(list.drop_first(), store)
    }
}

/// Whether some manifest of `list` has an entry for the file at `path`.
pub open spec fn refers_to(list: Seq<ManifestFile>, store: Store, path: Seq<char>) -> bool {
    exists|i: int|
        0 <= i < entries_of(list, store).len() && (#[trigger] entries_of(
            list,
            store,
        )[i]).data_file.file_path@ == path
}

/// The manifests of two lists, one after the other, hold what the first list's hold and then
/// what the second's hold.
pub(crate) proof fn lemma_entries_of_concat(
    a: Seq<ManifestFile>,
    b: Seq<ManifestFile>,
    store: Store,
)
    ensures
        entries_of(a + b, store) == entries_of(a, store) + entries_of(b, store),
    decreases a.len(),
{
    if a.len() == 0 {
        assert(a + b == b);
    } else {
        assert((a + b).first() == a.first());
        assert((a + b).drop_first() == a.drop_first() + b);
        lemma_entries_of_concat(a.drop_first(), b, store);
    }
}

} // verus!
