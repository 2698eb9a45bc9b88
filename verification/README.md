# iceberg_transaction

Transaction actions on Iceberg tables, verified with Verus.

- `FastAppendAction` appends data files and delete files in one snapshot.
- `RewriteFilesAction` swaps files for others in one snapshot, as compaction does.
- `UpdateSchemaAction` replaces the current schema.

The library decides; it reads and writes nothing. An action that makes a snapshot asks its caller,
step by step, for the checks, the manifests and the writes it needs, and ends with the updates and
requirements to hand to the catalog. `app/` runs these steps asynchronously against a table's
storage.

| module | holds |
| --- | --- |
| `manifest` | data files, manifest entries, manifests |
| `schema`, `table` | schemas, table metadata, updates and requirements |
| `append`, `rewrite`, `update_schema` | the three actions |
| `walk` | the walk over the prior manifests that drops files |
| `snapshot` | checks of a commit, production of a snapshot |
| `transaction` | transactions |
| `walk_laws`, `laws` | what holds of whole walks and whole commits |
