//! What holds of the actions as a whole.

use vstd::prelude::*;

#[allow(unused_imports)]
use crate::append::manifests_in_use;
#[allow(unused_imports)]
use crate::error::Error;
#[allow(unused_imports)]
use crate::manifest::{
    added_entries, are_apart, as_existing, data_files, delete_files, entries_of,
    lemma_entries_of_concat, live, refers_to, DataFile, ManifestEntry, ManifestFile, Store,
};
#[allow(unused_imports)]
use crate::rewrite::{contents_of, paths_of};
#[allow(unused_imports)]
use crate::snapshot::{added_manifests, guards_snapshot, CommitStep};
#[allow(unused_imports)]
use crate::table::{meets_all, TableMetadata, TableRequirement};
#[allow(unused_imports)]
use crate::update_schema::schema_requirements;
#[allow(unused_imports)]
use crate::walk::{is_removed, lemma_survivors_len, plan_of, survivors, PlanView};
#[allow(unused_imports)]
use crate::walk_laws::{
    asked_for, carried_over, law_walk_keeps_the_survivors, lemma_all_survive, lemma_plans_step,
    lemma_stored_as_step, stored_as,
};

verus! {

/// Telling files apart by what they hold loses none and doubles none: every file is in exactly
/// one of the two lists, as often as it was given.
pub proof fn law_routing_loses_nothing(files: Seq<DataFile>)
    ensures
        data_files(files).to_multiset().add(delete_files(files).to_multiset())
            == files.to_multiset(),
        data_files(files).len() + delete_files(files).len() == files.len(),
    decreases files.len(),
{
    broadcast use vstd::seq_lib::group_to_multiset_ensures;

    reveal(Seq::filter);
    if files.len() > 0 {
        let front = files.drop_last();
        law_routing_loses_nothing(front);
        assert(files == front.push(files.last()));
        assert(data_files(files).to_multiset().add(delete_files(files).to_multiset())
            =~= files.to_multiset());
    } else {
        assert(data_files(files).to_multiset().add(delete_files(files).to_multiset())
            =~= files.to_multiset());
    }
}

/// Adding files in two steps adds what adding them in one step does.
pub proof fn law_adding_in_steps(first: Seq<DataFile>, second: Seq<DataFile>)
    ensures
        data_files(first + second) == data_files(first) + data_files(second),
        delete_files(first + second) == delete_files(first) + delete_files(second),
{
    Seq::filter_distributes_over_add(first, second, |file: DataFile| file.is_data());
    Seq::filter_distributes_over_add(first, second, |file: DataFile| !file.is_data());
}

/// Removing files removes the same paths as removing their paths does.
pub proof fn law_removing_files_removes_their_paths(files: Seq<DataFile>, paths: Seq<String>)
    requires
        paths.len() == files.len(),
        forall|i: int| 0 <= i < files.len() ==> (#[trigger] paths[i])@ == files[i].path(),
    ensures
        contents_of(paths) == paths_of(files),
{
    assert(paths.map_values(|string: String| string@) == files.map_values(
        |file: DataFile| file.path(),
    ));
}

/// None of the manifests for added files is empty or mixes data files and delete files.
pub proof fn law_added_manifests_keep_data_and_deletes_apart(
    data: Seq<DataFile>,
    deletes: Seq<DataFile>,
    snapshot_id: i64,
)
    requires
        are_apart(data, deletes),
    ensures
        forall|k: int|
            0 <= k < added_manifests(data, deletes, snapshot_id).len() ==> {
                let manifest = #[trigger] added_manifests(data, deletes, snapshot_id)[k];
                manifest.is_uniform() && manifest.entries.len() > 0
            },
{
    assert(forall|i: int|
        0 <= i < data.len() ==> (#[trigger] added_entries(data, snapshot_id)[i]).data_file
            == data[i]);
    assert(forall|i: int|
        0 <= i < deletes.len() ==> (#[trigger] added_entries(deletes, snapshot_id)[i]).data_file
            == deletes[i]);
}

/// The manifests that were written for added files hold an entry for each of them, marked as
/// added by the snapshot, the data files before the delete files.
pub proof fn law_added_manifests_hold_the_added_files(
    data: Seq<DataFile>,
    deletes: Seq<DataFile>,
    snapshot_id: i64,
    added: Seq<ManifestFile>,
    store: Store,
)
    requires
        stored_as(added_manifests(data, deletes, snapshot_id), added, store),
    ensures
        entries_of(added, store) == added_entries(data, snapshot_id) + added_entries(
            deletes,
            snapshot_id,
        ),
{
    let asked = added_manifests(data, deletes, snapshot_id);
    let of_data = added_entries(data, snapshot_id);
    let of_deletes = added_entries(deletes, snapshot_id);
    reveal_with_fuel(entries_of, 3);
    if asked.len() > 0 {
        assert(added[0] == added.first());
        assert(store(added[0]) == asked[0].entries);
    }
    if asked.len() > 1 {
        assert(added[1] == added.drop_first().first());
        assert(store(added[1]) == asked[1].entries);
    }
    assert(entries_of(added, store) =~= of_data + of_deletes);
}

/// Whether the manifests of `list` that are marked as holding neither added nor existing files
/// hold no live entry.
pub open spec fn marks_are_true(list: Seq<ManifestFile>, store: Store) -> bool {
    forall|i: int|
        0 <= i < list.len() && !(#[trigger] list[i]).has_added_files
            && !list[i].has_existing_files ==> live(store(list[i])).len() == 0
}

/// The live entries of two lists of entries are those of the first and then those of the second.
proof fn lemma_live_concat(a: Seq<ManifestEntry>, b: Seq<ManifestEntry>)
    ensures
        live(a + b) == live(a) + live(b),
{
    Seq::filter_distributes_over_add(a, b, |entry: ManifestEntry| entry.is_alive());
}

/// Entries that are all alive are all live.
proof fn lemma_all_live(entries: Seq<ManifestEntry>)
    requires
        forall|i: int| 0 <= i < entries.len() ==> (#[trigger] entries[i]).is_alive(),
    ensures
        live(entries) == entries,
    decreases entries.len(),
{
    reveal(Seq::filter);
    if entries.len() > 0 {
        let front = entries.drop_last();
        assert(forall|i: int| 0 <= i < front.len() ==> front[i] == entries[i]);
        lemma_all_live(front);
        assert(entries == front.push(entries.last()));
    }
}

/// The entries of added files are live.
proof fn lemma_added_entries_live(files: Seq<DataFile>, snapshot_id: i64)
    ensures
        live(added_entries(files, snapshot_id)) == added_entries(files, snapshot_id),
{
    lemma_all_live(added_entries(files, snapshot_id));
}

/// The manifests in use hold all live entries of the list.
proof fn lemma_manifests_in_use(list: Seq<ManifestFile>, store: Store)
    requires
        marks_are_true(list, store),
    ensures
        live(entries_of(manifests_in_use(list), store)) == live(entries_of(list, store)),
    decreases list.len(),
{
    reveal(Seq::filter);
    if list.len() > 0 {
        let front = list.drop_last();
        let last = list.last();
        assert(forall|i: int| 0 <= i < front.len() ==> front[i] == list[i]);
        lemma_manifests_in_use(front, store);
        assert(list == front + seq![last]);
        lemma_entries_of_concat(front, seq![last], store);
        assert(entries_of(seq![last], store) =~= store(last)) by {
            reveal_with_fuel(entries_of, 2);
        }
        lemma_live_concat(entries_of(front, store), store(last));
        assert(list[list.len() - 1] == last);
        if last.has_added_files || last.has_existing_files {
            let kept = manifests_in_use(front);
            assert(manifests_in_use(list) == kept + seq![last]);
            lemma_entries_of_concat(kept, seq![last], store);
            lemma_live_concat(entries_of(kept, store), store(last));
        } else {
            assert(live(entries_of(front, store)) + live(store(last)) == live(
                entries_of(front, store),
            ));
        }
    }
}

/// An append keeps every live entry of the prior snapshot as it was, in order, and adds an entry
/// for each added file: nothing is lost and nothing else comes in. The manifests of the prior
/// snapshot have to be marked truly, as an append leaves out those that are marked as unused.
pub proof fn law_append_keeps_and_adds(
    list: Seq<ManifestFile>,
    store: Store,
    data: Seq<DataFile>,
    deletes: Seq<DataFile>,
    snapshot_id: i64,
    added: Seq<ManifestFile>,
)
    requires
        marks_are_true(list, store),
        stored_as(added_manifests(data, deletes, snapshot_id), added, store),
    ensures
        live(entries_of(manifests_in_use(list) + added, store)) == live(entries_of(list, store))
            + added_entries(data, snapshot_id) + added_entries(deletes, snapshot_id),
{
    let kept = manifests_in_use(list);
    let of_data = added_entries(data, snapshot_id);
    let of_deletes = added_entries(deletes, snapshot_id);
    lemma_manifests_in_use(list, store);
    lemma_entries_of_concat(kept, added, store);
    law_added_manifests_hold_the_added_files(data, deletes, snapshot_id, added, store);
    let before = entries_of(kept, store);
    assert(entries_of(kept + added, store) == before + (of_data + of_deletes));
    lemma_live_concat(before, of_data + of_deletes);
    lemma_live_concat(of_data, of_deletes);
    lemma_added_entries_live(data, snapshot_id);
    lemma_added_entries_live(deletes, snapshot_id);
    assert(live(before) + (of_data + of_deletes) =~= live(before) + of_data + of_deletes);
}

/// Marking entries as existing goes through the two parts of a list of entries.
proof fn lemma_as_existing_concat(a: Seq<ManifestEntry>, b: Seq<ManifestEntry>)
    ensures
        as_existing(a + b) == as_existing(a) + as_existing(b),
{
    assert(as_existing(a + b) =~= as_existing(a) + as_existing(b));
}

/// A rewrite swaps the removed files for the added ones: the manifests of the new snapshot hold
/// the entries of the prior one but for those of removed files, in order, each with the file, the
/// snapshot id and the sequence numbers it had, and after them an entry for each added file.
pub proof fn law_rewrite_swaps_entries(
    list: Seq<ManifestFile>,
    store: Store,
    removed: Set<Seq<char>>,
    written: Seq<ManifestFile>,
    data: Seq<DataFile>,
    deletes: Seq<DataFile>,
    snapshot_id: i64,
    added: Seq<ManifestFile>,
)
    requires
        stored_as(asked_for(list, store, removed), written, store),
        stored_as(added_manifests(data, deletes, snapshot_id), added, store),
    ensures
        ({
            let existing = carried_over(list, store, removed, written);
            &&& as_existing(entries_of(existing, store)) == as_existing(
                survivors(entries_of(list, store), removed),
            )
            &&& entries_of(existing + added, store) == entries_of(existing, store) + added_entries(
                data,
                snapshot_id,
            ) + added_entries(deletes, snapshot_id)
        }),
{
    let existing = carried_over(list, store, removed, written);
    let of_data = added_entries(data, snapshot_id);
    let of_deletes = added_entries(deletes, snapshot_id);
    law_walk_keeps_the_survivors(list, store, removed, written);
    lemma_entries_of_concat(existing, added, store);
    law_added_manifests_hold_the_added_files(data, deletes, snapshot_id, added, store);
    let kept = entries_of(existing, store);
    assert(kept + (of_data + of_deletes) =~= kept + of_data + of_deletes);
}

/// Whether `entries` have one for the file at `path`.
pub open spec fn has_path(entries: Seq<ManifestEntry>, path: Seq<char>) -> bool {
    exists|i: int| 0 <= i < entries.len() && (#[trigger] entries[i]).data_file.file_path@ == path
}

/// Marking entries as existing leaves their paths alone.
proof fn lemma_has_path_as_existing(entries: Seq<ManifestEntry>, path: Seq<char>)
    ensures
        has_path(as_existing(entries), path) <==> has_path(entries, path),
{
    if has_path(entries, path) {
        let i = choose|i: int|
            0 <= i < entries.len() && (#[trigger] entries[i]).data_file.file_path@ == path;
        assert(as_existing(entries)[i].data_file.file_path@ == path);
    }
    if has_path(as_existing(entries), path) {
        let i = choose|i: int|
            0 <= i < entries.len() && (#[trigger] as_existing(entries)[i]).data_file.file_path@
                == path;
        assert(entries[i].data_file.file_path@ == path);
    }
}

/// A path among two lists of entries is among one of them.
proof fn lemma_has_path_concat(a: Seq<ManifestEntry>, b: Seq<ManifestEntry>, path: Seq<char>)
    ensures
        has_path(a + b, path) <==> has_path(a, path) || has_path(b, path),
{
    if has_path(a, path) {
        let i = choose|i: int| 0 <= i < a.len() && (#[trigger] a[i]).data_file.file_path@ == path;
        assert((a + b)[i] == a[i]);
    }
    if has_path(b, path) {
        let i = choose|i: int| 0 <= i < b.len() && (#[trigger] b[i]).data_file.file_path@ == path;
        assert((a + b)[a.len() + i] == b[i]);
    }
    if has_path(a + b, path) {
        let i = choose|i: int|
            0 <= i < (a + b).len() && (#[trigger] (a + b)[i]).data_file.file_path@ == path;
        if i < a.len() {
            assert(a[i] == (a + b)[i]);
        } else {
            assert(b[i - a.len()] == (a + b)[i]);
        }
    }
}

/// The paths of the survivors are those that are not removed.
proof fn lemma_has_path_survivors(
    entries: Seq<ManifestEntry>,
    removed: Set<Seq<char>>,
    path: Seq<char>,
)
    ensures
        has_path(survivors(entries, removed), path) <==> has_path(entries, path)
            && !removed.contains(path),
{
    let survives = |entry: ManifestEntry| !is_removed(entry, removed);
    let kept = survivors(entries, removed);
    if has_path(kept, path) {
        let i = choose|i: int|
            0 <= i < kept.len() && (#[trigger] kept[i]).data_file.file_path@ == path;
        entries.lemma_filter_pred(survives, i);
        assert(kept.contains(kept[i]));
        entries.lemma_filter_contains_rev(survives, kept[i]);
        let j = choose|j: int| 0 <= j < entries.len() && entries[j] == kept[i];
        assert(entries[j].data_file.file_path@ == path);
    }
    if has_path(entries, path) && !removed.contains(path) {
        let i = choose|i: int|
            0 <= i < entries.len() && (#[trigger] entries[i]).data_file.file_path@ == path;
        assert(survives(entries[i]));
        entries.lemma_filter_contains(survives, i);
        let j = choose|j: int| 0 <= j < kept.len() && kept[j] == entries[i];
        assert(kept[j].data_file.file_path@ == path);
    }
}

/// The paths of the entries of added files are those of the files.
proof fn lemma_has_path_added(files: Seq<DataFile>, snapshot_id: i64, path: Seq<char>)
    ensures
        has_path(added_entries(files, snapshot_id), path) <==> paths_of(files).contains(path),
{
    let entries = added_entries(files, snapshot_id);
    let paths = files.map_values(|file: DataFile| file.path());
    if has_path(entries, path) {
        let i = choose|i: int|
            0 <= i < entries.len() && (#[trigger] entries[i]).data_file.file_path@ == path;
        assert(paths[i] == path);
    }
    if paths_of(files).contains(path) {
        let i = choose|i: int| 0 <= i < paths.len() && paths[i] == path;
        assert(entries[i].data_file.file_path@ == path);
    }
}

/// After a rewrite the table refers to a file exactly if the prior snapshot referred to it and it
/// is not removed, or it is added.
pub proof fn law_rewrite_swaps_files(
    list: Seq<ManifestFile>,
    store: Store,
    removed: Set<Seq<char>>,
    written: Seq<ManifestFile>,
    data: Seq<DataFile>,
    deletes: Seq<DataFile>,
    snapshot_id: i64,
    added: Seq<ManifestFile>,
    path: Seq<char>,
)
    requires
        stored_as(asked_for(list, store, removed), written, store),
        stored_as(added_manifests(data, deletes, snapshot_id), added, store),
    ensures
        refers_to(carried_over(list, store, removed, written) + added, store, path) <==> {
            ||| refers_to(list, store, path) && !removed.contains(path)
            ||| paths_of(data).contains(path)
            ||| paths_of(deletes).contains(path)
        },
{
    let existing = carried_over(list, store, removed, written);
    let kept = entries_of(existing, store);
    let prior = entries_of(list, store);
    let of_data = added_entries(data, snapshot_id);
    let of_deletes = added_entries(deletes, snapshot_id);
    law_rewrite_swaps_entries(
        list,
        store,
        removed,
        written,
        data,
        deletes,
        snapshot_id,
        added,
    );
    lemma_has_path_as_existing(kept, path);
    lemma_has_path_as_existing(survivors(prior, removed), path);
    lemma_has_path_survivors(prior, removed, path);
    lemma_has_path_concat(kept, of_data, path);
    lemma_has_path_concat(kept + of_data, of_deletes, path);
    lemma_has_path_added(data, snapshot_id, path);
    lemma_has_path_added(deletes, snapshot_id, path);
    assert(refers_to(existing + added, store, path) == has_path(
        entries_of(existing + added, store),
        path,
    ));
    assert(refers_to(list, store, path) == has_path(prior, path));
}

/// Whether every survivor of a manifest that has to be rewritten is live.
pub open spec fn rewrites_live_entries(
    list: Seq<ManifestFile>,
    store: Store,
    removed: Set<Seq<char>>,
) -> bool {
    forall|i: int, j: int|
        0 <= i < list.len() && plan_of(list[i], store(list[i]), removed) is Rewrite && 0 <= j
            < store(list[i]).len() && !is_removed(store(list[i])[j], removed) ==> (
        #[trigger] store(list[i])[j]).is_alive()
}

/// The live survivors are the survivors of the live entries.
proof fn lemma_live_survivors(entries: Seq<ManifestEntry>, removed: Set<Seq<char>>)
    ensures
        live(survivors(entries, removed)) == survivors(live(entries), removed),
    decreases entries.len(),
{
    reveal(Seq::filter);
    if entries.len() > 0 {
        let front = entries.drop_last();
        let last = entries.last();
        lemma_live_survivors(front, removed);
        if !is_removed(last, removed) {
            assert(survivors(entries, removed).drop_last() == survivors(front, removed));
        }
        if last.is_alive() {
            assert(live(entries).drop_last() == live(front));
        }
    }
}

/// The manifests that come of a walk keep the live entries of the prior snapshot, in order, but
/// for those of removed files, and they make no entry live that was not. That takes that no
/// manifest that has to be rewritten holds a survivor marked as deleted: the rewriting would mark
/// it as existing.
pub proof fn law_walk_keeps_live_entries(
    list: Seq<ManifestFile>,
    store: Store,
    removed: Set<Seq<char>>,
    written: Seq<ManifestFile>,
)
    requires
        stored_as(asked_for(list, store, removed), written, store),
        rewrites_live_entries(list, store, removed),
    ensures
        as_existing(live(entries_of(carried_over(list, store, removed, written), store)))
            == as_existing(survivors(live(entries_of(list, store)), removed)),
    decreases list.len(),
{
    let out = carried_over(list, store, removed, written);
    if list.len() == 0 {
        reveal(Seq::filter);
    } else {
        let first = store(list.first());
        let rest = list.drop_first();
        let of_rest = entries_of(rest, store);
        lemma_plans_step(list, store, removed);
        assert(list[0] == list.first());
        assert forall|i: int, j: int|
            0 <= i < rest.len() && plan_of(rest[i], store(rest[i]), removed) is Rewrite && 0 <= j
                < store(rest[i]).len() && !is_removed(store(rest[i])[j], removed) implies (
        #[trigger] store(rest[i])[j]).is_alive() by {
            assert(rest[i] == list[i + 1]);
        }
        lemma_live_concat(first, of_rest);
        Seq::filter_distributes_over_add(
            live(first),
            live(of_rest),
            |entry: ManifestEntry| !is_removed(entry, removed),
        );
        lemma_live_survivors(first, removed);
        let kept = survivors(first, removed);
        let kept_of_rest = survivors(live(of_rest), removed);
        lemma_as_existing_concat(live(kept), kept_of_rest);
        match plan_of(list.first(), first, removed) {
            PlanView::CarryForward(manifest) => {
                law_walk_keeps_live_entries(rest, store, removed, written);
                lemma_survivors_len(first, removed);
                lemma_all_survive(first, removed);
                let out_of_rest = carried_over(rest, store, removed, written);
                assert(out == seq![manifest] + out_of_rest);
                assert(out.drop_first() == out_of_rest);
                lemma_live_concat(first, entries_of(out_of_rest, store));
                lemma_as_existing_concat(live(first), live(entries_of(out_of_rest, store)));
            },
            PlanView::DropEntirely => {
                law_walk_keeps_live_entries(rest, store, removed, written);
                lemma_survivors_len(first, removed);
                assert(out == carried_over(rest, store, removed, written));
                assert(live(kept) == kept) by {
                    reveal(Seq::filter);
                }
                assert(as_existing(live(kept)) + as_existing(kept_of_rest) == as_existing(
                    kept_of_rest,
                ));
            },
            PlanView::Rewrite(contents) => {
                let asked_of_rest = asked_for(rest, store, removed);
                assert(asked_for(list, store, removed) == seq![contents] + asked_of_rest);
                lemma_stored_as_step(contents, asked_of_rest, written, store);
                law_walk_keeps_live_entries(rest, store, removed, written.drop_first());
                let out_of_rest = carried_over(rest, store, removed, written.drop_first());
                assert(out == seq![written.first()] + out_of_rest);
                assert(out.drop_first() == out_of_rest);
                lemma_live_concat(as_existing(kept), entries_of(out_of_rest, store));
                lemma_all_live(as_existing(kept));
                lemma_as_existing_concat(
                    as_existing(kept),
                    live(entries_of(out_of_rest, store)),
                );
                assert(as_existing(as_existing(kept)) =~= as_existing(kept));
                assert forall|j: int| 0 <= j < kept.len() implies (
                #[trigger] kept[j]).is_alive() by {
                    let survives = |entry: ManifestEntry| !is_removed(entry, removed);
                    first.lemma_filter_pred(survives, j);
                    assert(kept.contains(kept[j]));
                    first.lemma_filter_contains_rev(survives, kept[j]);
                    let m = choose|m: int| 0 <= m < first.len() && first[m] == kept[j];
                    assert(store(list[0])[m].is_alive());
                }
                lemma_all_live(kept);
            },
        }
    }
}

/// A rewrite swaps the live files: the live entries of the new snapshot are those of the prior
/// one but for the removed files, and after them an entry for each added file. The manifests that
/// have to be rewritten must hold no survivor marked as deleted.
pub proof fn law_rewrite_swaps_live_entries(
    list: Seq<ManifestFile>,
    store: Store,
    removed: Set<Seq<char>>,
    written: Seq<ManifestFile>,
    data: Seq<DataFile>,
    deletes: Seq<DataFile>,
    snapshot_id: i64,
    added: Seq<ManifestFile>,
)
    requires
        stored_as(asked_for(list, store, removed), written, store),
        stored_as(added_manifests(data, deletes, snapshot_id), added, store),
        rewrites_live_entries(list, store, removed),
    ensures
        as_existing(
            live(entries_of(carried_over(list, store, removed, written) + added, store)),
        ) == as_existing(survivors(live(entries_of(list, store)), removed)) + as_existing(
            added_entries(data, snapshot_id) + added_entries(deletes, snapshot_id),
        ),
{
    let existing = carried_over(list, store, removed, written);
    let kept = entries_of(existing, store);
    let of_data = added_entries(data, snapshot_id);
    let of_deletes = added_entries(deletes, snapshot_id);
    law_walk_keeps_live_entries(list, store, removed, written);
    lemma_entries_of_concat(existing, added, store);
    law_added_manifests_hold_the_added_files(data, deletes, snapshot_id, added, store);
    lemma_live_concat(kept, of_data + of_deletes);
    lemma_live_concat(of_data, of_deletes);
    lemma_added_entries_live(data, snapshot_id);
    lemma_added_entries_live(deletes, snapshot_id);
    lemma_as_existing_concat(live(kept), of_data + of_deletes);
}

/// Where the checks of a commit lead that stands at `step`, if they come out as `outcomes`.
pub open spec fn after_checks(
    step: CommitStep,
    check_duplicate: bool,
    outcomes: Seq<Result<(), Error>>,
) -> Result<CommitStep, Error>
    decreases outcomes.len(),
{
    if outcomes.len() == 0 {
        Ok(step)
    } else {
        match outcomes.first() {
            Ok(_) => after_checks(
                step.next(check_duplicate),
                check_duplicate,
                outcomes.drop_first(),
            ),
            Err(error) => Err(error),
        }
    }
}

/// How many checks a commit makes.
pub open spec fn number_of_checks(check_duplicate: bool) -> nat {
    if check_duplicate {
        3
    } else {
        2
    }
}

/// A commit comes to produce its snapshot exactly if all its checks pass: that of the data files,
/// that of the delete files and, where it is asked for, that for duplicates. Otherwise the commit
/// fails with the error of the first check that failed.
pub proof fn law_checks_decide_the_commit(
    check_duplicate: bool,
    outcomes: Seq<Result<(), Error>>,
)
    requires
        outcomes.len() == number_of_checks(check_duplicate),
    ensures
        after_checks(CommitStep::ValidateDataFiles, check_duplicate, outcomes) == Ok::<
            CommitStep,
            Error,
        >(CommitStep::Produce) <==> forall|i: int|
            0 <= i < outcomes.len() ==> (#[trigger] outcomes[i]) is Ok,
        forall|i: int|
            0 <= i < outcomes.len() && (#[trigger] outcomes[i]) is Err && (forall|j: int|
                0 <= j < i ==> (#[trigger] outcomes[j]) is Ok) ==> after_checks(
                CommitStep::ValidateDataFiles,
                check_duplicate,
                outcomes,
            ) == Err::<CommitStep, Error>(outcomes[i]->Err_0),
        forall|n: int|
            0 <= n < outcomes.len() ==> after_checks(
                CommitStep::ValidateDataFiles,
                check_duplicate,
                #[trigger] outcomes.take(n),
            ) != Ok::<CommitStep, Error>(CommitStep::Produce),
{
    reveal_with_fuel(after_checks, 4);
    let second = outcomes.drop_first();
    let third = second.drop_first();
    assert(outcomes[0] == outcomes.first());
    assert(outcomes[1] == second.first());
    if check_duplicate {
        assert(outcomes[2] == third.first());
    }
    assert forall|n: int| 0 <= n < outcomes.len() implies after_checks(
        CommitStep::ValidateDataFiles,
        check_duplicate,
        #[trigger] outcomes.take(n),
    ) != Ok::<CommitStep, Error>(CommitStep::Produce) by {
        let taken = outcomes.take(n);
        if n > 0 {
            assert(taken.first() == outcomes[0]);
            if n > 1 {
                assert(taken.drop_first().first() == outcomes[1]);
            }
        }
    }
}

/// A schema commit takes effect on a table exactly if the table has kept its identity, its
/// current schema and its highest field id since the commit was made, and so on an unchanged
/// table always.
pub proof fn law_schema_commit_fails_on_concurrent_change(
    table: TableMetadata,
    later: TableMetadata,
)
    ensures
        meets_all(later, schema_requirements(table)) <==> {
            &&& later.uuid == table.uuid
            &&& later.current_schema_id == table.current_schema_id
            &&& later.last_column_id == table.last_column_id
        },
        meets_all(table, schema_requirements(table)),
{
    let requirements = schema_requirements(table);
    if meets_all(later, requirements) {
        assert(requirements[0].is_met_by(later));
        assert(requirements[1].is_met_by(later));
        assert(requirements[2].is_met_by(later));
    }
}

/// A snapshot commit takes effect on a table exactly if the table has kept its identity and its
/// current snapshot since the commit was made.
pub proof fn law_snapshot_commit_fails_on_concurrent_change(
    requirements: Seq<TableRequirement>,
    table: TableMetadata,
    later: TableMetadata,
)
    requires
        guards_snapshot(requirements, table),
    ensures
        meets_all(later, requirements) <==> {
            &&& later.uuid == table.uuid
            &&& later.current_snapshot_id == table.current_snapshot_id
        },
{
    if meets_all(later, requirements) {
        assert(requirements[0].is_met_by(later));
        assert(requirements[1].is_met_by(later));
    }
}

} // verus!
