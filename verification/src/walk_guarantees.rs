//! What callers can rely on of the walk over the manifests of a prior snapshot, told by what they
//! hand over and by what they get.

use vstd::hash_set::StringHashSet;
use vstd::prelude::*;

#[allow(unused_imports)]
use crate::error::Error;
#[allow(unused_imports)]
use crate::manifest::{
    as_existing, entries_of, ManifestContentType, ManifestContents, ManifestEntry, ManifestFile,
    ManifestStatus, NewManifest, Store,
};
#[allow(unused_imports)]
use crate::rewrite::RewriteFilesOperation;
#[allow(unused_imports)]
use crate::walk::{
    is_removed, lemma_survivors_len, plan_manifest, plan_of, survivors, ManifestWalk, Plan,
    PlanView, WalkTask, WalkView,
};
#[allow(unused_imports)]
use crate::walk_laws::{
    after_loads, after_writes, asked_for, assemble, carried_over, law_walk_keeps_the_survivors,
    law_walk_runs_to_its_end, lemma_after_loads, lemma_after_writes, lemma_asked_for_all, plans_of,
    rewrites, stored_as,
};

verus! {

/// The entries whose paths are not among `removed`, in order.
pub open spec fn kept(entries: Seq<ManifestEntry>, removed: Set<Seq<char>>) -> Seq<ManifestEntry> {
    entries.filter(|entry: ManifestEntry| !removed.contains(entry.data_file.file_path@))
}

/// Whether no entry has a path among `removed`.
pub open spec fn none_removed(entries: Seq<ManifestEntry>, removed: Set<Seq<char>>) -> bool {
    forall|i: int|
        0 <= i < entries.len() ==> !removed.contains((#[trigger] entries[i]).data_file.file_path@)
}

/// Whether there are entries and all have paths among `removed`.
pub open spec fn all_removed(entries: Seq<ManifestEntry>, removed: Set<Seq<char>>) -> bool {
    &&& entries.len() > 0
    &&& forall|i: int|
        0 <= i < entries.len() ==> removed.contains((#[trigger] entries[i]).data_file.file_path@)
}

/// Whether two entries record the same file with the same history, whatever their status.
pub open spec fn same_history(a: ManifestEntry, b: ManifestEntry) -> bool {
    &&& a.data_file == b.data_file
    &&& a.snapshot_id == b.snapshot_id
    &&& a.sequence_number == b.sequence_number
    &&& a.file_sequence_number == b.file_sequence_number
}

/// Whether the entries record the same files with the same history, one by one.
pub open spec fn same_histories(a: Seq<ManifestEntry>, b: Seq<ManifestEntry>) -> bool {
    &&& a.len() == b.len()
    &&& forall|k: int| 0 <= k < a.len() ==> same_history(#[trigger] a[k], b[k])
}

/// Whether every entry is marked as existing.
pub open spec fn all_existing(entries: Seq<ManifestEntry>) -> bool {
    forall|k: int|
        0 <= k < entries.len() ==> (#[trigger] entries[k]).status == ManifestStatus::Existing
}

/// The survivors are the entries whose paths are not removed.
proof fn lemma_survivors_are_kept(entries: Seq<ManifestEntry>, removed: Set<Seq<char>>)
    ensures
        survivors(entries, removed) == kept(entries, removed),
{
    assert((|entry: ManifestEntry| !is_removed(entry, removed)) =~= (|entry: ManifestEntry|
        !removed.contains(entry.data_file.file_path@)));
}

/// Entries that are the same once marked as existing have the same histories.
proof fn lemma_same_histories(a: Seq<ManifestEntry>, b: Seq<ManifestEntry>)
    requires
        as_existing(a) == as_existing(b),
    ensures
        same_histories(a, b),
{
    assert(as_existing(a).len() == a.len());
    assert(as_existing(b).len() == b.len());
    assert forall|k: int| 0 <= k < a.len() implies same_history(#[trigger] a[k], b[k]) by {
        assert(as_existing(a)[k] == a[k].as_existing());
        assert(as_existing(b)[k] == b[k].as_existing());
    }
}

/// Marking entries as existing marks all of them and changes nothing else.
proof fn lemma_as_existing(entries: Seq<ManifestEntry>)
    ensures
        all_existing(as_existing(entries)),
        same_histories(as_existing(entries), entries),
{
}

/// What becomes of a manifest is decided by the paths of its entries alone: with none removed the
/// very manifest carries forward; with all removed, and at least one, it is dropped; otherwise a
/// manifest of the same content takes its place that holds the kept entries, in order, marked as
/// existing, with their histories.
pub proof fn law_plan_follows_the_paths(
    removed_paths: StringHashSet,
    manifest: ManifestFile,
    entries: Vec<ManifestEntry>,
    plan: Plan,
)
    requires
        call_ensures(plan_manifest, (&removed_paths, manifest, entries), plan),
    ensures
        none_removed(entries@, removed_paths@) ==> plan == Plan::CarryForward(manifest),
        all_removed(entries@, removed_paths@) ==> plan == Plan::DropEntirely,
        !none_removed(entries@, removed_paths@) && !all_removed(entries@, removed_paths@) ==> {
            &&& plan matches Plan::Rewrite(new)
            &&& new.content == manifest.content
            &&& new.entries@.len() > 0
            &&& all_existing(new.entries@)
            &&& same_histories(new.entries@, kept(entries@, removed_paths@))
        },
{
    let removed = removed_paths@;
    lemma_survivors_are_kept(entries@, removed);
    lemma_survivors_len(entries@, removed);
    lemma_as_existing(survivors(entries@, removed));
    assert(forall|i: int|
        0 <= i < entries@.len() ==> (is_removed(#[trigger] entries@[i], removed)
            <==> removed.contains(entries@[i].data_file.file_path@)));
}

/// A manifest that carries survivors over marks each of them as existing and keeps its file, its
/// snapshot id and both its sequence numbers.
pub proof fn law_survivors_keep_their_history(
    survivors: Vec<ManifestEntry>,
    content: ManifestContentType,
    manifest: NewManifest,
)
    requires
        call_ensures(NewManifest::existing, (survivors, content), manifest),
    ensures
        manifest.content == content,
        all_existing(manifest.entries@),
        same_histories(manifest.entries@, survivors@),
{
}

/// A walk preserves history: the resulting manifests hold, one by one and in order, the files of
/// the prior manifests that are not removed, each with the snapshot id and the sequence numbers it
/// had; and every entry of a manifest that the walk asks to be written is marked as existing.
pub proof fn law_walk_preserves_history(
    list: Seq<ManifestFile>,
    store: Store,
    removed: Set<Seq<char>>,
    written: Seq<ManifestFile>,
)
    requires
        stored_as(asked_for(list, store, removed), written, store),
    ensures
        ({
            let after = entries_of(carried_over(list, store, removed, written), store);
            let before = entries_of(list, store).filter(
                |entry: ManifestEntry| !removed.contains(entry.data_file.file_path@),
            );
            &&& after.len() == before.len()
            &&& forall|k: int|
                0 <= k < after.len() ==> {
                    &&& (#[trigger] after[k]).data_file == before[k].data_file
                    &&& after[k].snapshot_id == before[k].snapshot_id
                    &&& after[k].sequence_number == before[k].sequence_number
                    &&& after[k].file_sequence_number == before[k].file_sequence_number
                }
        }),
        forall|k: int, i: int|
            0 <= k < asked_for(list, store, removed).len() && 0 <= i < asked_for(
                list,
                store,
                removed,
            )[k].entries.len() ==> (#[trigger] asked_for(
                list,
                store,
                removed,
            )[k].entries[i]).status == ManifestStatus::Existing,
{
    let prior = entries_of(list, store);
    let after = entries_of(carried_over(list, store, removed, written), store);
    law_walk_keeps_the_survivors(list, store, removed, written);
    lemma_same_histories(after, survivors(prior, removed));
    lemma_survivors_are_kept(prior, removed);
    assert(forall|k: int|
        0 <= k < after.len() ==> same_history(#[trigger] after[k], kept(prior, removed)[k]));
    let holds = |contents: ManifestContents| all_existing(contents.entries);
    assert forall|i: int| 0 <= i < list.len() implies (plan_of(
        #[trigger] list[i],
        store(list[i]),
        removed,
    ) matches PlanView::Rewrite(contents) ==> holds(contents)) by {
        lemma_as_existing(survivors(store(list[i]), removed));
    }
    lemma_asked_for_all(list, store, removed, holds);
    let asked = asked_for(list, store, removed);
    assert forall|k: int, i: int| 0 <= k < asked.len() && 0 <= i < asked[k].entries.len() implies (
    #[trigger] asked[k].entries[i]).status == ManifestStatus::Existing by {
        assert(holds(asked[k]));
    }
}

/// The manifests that are left of `list`, where the manifests hold `contents` and those with some
/// but not all entries removed were replaced by `writes`, one after the other.
pub open spec fn left_of(
    list: Seq<ManifestFile>,
    contents: Seq<Seq<ManifestEntry>>,
    removed: Set<Seq<char>>,
    writes: Seq<ManifestFile>,
) -> Seq<ManifestFile>
    decreases list.len(),
{
    if list.len() == 0 {
        Seq::empty()
    } else {
        let (rest, rest_contents) = (list.drop_first(), contents.drop_first());
        if none_removed(contents.first(), removed) {
            seq![list.first()] + left_of(rest, rest_contents, removed, writes)
        } else if all_removed(contents.first(), removed) {
            left_of(rest, rest_contents, removed, writes)
        } else {
            seq![writes.first()] + left_of(rest, rest_contents, removed, writes.drop_first())
        }
    }
}

/// The manifests of `list` with some but not all entries removed: what each holds, and the entries
/// that it keeps.
pub open spec fn partly_removed(
    list: Seq<ManifestFile>,
    contents: Seq<Seq<ManifestEntry>>,
    removed: Set<Seq<char>>,
) -> Seq<(ManifestContentType, Seq<ManifestEntry>)>
    decreases list.len(),
{
    if list.len() == 0 {
        Seq::empty()
    } else {
        let rest = partly_removed(list.drop_first(), contents.drop_first(), removed);
        if none_removed(contents.first(), removed) || all_removed(contents.first(), removed) {
            rest
        } else {
            seq![(list.first().content, kept(contents.first(), removed))] + rest
        }
    }
}

/// Whether `asked` is the manifest that takes the place of one that holds `content` and keeps
/// `entries`.
pub open spec fn replaces(
    asked: ManifestContents,
    content: ManifestContentType,
    entries: Seq<ManifestEntry>,
) -> bool {
    &&& asked.content == content
    &&& all_existing(asked.entries)
    &&& same_histories(asked.entries, entries)
}

/// What the plans say is what the paths say.
proof fn lemma_plans_follow_the_paths(
    list: Seq<ManifestFile>,
    contents: Seq<Seq<ManifestEntry>>,
    removed: Set<Seq<char>>,
    writes: Seq<ManifestFile>,
)
    requires
        contents.len() == list.len(),
    ensures
        assemble(plans_of(list, contents, removed), writes) == left_of(
            list,
            contents,
            removed,
            writes,
        ),
        rewrites(plans_of(list, contents, removed)).len() == partly_removed(
            list,
            contents,
            removed,
        ).len(),
        forall|j: int|
            0 <= j < rewrites(plans_of(list, contents, removed)).len() ==> replaces(
                #[trigger] rewrites(plans_of(list, contents, removed))[j],
                partly_removed(list, contents, removed)[j].0,
                partly_removed(list, contents, removed)[j].1,
            ),
    decreases list.len(),
{
    let plans = plans_of(list, contents, removed);
    if list.len() > 0 {
        let (rest, rest_contents) = (list.drop_first(), contents.drop_first());
        let first = contents.first();
        assert(plans.first() == plan_of(list.first(), first, removed));
        assert(plans.drop_first() =~= plans_of(rest, rest_contents, removed));
        assert(forall|i: int|
            0 <= i < first.len() ==> (is_removed(#[trigger] first[i], removed)
                <==> removed.contains(first[i].data_file.file_path@)));
        lemma_survivors_are_kept(first, removed);
        lemma_as_existing(survivors(first, removed));
        let asked_of_rest = rewrites(plans_of(rest, rest_contents, removed));
        let parts_of_rest = partly_removed(rest, rest_contents, removed);
        if none_removed(first, removed) {
            lemma_plans_follow_the_paths(rest, rest_contents, removed, writes);
            assert(plans.first() == PlanView::CarryForward(list.first()));
            assert(rewrites(plans) == asked_of_rest);
        } else if all_removed(first, removed) {
            lemma_plans_follow_the_paths(rest, rest_contents, removed, writes);
            assert(plans.first() == PlanView::DropEntirely);
            assert(rewrites(plans) == asked_of_rest);
        } else {
            lemma_plans_follow_the_paths(rest, rest_contents, removed, writes.drop_first());
            assert(plans.first() is Rewrite);
            let asked = plans.first()->Rewrite_0;
            let part = (list.first().content, kept(first, removed));
            assert(rewrites(plans) == seq![asked] + asked_of_rest);
            assert(partly_removed(list, contents, removed) == seq![part] + parts_of_rest);
            assert forall|j: int| 0 <= j < rewrites(plans).len() implies replaces(
                #[trigger] rewrites(plans)[j],
                partly_removed(list, contents, removed)[j].0,
                partly_removed(list, contents, removed)[j].1,
            ) by {
                if j > 0 {
                    assert(rewrites(plans)[j] == asked_of_rest[j - 1]);
                    assert(partly_removed(list, contents, removed)[j] == parts_of_rest[j - 1]);
                }
            }
        }
    }
}

/// Whether the walk `before` asked for the manifest `asked`, was handed `entries`, and became
/// `after`.
pub open spec fn load_step<'a>(
    before: ManifestWalk<'a>,
    asked: ManifestFile,
    entries: Vec<ManifestEntry>,
    after: ManifestWalk<'a>,
) -> bool {
    &&& call_ensures(ManifestWalk::task, (&before,), WalkTask::Load(&asked))
    &&& call_ensures(
        ManifestWalk::loaded,
        (before, Ok::<Vec<ManifestEntry>, Error>(entries)),
        Ok::<ManifestWalk<'a>, Error>(after),
    )
}

/// Whether the walk `before` asked for `asked` to be written, was handed `file`, and became
/// `after`.
pub open spec fn write_step<'a>(
    before: ManifestWalk<'a>,
    asked: NewManifest,
    file: ManifestFile,
    after: ManifestWalk<'a>,
) -> bool {
    &&& call_ensures(ManifestWalk::task, (&before,), WalkTask::Write(&asked))
    &&& call_ensures(
        ManifestWalk::written,
        (before, Ok::<ManifestFile, Error>(file)),
        Ok::<ManifestWalk<'a>, Error>(after),
    )
}

/// Whether the walks, one after the other, asked for `asked_loads` and were handed `loads`, then
/// asked for `asked_writes` and were handed `writes`, and then were over with `out`.
pub open spec fn walked<'a>(
    walks: Seq<ManifestWalk<'a>>,
    asked_loads: Seq<ManifestFile>,
    loads: Seq<Vec<ManifestEntry>>,
    asked_writes: Seq<NewManifest>,
    writes: Seq<ManifestFile>,
    out: Vec<ManifestFile>,
) -> bool {
    &&& walks.len() == loads.len() + writes.len() + 1
    &&& asked_loads.len() == loads.len()
    &&& asked_writes.len() == writes.len()
    &&& forall|k: int, n: int|
        0 <= k < loads.len() && n == k + 1 ==> #[trigger] load_step(
            walks[k],
            asked_loads[k],
            loads[k],
            walks[n],
        )
    &&& forall|j: int, m: int, n: int|
        0 <= j < writes.len() && m == loads.len() + j && n == m + 1 ==> #[trigger] write_step(
            walks[m],
            asked_writes[j],
            writes[j],
            walks[n],
        )
    &&& call_ensures(ManifestWalk::task, (&walks.last(),), WalkTask::Finish)
    &&& call_ensures(ManifestWalk::finish, (walks.last(),), out)
}

/// What was loaded, with room for what was not.
spec fn padded(list: Seq<ManifestFile>, loads: Seq<Vec<ManifestEntry>>) -> Seq<
    Seq<ManifestEntry>,
> {
    Seq::new(
        list.len(),
        |i: int|
            if i < loads.len() {
                loads[i]@
            } else {
                Seq::empty()
            },
    )
}

/// The loads of a walk go through the list in order, and do not go beyond it.
proof fn lemma_loads_follow_the_list<'a>(
    list: Seq<ManifestFile>,
    removed: Set<Seq<char>>,
    walks: Seq<ManifestWalk<'a>>,
    asked_loads: Seq<ManifestFile>,
    loads: Seq<Vec<ManifestEntry>>,
    asked_writes: Seq<NewManifest>,
    writes: Seq<ManifestFile>,
    out: Vec<ManifestFile>,
    n: int,
)
    requires
        walked(walks, asked_loads, loads, asked_writes, writes, out),
        walks[0]@ == WalkView::start(removed, list),
        0 <= n <= loads.len(),
    ensures
        n <= list.len(),
        walks[n]@ == after_loads(WalkView::start(removed, list), padded(list, loads).take(n)),
        forall|k: int| 0 <= k < n ==> #[trigger] asked_loads[k] == list[k],
    decreases n,
{
    let start = WalkView::start(removed, list);
    let contents = padded(list, loads);
    if n == 0 {
        assert(contents.take(0) == Seq::<Seq<ManifestEntry>>::empty());
    } else {
        let k = n - 1;
        lemma_loads_follow_the_list(
            list,
            removed,
            walks,
            asked_loads,
            loads,
            asked_writes,
            writes,
            out,
            k,
        );
        assert(load_step(walks[k], asked_loads[k], loads[k], walks[n]));
        lemma_after_loads(list, contents, removed, k);
        let read = WalkView {
            removed,
            unread: list.skip(k),
            plans: plans_of(list, contents, removed).take(k),
            settled: Seq::empty(),
        };
        crate::walk::lemma_settle(read);
        assert(walks[k]@.waits_for_load());
        assert(k < list.len());
        assert(walks[k]@.unread.first() == list[k]);
        assert(contents.take(n).drop_last() == contents.take(k));
        assert(contents.take(n).last() == loads[k]@);
    }
}

/// The writes of a walk go through the manifests that have to be rewritten in order, and do not go
/// beyond them.
proof fn lemma_writes_follow_the_plans<'a>(
    list: Seq<ManifestFile>,
    contents: Seq<Seq<ManifestEntry>>,
    removed: Set<Seq<char>>,
    walks: Seq<ManifestWalk<'a>>,
    asked_loads: Seq<ManifestFile>,
    loads: Seq<Vec<ManifestEntry>>,
    asked_writes: Seq<NewManifest>,
    writes: Seq<ManifestFile>,
    out: Vec<ManifestFile>,
    n: int,
)
    requires
        walked(walks, asked_loads, loads, asked_writes, writes, out),
        contents.len() == list.len(),
        walks[loads.len() as int]@ == after_loads(WalkView::start(removed, list), contents),
        0 <= n <= writes.len(),
    ensures
        n <= rewrites(plans_of(list, contents, removed)).len(),
        walks[loads.len() + n]@ == after_writes(
            after_loads(WalkView::start(removed, list), contents),
            writes.take(n),
        ),
        forall|j: int|
            0 <= j < n ==> (#[trigger] asked_writes[j])@ == rewrites(
                plans_of(list, contents, removed),
            )[j],
    decreases n,
{
    let plans = plans_of(list, contents, removed);
    let read = after_loads(WalkView::start(removed, list), contents);
    if n == 0 {
        assert(writes.take(0) == Seq::<ManifestFile>::empty());
    } else {
        let j = n - 1;
        lemma_writes_follow_the_plans(
            list,
            contents,
            removed,
            walks,
            asked_loads,
            loads,
            asked_writes,
            writes,
            out,
            j,
        );
        let m = loads.len() + j;
        assert(write_step(walks[m], asked_writes[j], writes[j], walks[m + 1]));
        lemma_after_writes(list, contents, removed, writes.take(j), Seq::empty());
        let walk = walks[m]@;
        assert(walk.waits_for_write());
        assert(walk.plans.first() == PlanView::Rewrite(asked_writes[j]@));
        assert(rewrites(walk.plans)[0] == asked_writes[j]@);
        assert(rewrites(walk.plans).len() > 0);
        assert(rewrites(plans).skip(j)[0] == rewrites(plans)[j]);
        assert(writes.take(n).drop_last() == writes.take(j));
        assert(writes.take(n).last() == writes[j]);
    }
}

/// A walk from its beginning to its end. It asks for every manifest of the prior list, in order.
/// Then it asks for one manifest to be written for each that has some but not all entries
/// removed, in order: of the same content, with the kept entries marked as existing, with their
/// histories. It ends with the manifests that have no entry removed, unchanged, and with those
/// that were written, in the order of the prior list; one with all entries removed is left out.
pub proof fn law_walk_from_start_to_finish<'a>(
    operation: &'a RewriteFilesOperation,
    list: Vec<ManifestFile>,
    walks: Seq<ManifestWalk<'a>>,
    asked_loads: Seq<ManifestFile>,
    loads: Seq<Vec<ManifestEntry>>,
    asked_writes: Seq<NewManifest>,
    writes: Seq<ManifestFile>,
    out: Vec<ManifestFile>,
)
    requires
        walked(walks, asked_loads, loads, asked_writes, writes, out),
        call_ensures(
            RewriteFilesOperation::existing_manifest,
            (operation, Some(list)),
            walks[0],
        ),
    ensures
        ({
            let removed = operation.removed_paths@;
            let contents = loads.map_values(|entries: Vec<ManifestEntry>| entries@);
            let parts = partly_removed(list@, contents, removed);
            &&& asked_loads == list@
            &&& asked_writes.len() == parts.len()
            &&& forall|j: int|
                0 <= j < parts.len() ==> {
                    &&& (#[trigger] asked_writes[j]).content == parts[j].0
                    &&& all_existing(asked_writes[j].entries@)
                    &&& same_histories(asked_writes[j].entries@, parts[j].1)
                }
            &&& out@ == left_of(list@, contents, removed, writes)
        }),
{
    let removed = operation.removed_paths@;
    let start = WalkView::start(removed, list@);
    let count = loads.len() as int;
    let contents = loads.map_values(|entries: Vec<ManifestEntry>| entries@);
    let plans = plans_of(list@, contents, removed);
    lemma_loads_follow_the_list(
        list@,
        removed,
        walks,
        asked_loads,
        loads,
        asked_writes,
        writes,
        out,
        count,
    );
    assert(walks[count]@.unread.len() == 0) by {
        if writes.len() > 0 {
            assert(write_step(walks[count], asked_writes[0], writes[0], walks[count + 1]));
        } else {
            assert(walks[count] == walks.last());
        }
    }
    if count < list@.len() {
        lemma_after_loads(list@, padded(list@, loads), removed, count);
        assert(walks[count]@.unread == list@.skip(count));
        assert(false);
    }
    assert(padded(list@, loads).take(count) =~= contents);
    assert(asked_loads =~= list@);
    lemma_writes_follow_the_plans(
        list@,
        contents,
        removed,
        walks,
        asked_loads,
        loads,
        asked_writes,
        writes,
        out,
        writes.len() as int,
    );
    assert(writes.take(writes.len() as int) == writes);
    lemma_after_writes(list@, contents, removed, writes, Seq::empty());
    let end = walks.last()@;
    assert(end == after_writes(after_loads(start, contents), writes));
    assert(end.is_finished());
    assert(rewrites(end.plans).len() == 0);
    assert(writes.len() == rewrites(plans).len());
    law_walk_runs_to_its_end(list@, contents, removed, writes);
    lemma_plans_follow_the_paths(list@, contents, removed, writes);
    let parts = partly_removed(list@, contents, removed);
    assert forall|j: int| 0 <= j < parts.len() implies {
        &&& (#[trigger] asked_writes[j]).content == parts[j].0
        &&& all_existing(asked_writes[j].entries@)
        &&& same_histories(asked_writes[j].entries@, parts[j].1)
    } by {
        assert(replaces(rewrites(plans)[j], parts[j].0, parts[j].1));
        assert(asked_writes[j]@ == rewrites(plans)[j]);
    }
}

/// Without a prior snapshot there is nothing to walk over: the walk asks for nothing and ends with
/// no manifest.
pub proof fn law_walk_without_prior_snapshot_is_empty<'a>(
    operation: &'a RewriteFilesOperation,
    walk: ManifestWalk<'a>,
    task: WalkTask,
    out: Vec<ManifestFile>,
)
    requires
        call_ensures(
            RewriteFilesOperation::existing_manifest,
            (operation, None::<Vec<ManifestFile>>),
            walk,
        ),
        call_ensures(ManifestWalk::task, (&walk,), task),
        call_ensures(ManifestWalk::finish, (walk,), out),
    ensures
        task is Finish,
        out@.len() == 0,
{
}

/// A walk whose caller could not read or write a manifest ends with the error that the caller
/// hands over, and with no other.
pub proof fn law_walk_ends_with_the_callers_error<'a>(
    reading: ManifestWalk<'a>,
    after_load: Result<ManifestWalk<'a>, Error>,
    writing: ManifestWalk<'a>,
    after_write: Result<ManifestWalk<'a>, Error>,
    error: Error,
)
    requires
        call_ensures(
            ManifestWalk::loaded,
            (reading, Err::<Vec<ManifestEntry>, Error>(error)),
            after_load,
        ),
        call_ensures(
            ManifestWalk::written,
            (writing, Err::<ManifestFile, Error>(error)),
            after_write,
        ),
    ensures
        after_load == Err::<ManifestWalk<'a>, Error>(error),
        after_write == Err::<ManifestWalk<'a>, Error>(error),
{
}

/// A walk whose caller read or wrote the manifest it waited for goes on.
pub proof fn law_walk_goes_on_after_success<'a>(
    reading: ManifestWalk<'a>,
    entries: Vec<ManifestEntry>,
    after_load: Result<ManifestWalk<'a>, Error>,
    writing: ManifestWalk<'a>,
    manifest: ManifestFile,
    after_write: Result<ManifestWalk<'a>, Error>,
)
    requires
        call_ensures(
            ManifestWalk::loaded,
            (reading, Ok::<Vec<ManifestEntry>, Error>(entries)),
            after_load,
        ),
        call_ensures(
            ManifestWalk::written,
            (writing, Ok::<ManifestFile, Error>(manifest)),
            after_write,
        ),
    ensures
        after_load is Ok,
        after_write is Ok,
{
}

} // verus!
