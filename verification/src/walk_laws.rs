//! What holds of a whole walk over the manifests of a prior snapshot.

use vstd::prelude::*;

#[allow(unused_imports)]
use crate::manifest::{
    as_existing, entries_of, holds_only, ManifestContents, ManifestContentType, ManifestEntry,
    ManifestFile, Store,
};
#[allow(unused_imports)]
use crate::walk::{
    is_removed, lemma_settle, lemma_survivors_len, plan_of, survivors, PlanView, WalkView,
};

verus! {

/// What becomes of each manifest of `list`, where the manifests hold `contents`.
pub open spec fn plans_of(
    list: Seq<ManifestFile>,
    contents: Seq<Seq<ManifestEntry>>,
    removed: Set<Seq<char>>,
) -> Seq<PlanView> {
    Seq::new(list.len(), |i: int| plan_of(list[i], contents[i], removed))
}

/// What the manifests of `list` hold.
pub open spec fn contents_in(list: Seq<ManifestFile>, store: Store) -> Seq<Seq<ManifestEntry>> {
    list.map_values(store)
}

/// The manifests that `plans` want written, in order.
pub open spec fn rewrites(plans: Seq<PlanView>) -> Seq<ManifestContents>
    decreases plans.len(),
{
    if plans.len() == 0 {
        Seq::empty()
    } else {
        match plans.first() {
            PlanView::Rewrite(contents) => seq![contents] + rewrites(plans.drop_first()),
            _ => rewrites(plans.drop_first()),
        }
    }
}

/// The manifests that come of `plans`, where those that had to be written became `written`.
pub open spec fn assemble(plans: Seq<PlanView>, written: Seq<ManifestFile>) -> Seq<ManifestFile>
    decreases plans.len(),
{
    if plans.len() == 0 {
        Seq::empty()
    } else {
        match plans.first() {
            PlanView::CarryForward(manifest) => seq![manifest] + assemble(
                plans.drop_first(),
                written,
            ),
            PlanView::DropEntirely => assemble(plans.drop_first(), written),
            PlanView::Rewrite(_) => seq![written.first()] + assemble(
                plans.drop_first(),
                written.drop_first(),
            ),
        }
    }
}

/// The walk after its next manifests turned out to hold `contents`.
pub open spec fn after_loads(walk: WalkView, contents: Seq<Seq<ManifestEntry>>) -> WalkView
    decreases contents.len(),
{
    if contents.len() == 0 {
        walk
    } else {
        after_loads(walk, contents.drop_last()).after_load(contents.last())
    }
}

/// The walk after the next manifests that it waited for were written as `written`.
pub open spec fn after_writes(walk: WalkView, written: Seq<ManifestFile>) -> WalkView
    decreases written.len(),
{
    if written.len() == 0 {
        walk
    } else {
        after_writes(walk, written.drop_last()).after_write(written.last())
    }
}

/// Settling changes neither what is still to be written nor what comes of the walk.
proof fn lemma_settle_keeps_outcome(walk: WalkView, written: Seq<ManifestFile>)
    ensures
        rewrites(walk.settle().plans) == rewrites(walk.plans),
        walk.settle().settled + assemble(walk.settle().plans, written) == walk.settled + assemble(
            walk.plans,
            written,
        ),
    decreases walk.plans.len(),
{
    if walk.plans.len() > 0 {
        match walk.plans.first() {
            PlanView::CarryForward(manifest) => {
                let next = WalkView {
                    plans: walk.plans.drop_first(),
                    settled: walk.settled.push(manifest),
                    ..walk
                };
                lemma_settle_keeps_outcome(next, written);
                assert(next.settled + assemble(next.plans, written) == walk.settled + (
                seq![manifest] + assemble(next.plans, written)));
            },
            PlanView::DropEntirely => {
                lemma_settle_keeps_outcome(
                    WalkView { plans: walk.plans.drop_first(), ..walk },
                    written,
                );
            },
            PlanView::Rewrite(_) => {},
        }
    }
}

/// The walk reads the manifests of the list one by one, plans each, and settles once all are
/// read.
pub(crate) proof fn lemma_after_loads(
    list: Seq<ManifestFile>,
    contents: Seq<Seq<ManifestEntry>>,
    removed: Set<Seq<char>>,
    n: int,
)
    requires
        contents.len() == list.len(),
        0 <= n <= list.len(),
    ensures
        ({
            let read = WalkView {
                removed,
                unread: list.skip(n),
                plans: plans_of(list, contents, removed).take(n),
                settled: Seq::empty(),
            };
            after_loads(WalkView::start(removed, list), contents.take(n)) == if n < list.len() {
                read
            } else {
                read.settle()
            }
        }),
    decreases n,
{
    let plans = plans_of(list, contents, removed);
    let start = WalkView::start(removed, list);
    if n == 0 {
        assert(list.skip(0) == list);
        assert(plans.take(0) == Seq::<PlanView>::empty());
    } else {
        lemma_after_loads(list, contents, removed, n - 1);
        assert(contents.take(n).drop_last() == contents.take(n - 1));
        assert(list.skip(n - 1).drop_first() == list.skip(n));
        assert(plans.take(n - 1).push(plans[n - 1]) == plans.take(n));
    }
}

/// Once everything is read, the walk waits for the manifests that the plans want written, one by
/// one, and what comes of it is fixed by the plans and by what is written.
pub(crate) proof fn lemma_after_writes(
    list: Seq<ManifestFile>,
    contents: Seq<Seq<ManifestEntry>>,
    removed: Set<Seq<char>>,
    written: Seq<ManifestFile>,
    rest: Seq<ManifestFile>,
)
    requires
        contents.len() == list.len(),
        written.len() <= rewrites(plans_of(list, contents, removed)).len(),
    ensures
        ({
            let plans = plans_of(list, contents, removed);
            let walk = after_writes(
                after_loads(WalkView::start(removed, list), contents),
                written,
            );
            &&& walk.unread.len() == 0
            &&& walk.well_formed()
            &&& rewrites(walk.plans) == rewrites(plans).skip(written.len() as int)
            &&& walk.settled + assemble(walk.plans, rest) == assemble(plans, written + rest)
        }),
    decreases written.len(),
{
    let plans = plans_of(list, contents, removed);
    let start = WalkView::start(removed, list);
    let n = written.len();
    if n == 0 {
        lemma_after_loads(list, contents, removed, list.len() as int);
        assert(contents.take(contents.len() as int) == contents);
        assert(plans.take(list.len() as int) == plans);
        let read = WalkView {
            removed,
            unread: list.skip(list.len() as int),
            plans,
            settled: Seq::empty(),
        };
        assert(after_loads(start, contents) == read.settle());
        lemma_settle(read);
        lemma_settle_keeps_outcome(read, rest);
        assert(written + rest == rest);
        assert(read.settled + assemble(plans, rest) == assemble(plans, rest));
    } else {
        let front = written.drop_last();
        let last = written.last();
        lemma_after_writes(list, contents, removed, front, seq![last] + rest);
        let before = after_writes(after_loads(start, contents), front);
        assert(rewrites(plans).skip(n - 1).len() > 0);
        assert(before.plans.len() > 0);
        let next = WalkView {
            plans: before.plans.drop_first(),
            settled: before.settled.push(last),
            ..before
        };
        lemma_settle(next);
        lemma_settle_keeps_outcome(next, rest);
        assert(before.plans.first() is Rewrite);
        assert(rewrites(before.plans).drop_first() == rewrites(next.plans));
        assert(rewrites(plans).skip(n - 1).drop_first() == rewrites(plans).skip(n as int));
        assert((seq![last] + rest).drop_first() == rest);
        assert(before.settled + (seq![last] + assemble(next.plans, rest)) == next.settled
            + assemble(next.plans, rest));
        assert(front + (seq![last] + rest) == written + rest);
    }
}

/// A walk asks for the manifests of the prior list one by one, in the order of the list; then it
/// asks for the manifests that have to be rewritten to be written, in the same order; and then it
/// is over. The new list holds, again in the order of the prior one, the manifests that carry
/// forward and those that were written.
pub proof fn law_walk_runs_to_its_end(
    list: Seq<ManifestFile>,
    contents: Seq<Seq<ManifestEntry>>,
    removed: Set<Seq<char>>,
    written: Seq<ManifestFile>,
)
    requires
        contents.len() == list.len(),
        written.len() == rewrites(plans_of(list, contents, removed)).len(),
    ensures
        ({
            let plans = plans_of(list, contents, removed);
            let start = WalkView::start(removed, list);
            let read = after_loads(start, contents);
            let end = after_writes(read, written);
            &&& forall|k: int|
                0 <= k < list.len() ==> {
                    let walk = #[trigger] after_loads(start, contents.take(k));
                    walk.waits_for_load() && walk.unread.first() == list[k]
                }
            &&& forall|k: int|
                0 <= k < written.len() ==> {
                    let walk = #[trigger] after_writes(read, written.take(k));
                    walk.waits_for_write() && walk.plans.first() == PlanView::Rewrite(
                        rewrites(plans)[k],
                    )
                }
            &&& end.is_finished()
            &&& end.settled == assemble(plans, written)
        }),
{
    let plans = plans_of(list, contents, removed);
    let start = WalkView::start(removed, list);
    let read = after_loads(start, contents);
    assert forall|k: int| 0 <= k < list.len() implies {
        let walk = #[trigger] after_loads(start, contents.take(k));
        walk.waits_for_load() && walk.unread.first() == list[k]
    } by {
        lemma_after_loads(list, contents, removed, k);
    }
    assert forall|k: int| 0 <= k < written.len() implies {
        let walk = #[trigger] after_writes(read, written.take(k));
        walk.waits_for_write() && walk.plans.first() == PlanView::Rewrite(rewrites(plans)[k])
    } by {
        lemma_after_writes(list, contents, removed, written.take(k), Seq::empty());
        let walk = after_writes(read, written.take(k));
        assert(rewrites(walk.plans).len() > 0);
        assert(walk.plans.len() > 0);
        assert(walk.plans.first() is Rewrite);
        assert(rewrites(walk.plans)[0] == rewrites(plans)[k]);
    }
    lemma_after_writes(list, contents, removed, written, Seq::empty());
    let end = after_writes(read, written);
    assert(rewrites(end.plans).len() == 0);
    assert(written + Seq::<ManifestFile>::empty() == written);
    assert(end.settled + assemble(end.plans, Seq::empty()) == end.settled);
}

/// Whether the manifests that were `asked` for are stored as `written`.
pub open spec fn stored_as(
    asked: Seq<ManifestContents>,
    written: Seq<ManifestFile>,
    store: Store,
) -> bool {
    &&& written.len() == asked.len()
    &&& forall|k: int|
        0 <= k < written.len() ==> (#[trigger] written[k]).content == asked[k].content && store(
            written[k],
        ) == asked[k].entries
}

/// The manifests that come of a walk over the prior list `list`, where the manifests that had to
/// be written became `written`.
pub open spec fn carried_over(
    list: Seq<ManifestFile>,
    store: Store,
    removed: Set<Seq<char>>,
    written: Seq<ManifestFile>,
) -> Seq<ManifestFile> {
    assemble(plans_of(list, contents_in(list, store), removed), written)
}

/// The manifests that a walk over the prior list `list` wants written.
pub open spec fn asked_for(
    list: Seq<ManifestFile>,
    store: Store,
    removed: Set<Seq<char>>,
) -> Seq<ManifestContents> {
    rewrites(plans_of(list, contents_in(list, store), removed))
}

/// What becomes of the first manifest, and of the others.
pub(crate) proof fn lemma_plans_step(list: Seq<ManifestFile>, store: Store, removed: Set<Seq<char>>)
    requires
        list.len() > 0,
    ensures
        plans_of(list, contents_in(list, store), removed).first() == plan_of(
            list.first(),
            store(list.first()),
            removed,
        ),
        plans_of(list, contents_in(list, store), removed).drop_first() == plans_of(
            list.drop_first(),
            contents_in(list.drop_first(), store),
            removed,
        ),
{
    assert(plans_of(list, contents_in(list, store), removed).drop_first() =~= plans_of(
        list.drop_first(),
        contents_in(list.drop_first(), store),
        removed,
    ));
}

/// Where the first manifest has to be written, the others are stored as the rest.
pub(crate) proof fn lemma_stored_as_step(
    first: ManifestContents,
    asked: Seq<ManifestContents>,
    written: Seq<ManifestFile>,
    store: Store,
)
    requires
        stored_as(seq![first] + asked, written, store),
    ensures
        written.len() > 0,
        written.first().content == first.content,
        store(written.first()) == first.entries,
        stored_as(asked, written.drop_first(), store),
{
    let all = seq![first] + asked;
    assert(all[0] == first);
    assert(written[0] == written.first());
    assert forall|k: int| 0 <= k < written.drop_first().len() implies (
    #[trigger] written.drop_first()[k]).content == asked[k].content && store(
        written.drop_first()[k],
    ) == asked[k].entries by {
        assert(all[k + 1] == asked[k]);
        assert(written[k + 1] == written.drop_first()[k]);
    }
}

/// The survivors of two lists of entries are those of the first and then those of the second.
proof fn lemma_survivors_concat(
    a: Seq<ManifestEntry>,
    b: Seq<ManifestEntry>,
    removed: Set<Seq<char>>,
)
    ensures
        survivors(a + b, removed) == survivors(a, removed) + survivors(b, removed),
{
    Seq::filter_distributes_over_add(
        a,
        b,
        |entry: ManifestEntry| !is_removed(entry, removed),
    );
}

/// Entries none of which is removed all survive.
pub(crate) proof fn lemma_all_survive(entries: Seq<ManifestEntry>, removed: Set<Seq<char>>)
    requires
        forall|i: int| 0 <= i < entries.len() ==> !is_removed(#[trigger] entries[i], removed),
    ensures
        survivors(entries, removed) == entries,
    decreases entries.len(),
{
    reveal(Seq::filter);
    if entries.len() > 0 {
        let front = entries.drop_last();
        assert(forall|i: int| 0 <= i < front.len() ==> front[i] == entries[i]);
        lemma_all_survive(front, removed);
        assert(entries == front.push(entries.last()));
    }
}

/// No survivor is removed.
proof fn lemma_survivors_are_not_removed(entries: Seq<ManifestEntry>, removed: Set<Seq<char>>)
    ensures
        forall|i: int|
            0 <= i < survivors(entries, removed).len() ==> !is_removed(
                #[trigger] survivors(entries, removed)[i],
                removed,
            ),
{
    let survives = |entry: ManifestEntry| !is_removed(entry, removed);
    assert forall|i: int| 0 <= i < survivors(entries, removed).len() implies !is_removed(
        #[trigger] survivors(entries, removed)[i],
        removed,
    ) by {
        entries.lemma_filter_pred(survives, i);
    }
}

/// A walk loses no file but the removed ones, and invents none: the manifests that come of it
/// hold the surviving entries of the prior manifests, in the same order, each with the file, the
/// snapshot id and the sequence numbers that it had. Only the status may have changed, to
/// existing.
pub proof fn law_walk_keeps_the_survivors(
    list: Seq<ManifestFile>,
    store: Store,
    removed: Set<Seq<char>>,
    written: Seq<ManifestFile>,
)
    requires
        stored_as(asked_for(list, store, removed), written, store),
    ensures
        as_existing(entries_of(carried_over(list, store, removed, written), store)) == as_existing(
            survivors(entries_of(list, store), removed),
        ),
    decreases list.len(),
{
    if list.len() == 0 {
        assert(survivors(entries_of(list, store), removed) == Seq::<ManifestEntry>::empty()) by {
            reveal(Seq::filter);
        }
    } else {
        let first = store(list.first());
        let rest = list.drop_first();
        lemma_plans_step(list, store, removed);
        lemma_survivors_concat(first, entries_of(rest, store), removed);
        lemma_survivors_len(first, removed);
        let kept = survivors(first, removed);
        let kept_of_rest = survivors(entries_of(rest, store), removed);
        assert(as_existing(kept + kept_of_rest) == as_existing(kept) + as_existing(kept_of_rest));
        match plan_of(list.first(), first, removed) {
            PlanView::CarryForward(manifest) => {
                law_walk_keeps_the_survivors(rest, store, removed, written);
                lemma_all_survive(first, removed);
                let out = carried_over(rest, store, removed, written);
                assert((seq![manifest] + out).drop_first() == out);
                assert(as_existing(first + entries_of(out, store)) == as_existing(first)
                    + as_existing(entries_of(out, store)));
            },
            PlanView::DropEntirely => {
                law_walk_keeps_the_survivors(rest, store, removed, written);
                assert(as_existing(kept) + as_existing(kept_of_rest) == as_existing(kept_of_rest));
            },
            PlanView::Rewrite(contents) => {
                lemma_stored_as_step(contents, asked_for(rest, store, removed), written, store);
                law_walk_keeps_the_survivors(rest, store, removed, written.drop_first());
                let out = carried_over(rest, store, removed, written.drop_first());
                assert((seq![written.first()] + out).drop_first() == out);
                assert(as_existing(as_existing(kept) + entries_of(out, store)) == as_existing(kept)
                    + as_existing(entries_of(out, store)));
            },
        }
    }
}

/// What holds of an element and of all elements of a sequence holds of all of the two together.
proof fn lemma_prepend_all<A>(first: A, rest: Seq<A>, holds: spec_fn(A) -> bool)
    requires
        holds(first),
        forall|i: int| 0 <= i < rest.len() ==> holds(#[trigger] rest[i]),
    ensures
        forall|i: int|
            0 <= i < (seq![first] + rest).len() ==> holds(#[trigger] (seq![first] + rest)[i]),
{
    assert forall|i: int| 0 <= i < (seq![first] + rest).len() implies holds(
        #[trigger] (seq![first] + rest)[i],
    ) by {
        if i > 0 {
            assert((seq![first] + rest)[i] == rest[i - 1]);
        }
    }
}

/// What holds of the manifests that carry forward and of those that were written holds of all
/// that come of a walk.
proof fn lemma_carried_over_all(
    list: Seq<ManifestFile>,
    store: Store,
    removed: Set<Seq<char>>,
    written: Seq<ManifestFile>,
    holds: spec_fn(ManifestFile) -> bool,
)
    requires
        written.len() == asked_for(list, store, removed).len(),
        forall|i: int|
            0 <= i < list.len() && plan_of(#[trigger] list[i], store(list[i]), removed)
                == PlanView::CarryForward(list[i]) ==> holds(list[i]),
        forall|k: int| 0 <= k < written.len() ==> holds(#[trigger] written[k]),
    ensures
        forall|i: int|
            0 <= i < carried_over(list, store, removed, written).len() ==> holds(
                #[trigger] carried_over(list, store, removed, written)[i],
            ),
    decreases list.len(),
{
    if list.len() > 0 {
        let rest = list.drop_first();
        lemma_plans_step(list, store, removed);
        assert(list[0] == list.first());
        assert(forall|i: int| 0 <= i < rest.len() ==> #[trigger] rest[i] == list[i + 1]);
        match plan_of(list.first(), store(list.first()), removed) {
            PlanView::CarryForward(manifest) => {
                lemma_carried_over_all(rest, store, removed, written, holds);
                let out = carried_over(rest, store, removed, written);
                lemma_prepend_all(manifest, out, holds);
                assert(carried_over(list, store, removed, written) == seq![manifest] + out);
            },
            PlanView::DropEntirely => {
                lemma_carried_over_all(rest, store, removed, written, holds);
                assert(carried_over(list, store, removed, written) == carried_over(
                    rest,
                    store,
                    removed,
                    written,
                ));
            },
            PlanView::Rewrite(contents) => {
                assert(written[0] == written.first());
                let others = written.drop_first();
                assert(forall|k: int| 0 <= k < others.len() ==> #[trigger] others[k]
                    == written[k + 1]);
                lemma_carried_over_all(rest, store, removed, others, holds);
                let out = carried_over(rest, store, removed, others);
                lemma_prepend_all(written.first(), out, holds);
                assert(carried_over(list, store, removed, written) == seq![written.first()] + out);
            },
        }
    }
}

/// What holds of the plan of every manifest that is rewritten holds of every manifest that a walk
/// wants written.
pub(crate) proof fn lemma_asked_for_all(
    list: Seq<ManifestFile>,
    store: Store,
    removed: Set<Seq<char>>,
    holds: spec_fn(ManifestContents) -> bool,
)
    requires
        forall|i: int|
            0 <= i < list.len() ==> (plan_of(
                #[trigger] list[i],
                store(list[i]),
                removed,
            ) matches PlanView::Rewrite(contents) ==> holds(contents)),
    ensures
        forall|k: int|
            0 <= k < asked_for(list, store, removed).len() ==> holds(
                #[trigger] asked_for(list, store, removed)[k],
            ),
    decreases list.len(),
{
    if list.len() > 0 {
        let rest = list.drop_first();
        lemma_plans_step(list, store, removed);
        assert(list[0] == list.first());
        assert(forall|i: int| 0 <= i < rest.len() ==> #[trigger] rest[i] == list[i + 1]);
        lemma_asked_for_all(rest, store, removed, holds);
        if let PlanView::Rewrite(contents) = plan_of(list.first(), store(list.first()), removed) {
            let asked = asked_for(rest, store, removed);
            lemma_prepend_all(contents, asked, holds);
            assert(asked_for(list, store, removed) == seq![contents] + asked);
        } else {
            assert(asked_for(list, store, removed) == asked_for(rest, store, removed));
        }
    }
}

/// Where no manifest of the prior list mixes data files and delete files, neither does any that a
/// walk wants written, nor any that comes of the walk.
pub proof fn law_walk_keeps_data_and_deletes_apart(
    list: Seq<ManifestFile>,
    store: Store,
    removed: Set<Seq<char>>,
    written: Seq<ManifestFile>,
)
    requires
        stored_as(asked_for(list, store, removed), written, store),
        forall|i: int|
            0 <= i < list.len() ==> holds_only((#[trigger] list[i]).content, store(list[i])),
    ensures
        forall|k: int|
            0 <= k < asked_for(list, store, removed).len() ==> (#[trigger] asked_for(
                list,
                store,
                removed,
            )[k]).is_uniform(),
        forall|i: int|
            0 <= i < carried_over(list, store, removed, written).len() ==> holds_only(
                (#[trigger] carried_over(list, store, removed, written)[i]).content,
                store(carried_over(list, store, removed, written)[i]),
            ),
{
    let asked = asked_for(list, store, removed);
    assert forall|i: int| 0 <= i < list.len() implies (plan_of(
        #[trigger] list[i],
        store(list[i]),
        removed,
    ) matches PlanView::Rewrite(contents) ==> contents.is_uniform()) by {
        let entries = store(list[i]);
        let kept = survivors(entries, removed);
        let survives = |entry: ManifestEntry| !is_removed(entry, removed);
        assert forall|j: int| 0 <= j < kept.len() implies ((#[trigger] as_existing(
            kept,
        )[j]).data_file.is_data() <==> list[i].content
            == ManifestContentType::Data) by {
            assert(kept.contains(kept[j]));
            entries.lemma_filter_contains_rev(survives, kept[j]);
            let m = choose|m: int| 0 <= m < entries.len() && entries[m] == kept[j];
            assert(entries[m] == kept[j]);
        }
    }
    lemma_asked_for_all(list, store, removed, |contents: ManifestContents| contents.is_uniform());
    assert forall|k: int| 0 <= k < written.len() implies holds_only(
        (#[trigger] written[k]).content,
        store(written[k]),
    ) by {
        assert(asked[k].is_uniform());
    }
    lemma_carried_over_all(
        list,
        store,
        removed,
        written,
        |manifest: ManifestFile| holds_only(manifest.content, store(manifest)),
    );
}

/// Where the removed paths meet no entry of the prior manifests, and so in particular where
/// nothing is removed, every manifest carries forward unchanged and nothing is written.
pub proof fn law_walk_without_removals_changes_nothing(
    list: Seq<ManifestFile>,
    store: Store,
    removed: Set<Seq<char>>,
)
    requires
        forall|i: int, j: int|
            0 <= i < list.len() && 0 <= j < store(list[i]).len() ==> !is_removed(
                #[trigger] store(list[i])[j],
                removed,
            ),
    ensures
        asked_for(list, store, removed) == Seq::<ManifestContents>::empty(),
        carried_over(list, store, removed, Seq::empty()) == list,
    decreases list.len(),
{
    if list.len() > 0 {
        let rest = list.drop_first();
        lemma_plans_step(list, store, removed);
        assert(list[0] == list.first());
        assert forall|i: int, j: int|
            0 <= i < rest.len() && 0 <= j < store(rest[i]).len() implies !is_removed(
            #[trigger] store(rest[i])[j],
            removed,
        ) by {
            assert(rest[i] == list[i + 1]);
        }
        law_walk_without_removals_changes_nothing(rest, store, removed);
        assert(seq![list.first()] + rest == list);
    }
}

/// A second walk that removes the same files again finds nothing to do.
pub proof fn law_walk_again_changes_nothing(
    list: Seq<ManifestFile>,
    store: Store,
    removed: Set<Seq<char>>,
    written: Seq<ManifestFile>,
)
    requires
        stored_as(asked_for(list, store, removed), written, store),
    ensures
        ({
            let out = carried_over(list, store, removed, written);
            &&& asked_for(out, store, removed) == Seq::<ManifestContents>::empty()
            &&& carried_over(out, store, removed, Seq::empty()) == out
        }),
{
    let out = carried_over(list, store, removed, written);
    let asked = asked_for(list, store, removed);
    let clean = |entries: Seq<ManifestEntry>|
        forall|j: int| 0 <= j < entries.len() ==> !is_removed(#[trigger] entries[j], removed);
    assert forall|i: int| 0 <= i < list.len() implies (plan_of(
        #[trigger] list[i],
        store(list[i]),
        removed,
    ) matches PlanView::Rewrite(contents) ==> clean(contents.entries)) by {
        let kept = survivors(store(list[i]), removed);
        lemma_survivors_are_not_removed(store(list[i]), removed);
        assert(forall|j: int|
            0 <= j < kept.len() ==> #[trigger] as_existing(kept)[j] == kept[j].as_existing());
    }
    lemma_asked_for_all(list, store, removed, |contents: ManifestContents| clean(contents.entries));
    assert forall|k: int| 0 <= k < written.len() implies clean(
        store(#[trigger] written[k]),
    ) by {
        assert(clean(asked[k].entries));
    }
    lemma_carried_over_all(
        list,
        store,
        removed,
        written,
        |manifest: ManifestFile| clean(store(manifest)),
    );
    assert forall|i: int, j: int| 0 <= i < out.len() && 0 <= j < store(out[i]).len() implies
        !is_removed(#[trigger] store(out[i])[j], removed) by {
        assert(clean(store(out[i])));
    }
    law_walk_without_removals_changes_nothing(out, store, removed);
}

/// What survives two removals in a row is what survives the removal of both at once; marking the
/// survivors of the first as existing makes no difference.
proof fn lemma_survivors_in_steps(
    entries: Seq<ManifestEntry>,
    first: Set<Seq<char>>,
    second: Set<Seq<char>>,
)
    ensures
        survivors(survivors(entries, first), second) == survivors(entries, first.union(second)),
        survivors(as_existing(entries), second) == as_existing(survivors(entries, second)),
    decreases entries.len(),
{
    reveal(Seq::filter);
    if entries.len() > 0 {
        let front = entries.drop_last();
        let last = entries.last();
        lemma_survivors_in_steps(front, first, second);
        if !is_removed(last, first) {
            assert(survivors(entries, first).drop_last() == survivors(front, first));
        }
        assert(as_existing(entries).drop_last() == as_existing(front));
        assert(as_existing(entries).last() == last.as_existing());
        if !is_removed(last, second) {
            assert(as_existing(survivors(front, second).push(last)) =~= as_existing(
                survivors(front, second),
            ).push(last.as_existing()));
        }
    } else {
        assert(as_existing(entries) == Seq::<ManifestEntry>::empty());
    }
}

/// Two walks, one after the other, keep the entries that a single walk keeps that removes the
/// files of both.
pub proof fn law_walks_in_steps(
    list: Seq<ManifestFile>,
    store: Store,
    first: Set<Seq<char>>,
    written: Seq<ManifestFile>,
    second: Set<Seq<char>>,
    written_again: Seq<ManifestFile>,
)
    requires
        stored_as(asked_for(list, store, first), written, store),
        stored_as(
            asked_for(carried_over(list, store, first, written), store, second),
            written_again,
            store,
        ),
    ensures
        as_existing(
            entries_of(
                carried_over(
                    carried_over(list, store, first, written),
                    store,
                    second,
                    written_again,
                ),
                store,
            ),
        ) == as_existing(survivors(entries_of(list, store), first.union(second))),
{
    let prior = entries_of(list, store);
    let between = carried_over(list, store, first, written);
    let kept = entries_of(between, store);
    law_walk_keeps_the_survivors(list, store, first, written);
    law_walk_keeps_the_survivors(between, store, second, written_again);
    lemma_survivors_in_steps(kept, first, second);
    lemma_survivors_in_steps(survivors(prior, first), first, second);
    lemma_survivors_in_steps(prior, first, second);
}

} // verus!
