//! The walk over the manifests of a prior snapshot that drops files from it.
//!
//! The walk first reads every manifest and plans what becomes of it, then writes the manifests
//! that have to be rewritten. Reading and writing are left to the caller: [`ManifestWalk::task`]
//! says what is to be done next, and the caller hands back what came of it.

use std::collections::VecDeque;
use vstd::hash_set::StringHashSet;
use vstd::prelude::*;

use crate::error::Error;
use crate::manifest::{ManifestEntry, ManifestFile, NewManifest};
#[allow(unused_imports)]
use crate::manifest::{as_existing, ManifestContents};

verus! {

/// Whether the file of `entry` is one of the removed files: the paths match exactly.
pub open spec fn is_removed(entry: ManifestEntry, removed: Set<Seq<char>>) -> bool {
    removed.contains(entry.data_file.path())
}

/// The entries whose files are not removed, in order.
pub open spec fn survivors(entries: Seq<ManifestEntry>, removed: Set<Seq<char>>) -> Seq<
    ManifestEntry,
> {
    entries.filter(|entry: ManifestEntry| !is_removed(entry, removed))
}

/// What becomes of a manifest of the prior snapshot.
pub enum Plan {
    /// No file of the manifest is removed: it stays as it is.
    CarryForward(ManifestFile),
    /// Every file of the manifest is removed: it leaves the manifest list.
    DropEntirely,
    /// Some files are removed: this manifest, which holds the survivors, takes its place.
    Rewrite(NewManifest),
}

/// What a [`Plan`] says.
#[verifier::ext_equal]
pub enum PlanView {
    CarryForward(ManifestFile),
    DropEntirely,
    Rewrite(ManifestContents),
}

impl View for Plan {
    type V = PlanView;

    open spec fn view(&self) -> PlanView {
        match self {
            Plan::CarryForward(manifest) => PlanView::CarryForward(*manifest),
            Plan::DropEntirely => PlanView::DropEntirely,
            Plan::Rewrite(manifest) => PlanView::Rewrite(manifest@),
        }
    }
}

/// What becomes of `manifest`, which holds `entries`, when the files at `removed` are removed.
pub open spec fn plan_of(
    manifest: ManifestFile,
    entries: Seq<ManifestEntry>,
    removed: Set<Seq<char>>,
) -> PlanView {
    if forall|i: int| 0 <= i < entries.len() ==> !is_removed(#[trigger] entries[i], removed) {
        PlanView::CarryForward(manifest)
    } else if forall|i: int| 0 <= i < entries.len() ==> is_removed(#[trigger] entries[i], removed) {
        PlanView::DropEntirely
    } else {
        PlanView::Rewrite(
            ManifestContents {
                content: manifest.content,
                entries: as_existing(survivors(entries, removed)),
            },
        )
    }
}

/// As many entries survive as there are exactly when none is removed, and none survives exactly
/// when all are removed.
pub(crate) proof fn lemma_survivors_len(entries: Seq<ManifestEntry>, removed: Set<Seq<char>>)
    ensures
        survivors(entries, removed).len() <= entries.len(),
        survivors(entries, removed).len() == entries.len() <==> forall|i: int|
            0 <= i < entries.len() ==> !is_removed(#[trigger] entries[i], removed),
        survivors(entries, removed).len() == 0 <==> forall|i: int|
            0 <= i < entries.len() ==> is_removed(#[trigger] entries[i], removed),
    decreases entries.len(),
{
    reveal(Seq::filter);
    if entries.len() > 0 {
        let front = entries.drop_last();
        lemma_survivors_len(front, removed);
        assert(forall|i: int| 0 <= i < front.len() ==> front[i] == entries[i]);
        assert(entries.last() == entries[entries.len() - 1]);
    }
}

/// Plans what becomes of `manifest`, which holds `entries`.
pub fn plan_manifest(
    removed_paths: &StringHashSet,
    manifest: ManifestFile,
    entries: Vec<ManifestEntry>,
) -> (plan: Plan)
    ensures
        plan@ == plan_of(manifest, entries@, removed_paths@),
{
    let ghost all = entries@;
    let ghost removed = removed_paths@;
    let total: usize = entries.len();
    let mut kept: Vec<ManifestEntry> = Vec::new();
    assert(all.take(0) == Seq::<ManifestEntry>::empty());
    for entry in iter: entries
        invariant
            iter.seq() == all,
            removed == removed_paths@,
            kept@ == survivors(all.take(iter.index() as int), removed),
    {
        proof {
            let n = iter.index() as int;
            reveal(Seq::filter);
            assert(all.take(n + 1).drop_last() == all.take(n));
            assert(all.take(n + 1).last() == entry);
        }
        if !removed_paths.contains(entry.data_file.file_path()) {
            kept.push(entry);
        }
    }
    proof {
        assert(all.take(all.len() as int) == all);
        lemma_survivors_len(all, removed);
    }
    if kept.len() == total {
        Plan::CarryForward(manifest)
    } else if kept.is_empty() {
        Plan::DropEntirely
    } else {
        Plan::Rewrite(NewManifest::existing(kept, manifest.content))
    }
}

/// The state of a walk.
#[verifier::ext_equal]
pub struct WalkView {
    /// The paths of the files that are removed.
    pub removed: Set<Seq<char>>,
    /// The manifests that are still to be read, in the order of the prior list.
    pub unread: Seq<ManifestFile>,
    /// The plans that are still to be carried out, in the order of the prior list.
    pub plans: Seq<PlanView>,
    /// The manifests of the new list that are settled, in the order of the prior list.
    pub settled: Seq<ManifestFile>,
}

/// What a walk waits for.
pub enum WalkTask<'a> {
    /// The entries of this manifest, to be handed to [`ManifestWalk::loaded`].
    Load(&'a ManifestFile),
    /// The manifest file as which this manifest was written, to be handed to
    /// [`ManifestWalk::written`].
    Write(&'a NewManifest),
    /// Nothing: [`ManifestWalk::finish`] gives the manifests of the new list.
    Finish,
}

impl WalkView {
    /// A walk over `list` that has read nothing yet.
    pub open spec fn start(removed: Set<Seq<char>>, list: Seq<ManifestFile>) -> WalkView {
        WalkView { removed, unread: list, plans: Seq::empty(), settled: Seq::empty() }
    }

    /// Carries out the plans that need no writing, up to the first that does.
    pub open spec fn settle(self) -> WalkView
        decreases self.plans.len(),
    {
        if self.plans.len() == 0 {
            self
        } else {
            match self.plans.first() {
                PlanView::CarryForward(manifest) => WalkView {
                    plans: self.plans.drop_first(),
                    settled: self.settled.push(manifest),
                    ..self
                }.settle(),
                PlanView::DropEntirely => WalkView {
                    plans: self.plans.drop_first(),
                    ..self
                }.settle(),
                PlanView::Rewrite(_) => self,
            }
        }
    }

    /// The walk after the first unread manifest turned out to hold `entries`.
    pub open spec fn after_load(self, entries: Seq<ManifestEntry>) -> WalkView {
        let read = WalkView {
            unread: self.unread.drop_first(),
            plans: self.plans.push(plan_of(self.unread.first(), entries, self.removed)),
            ..self
        };
        if read.unread.len() == 0 {
            read.settle()
        } else {
            read
        }
    }

    /// The walk after the manifest that it waited for was written as `manifest`.
    pub open spec fn after_write(self, manifest: ManifestFile) -> WalkView {
        WalkView {
            plans: self.plans.drop_first(),
            settled: self.settled.push(manifest),
            ..self
        }.settle()
    }

    /// Whether the walk waits for the entries of a manifest.
    pub open spec fn waits_for_load(self) -> bool {
        self.unread.len() > 0
    }

    /// Whether the walk waits for a manifest to be written.
    pub open spec fn waits_for_write(self) -> bool {
        self.unread.len() == 0 && self.plans.len() > 0
    }

    /// Whether the walk is over.
    pub open spec fn is_finished(self) -> bool {
        self.unread.len() == 0 && self.plans.len() == 0
    }

    /// What holds of every walk: nothing is settled before everything is read, and from then on
    /// the first open plan is one that needs writing.
    pub open spec fn well_formed(self) -> bool {
        if self.unread.len() > 0 {
            self.settled.len() == 0
        } else {
            self.plans.len() > 0 ==> self.plans.first() is Rewrite
        }
    }
}

/// Settling leaves the removed paths and the unread manifests alone, and stops only before a plan
/// that needs writing.
pub(crate) proof fn lemma_settle(walk: WalkView)
    ensures
        walk.settle().removed == walk.removed,
        walk.settle().unread == walk.unread,
        walk.settle().plans.len() <= walk.plans.len(),
        walk.settle().plans.len() > 0 ==> walk.settle().plans.first() is Rewrite,
    decreases walk.plans.len(),
{
    if walk.plans.len() > 0 {
        match walk.plans.first() {
            PlanView::CarryForward(manifest) => lemma_settle(
                WalkView {
                    plans: walk.plans.drop_first(),
                    settled: walk.settled.push(manifest),
                    ..walk
                },
            ),
            PlanView::DropEntirely => lemma_settle(
                WalkView { plans: walk.plans.drop_first(), ..walk },
            ),
            PlanView::Rewrite(_) => {},
        }
    }
}

/// A walk over the manifests of the prior snapshot, which turns them into those manifests of the
/// new snapshot that hold files of the prior one.
pub struct ManifestWalk<'a> {
    removed_paths: &'a StringHashSet,
    unread: VecDeque<ManifestFile>,
    plans: VecDeque<Plan>,
    settled: Vec<ManifestFile>,
}

impl<'a> View for ManifestWalk<'a> {
    type V = WalkView;

    closed spec fn view(&self) -> WalkView {
        WalkView {
            removed: self.removed_paths@,
            unread: self.unread@,
            plans: self.plans@.map_values(|plan: Plan| plan@),
            settled: self.settled@,
        }
    }
}

impl<'a> ManifestWalk<'a> {
    /// A walk over the manifests of `list` that drops the files at `removed_paths`.
    pub fn start(removed_paths: &'a StringHashSet, list: Vec<ManifestFile>) -> (walk: ManifestWalk<
        'a,
    >)
        ensures
            walk@ == WalkView::start(removed_paths@, list@),
            walk@.well_formed(),
    {
        let ghost all = list@;
        let mut unread: VecDeque<ManifestFile> = VecDeque::new();
        for manifest in iter: list
            invariant
                iter.seq() == all,
                unread@ == all.take(iter.index() as int),
        {
            unread.push_back(manifest);
        }
        assert(all.take(all.len() as int) == all);
        let walk = ManifestWalk {
            removed_paths,
            unread,
            plans: VecDeque::new(),
            settled: Vec::new(),
        };
        assert(walk@.plans == Seq::<PlanView>::empty());
        walk
    }

    /// What the walk waits for.
    pub fn task(&self) -> (task: WalkTask<'_>)
        requires
            self@.well_formed(),
        ensures
            match task {
                WalkTask::Load(manifest) => self@.waits_for_load() && *manifest
                    == self@.unread.first(),
                WalkTask::Write(manifest) => self@.waits_for_write() && self@.plans.first()
                    == PlanView::Rewrite(manifest@),
                WalkTask::Finish => self@.is_finished(),
            },
    {
        if self.unread.len() > 0 {
            WalkTask::Load(&self.unread[0])
        } else if self.plans.len() > 0 {
            assert(self@.plans.first() == self.plans@[0]@);
            match &self.plans[0] {
                Plan::Rewrite(manifest) => WalkTask::Write(manifest),
                _ => {
                    assert(false);
                    WalkTask::Finish
                },
            }
        } else {
            WalkTask::Finish
        }
    }

    /// Goes on after the caller read the manifest that the walk waited for: with its entries, or
    /// not at all where reading failed.
    pub fn loaded(self, outcome: Result<Vec<ManifestEntry>, Error>) -> (next: Result<
        ManifestWalk<'a>,
        Error,
    >)
        requires
            self@.well_formed(),
            self@.waits_for_load(),
        ensures
            match outcome {
                Ok(entries) => next matches Ok(walk) && walk@ == self@.after_load(entries@)
                    && walk@.well_formed(),
                Err(error) => next == Err::<ManifestWalk<'a>, Error>(error),
            },
    {
        match outcome {
            Err(error) => Err(error),
            Ok(entries) => {
                let mut walk = self;
                let ghost before = walk@;
                match walk.unread.pop_front() {
                    None => {},
                    Some(manifest) => {
                        let plan = plan_manifest(walk.removed_paths, manifest, entries);
                        walk.plans.push_back(plan);
                    },
                }
                let ghost read = WalkView {
                    unread: before.unread.drop_first(),
                    plans: before.plans.push(
                        plan_of(before.unread.first(), entries@, before.removed),
                    ),
                    ..before
                };
                assert(walk@ =~= read);
                if walk.unread.len() == 0 {
                    walk.settle();
                    proof {
                        lemma_settle(read);
                    }
                }
                Ok(walk)
            },
        }
    }

    /// Goes on after the caller wrote the manifest that the walk waited for: with the manifest
    /// file it became, or not at all where writing failed.
    pub fn written(self, outcome: Result<ManifestFile, Error>) -> (next: Result<
        ManifestWalk<'a>,
        Error,
    >)
        requires
            self@.well_formed(),
            self@.waits_for_write(),
        ensures
            match outcome {
                Ok(manifest) => next matches Ok(walk) && walk@ == self@.after_write(manifest)
                    && walk@.well_formed(),
                Err(error) => next == Err::<ManifestWalk<'a>, Error>(error),
            },
    {
        match outcome {
            Err(error) => Err(error),
            Ok(manifest) => {
                let mut walk = self;
                let ghost before = walk@;
                let _ = walk.plans.pop_front();
                walk.settled.push(manifest);
                let ghost written = WalkView {
                    plans: before.plans.drop_first(),
                    settled: before.settled.push(manifest),
                    ..before
                };
                assert(walk@ =~= written);
                walk.settle();
                proof {
                    lemma_settle(written);
                }
                Ok(walk)
            },
        }
    }

    /// The manifests of the new list that hold files of the prior snapshot.
    pub fn finish(self) -> (manifests: Vec<ManifestFile>)
        requires
            self@.is_finished(),
        ensures
            manifests@ == self@.settled,
    {
        self.settled
    }

    /// Carries out the plans that need no writing, up to the first that does.
    fn settle(&mut self)
        ensures
            final(self)@ == old(self)@.settle(),
    {
        let ghost start = self@;
        loop
            invariant
                self@.settle() == start.settle(),
            ensures
                self@ == start.settle(),
            decreases self.plans@.len(),
        {
            let ghost before = self@;
            let front_needs_writing = if self.plans.len() == 0 {
                true
            } else {
                assert(before.plans.first() == self.plans@[0]@);
                match &self.plans[0] {
                    Plan::Rewrite(_) => true,
                    _ => false,
                }
            };
            if front_needs_writing {
                break;
            }
            match self.plans.pop_front() {
                Some(Plan::CarryForward(manifest)) => {
                    self.settled.push(manifest);
                    assert(self@ =~= WalkView {
                        plans: before.plans.drop_first(),
                        settled: before.settled.push(manifest),
                        ..before
                    });
                },
                _ => {
                    assert(self@ =~= WalkView { plans: before.plans.drop_first(), ..before });
                },
            }
        }
    }
}

} // verus!
