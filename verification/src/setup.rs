use vstd::prelude::*;
use crate::install::{plan_len, plan_step, step_at, InstallStep};

verus! {

/// How far the takeover at process attach has come.
#[derive(Clone, Copy, Debug, PartialEq, Eq, Structural)]
pub enum Stage {
    Start,
    /// mimalloc's process heap is being initialised.
    HeapReady,
    /// The detour transaction is being opened, with every other thread tracked.
    TransactionOpen,
    /// `ucrtbase.dll` is being looked up.
    RuntimeLookup,
    /// Install step `index` of the plan is being applied.
    Installing { index: usize },
    /// The transaction is being committed.
    Committing,
    /// The module is being pinned.
    Pinning,
    Done,
    Aborted,
}

/// Why the takeover stops.
#[derive(Clone, Copy, Debug, PartialEq, Eq, Structural)]
pub enum Failure {
    /// `ucrtbase.dll` is not loaded in the process.
    RuntimeMissing,
    /// Hooking an export failed.
    AttachFailed,
    /// The transaction could not be committed.
    CommitFailed,
}

/// What the entry point is to do next while taking over.
#[derive(Clone, Copy, Debug, PartialEq, Eq, Structural)]
pub enum SetupAction {
    /// Initialise mimalloc's process heap.
    InitHeap,
    /// Open the detour transaction and track all other threads.
    BeginTransaction,
    /// Look up `ucrtbase.dll`.
    FindRuntime,
    /// Apply one install step of the plan inside the transaction.
    Apply { step: InstallStep },
    /// Commit the transaction (the hooks go live) and keep the hooks forever.
    Commit,
    /// Pin the module so that it is never unloaded.
    Pin,
    /// Nothing is left to do.
    Finish,
    /// Stop the process with the given failure.
    Abort { failure: Failure },
}

/// The takeover's transition table: the stage after the previous action
/// ended (`succeeded` says whether it did its work) and the next action.
/// Initialising the heap, opening the transaction, resolving an export and
/// pinning cannot fail, so their outcome is not looked at.
pub open spec fn setup_next(stage: Stage, succeeded: bool) -> (Stage, SetupAction) {
    match stage {
        Stage::Start => (Stage::HeapReady, SetupAction::InitHeap),
        Stage::HeapReady => (Stage::TransactionOpen, SetupAction::BeginTransaction),
        Stage::TransactionOpen => (Stage::RuntimeLookup, SetupAction::FindRuntime),
        Stage::RuntimeLookup => if succeeded {
            (Stage::Installing { index: 0 }, SetupAction::Apply { step: step_at(0) })
        } else {
            (Stage::Aborted, SetupAction::Abort { failure: Failure::RuntimeMissing })
        },
        Stage::Installing { index } => if !succeeded {
            (Stage::Aborted, SetupAction::Abort { failure: Failure::AttachFailed })
        } else if index + 1 < plan_len() {
            (
                Stage::Installing { index: (index + 1) as usize },
                SetupAction::Apply { step: step_at(index + 1) },
            )
        } else {
            (Stage::Committing, SetupAction::Commit)
        },
        Stage::Committing => if succeeded {
            (Stage::Pinning, SetupAction::Pin)
        } else {
            (Stage::Aborted, SetupAction::Abort { failure: Failure::CommitFailed })
        },
        Stage::Pinning => (Stage::Done, SetupAction::Finish),
        Stage::Done => (Stage::Done, SetupAction::Finish),
        Stage::Aborted => (Stage::Aborted, SetupAction::Finish),
    }
}

/// The takeover at process attach, driven one outcome at a time.
#[derive(Clone, Copy, Debug)]
pub struct Setup {
    pub stage: Stage,
}

impl Setup {
    /// A takeover that has not started.
    pub fn new() -> (s: Setup)
        ensures
            s.stage == Stage::Start,
    {
        Setup { stage: Stage::Start }
    }

    /// Reports whether the previous action succeeded and returns the next one.
    pub fn advance(&mut self, succeeded: bool) -> (a: SetupAction)
        ensures
            (final(self).stage, a) == setup_next(old(self).stage, succeeded),
    {
        match self.stage {
            Stage::Start => {
                self.stage = Stage::HeapReady;
                SetupAction::InitHeap
            },
            Stage::HeapReady => {
                self.stage = Stage::TransactionOpen;
                SetupAction::BeginTransaction
            },
            Stage::TransactionOpen => {
                self.stage = Stage::RuntimeLookup;
                SetupAction::FindRuntime
            },
            Stage::RuntimeLookup => if succeeded {
                self.stage = Stage::Installing { index: 0 };
                SetupAction::Apply { step: plan_step(0) }
            } else {
                self.stage = Stage::Aborted;
                SetupAction::Abort { failure: Failure::RuntimeMissing }
            },
            Stage::Installing { index } => if !succeeded {
                self.stage = Stage::Aborted;
                SetupAction::Abort { failure: Failure::AttachFailed }
            } else if index < 20 {
                self.stage = Stage::Installing { index: index + 1 };
                SetupAction::Apply { step: plan_step(index + 1) }
            } else {
                self.stage = Stage::Committing;
                SetupAction::Commit
            },
            Stage::Committing => if succeeded {
                self.stage = Stage::Pinning;
                SetupAction::Pin
            } else {
                self.stage = Stage::Aborted;
                SetupAction::Abort { failure: Failure::CommitFailed }
            },
            Stage::Pinning => {
                self.stage = Stage::Done;
                SetupAction::Finish
            },
            Stage::Done => SetupAction::Finish,
            Stage::Aborted => SetupAction::Finish,
        }
    }
}

/// The actions that a takeover starting in `stage` calls for, one per outcome.
pub open spec fn setup_actions(stage: Stage, outcomes: Seq<bool>) -> Seq<SetupAction>
    decreases outcomes.len(),
{
    if outcomes.len() == 0 {
        Seq::empty()
    } else {
        let (s, a) = setup_next(stage, outcomes[0]);
        seq![a] + setup_actions(s, outcomes.drop_first())
    }
}

proof fn lemma_setup_len(stage: Stage, outcomes: Seq<bool>)
    ensures
        setup_actions(stage, outcomes).len() == outcomes.len(),
    decreases outcomes.len(),
{
    if outcomes.len() > 0 {
        lemma_setup_len(setup_next(stage, outcomes[0]).0, outcomes.drop_first());
    }
}

proof fn lemma_no_commit_after_install(stage: Stage, outcomes: Seq<bool>)
    requires
        stage is Committing || stage is Pinning || stage is Done || stage is Aborted,
    ensures
        forall|k: int|
            0 <= k < outcomes.len() ==> !(#[trigger] setup_actions(stage, outcomes)[k] is Commit),
    decreases outcomes.len(),
{
    lemma_setup_len(stage, outcomes);
    if outcomes.len() > 0 {
        let (s, a) = setup_next(stage, outcomes[0]);
        let rest = outcomes.drop_first();
        lemma_no_commit_after_install(s, rest);
        let acts = setup_actions(stage, outcomes);
        let tail = setup_actions(s, rest);
        assert(acts == seq![a] + tail);
        assert forall|k: int| 0 <= k < outcomes.len() implies !(#[trigger] acts[k] is Commit) by {
            if k > 0 {
                assert(acts[k] == tail[k - 1]);
            }
        }
    }
}

proof fn lemma_commit_from_installing(index: usize, outcomes: Seq<bool>)
    requires
        index < plan_len(),
    ensures
        forall|k: int|
            0 <= k < outcomes.len() && #[trigger] setup_actions(
                Stage::Installing { index },
                outcomes,
            )[k] is Commit ==> {
                &&& k == plan_len() - 1 - index
                &&& forall|j: int| 0 <= j <= k ==> #[trigger] outcomes[j]
                &&& forall|m: int|
                    0 <= m < k ==> #[trigger] setup_actions(Stage::Installing { index }, outcomes)[m]
                        == (SetupAction::Apply { step: step_at(index + 1 + m) })
            },
    decreases outcomes.len(),
{
    let stage = Stage::Installing { index };
    lemma_setup_len(stage, outcomes);
    if outcomes.len() > 0 {
        let (s, a) = setup_next(stage, outcomes[0]);
        let rest = outcomes.drop_first();
        let acts = setup_actions(stage, outcomes);
        let tail = setup_actions(s, rest);
        lemma_setup_len(s, rest);
        assert(acts == seq![a] + tail);
        if outcomes[0] && index + 1 < plan_len() {
            lemma_commit_from_installing((index + 1) as usize, rest);
        } else {
            lemma_no_commit_after_install(s, rest);
        }
        assert forall|k: int| 0 <= k < outcomes.len() && #[trigger] acts[k] is Commit implies {
            &&& k == plan_len() - 1 - index
            &&& forall|j: int| 0 <= j <= k ==> #[trigger] outcomes[j]
            &&& forall|m: int|
                0 <= m < k ==> #[trigger] acts[m] == (SetupAction::Apply {
                    step: step_at(index + 1 + m),
                })
        } by {
            if k > 0 {
                assert(acts[k] == tail[k - 1]);
                assert(outcomes[0] && index + 1 < plan_len());
                assert forall|j: int| 0 <= j <= k implies #[trigger] outcomes[j] by {
                    if j > 0 {
                        assert(outcomes[j] == rest[j - 1]);
                    }
                }
                assert forall|m: int| 0 <= m < k implies #[trigger] acts[m] == (SetupAction::Apply {
                    step: step_at(index + 1 + m),
                }) by {
                    if m > 0 {
                        assert(acts[m] == tail[m - 1]);
                    }
                }
            }
        }
    }
}

/// The hooks go live only after every step of the install plan was applied,
/// in plan order, and succeeded: a commit is only ever the 25th action, after
/// the runtime was found and all 21 steps went through; any failure before
/// it aborts the takeover instead.
pub proof fn lemma_commit_after_full_install(outcomes: Seq<bool>)
    ensures
        forall|k: int|
            0 <= k < outcomes.len() && #[trigger] setup_actions(Stage::Start, outcomes)[k]
                is Commit ==> {
                &&& k == 3 + plan_len()
                &&& setup_actions(Stage::Start, outcomes).subrange(0, 3) == seq![
                    SetupAction::InitHeap,
                    SetupAction::BeginTransaction,
                    SetupAction::FindRuntime,
                ]
                &&& forall|j: int| 3 <= j <= k ==> #[trigger] outcomes[j]
                &&& forall|i: int|
                    0 <= i < plan_len() ==> #[trigger] setup_actions(Stage::Start, outcomes)[3
                        + i] == (SetupAction::Apply { step: step_at(i) })
            },
{
    let acts = setup_actions(Stage::Start, outcomes);
    lemma_setup_len(Stage::Start, outcomes);
    if outcomes.len() > 4 && outcomes[3] {
        let o1 = outcomes.drop_first();
        let o2 = o1.drop_first();
        let o3 = o2.drop_first();
        let o4 = o3.drop_first();
        let a1 = setup_actions(Stage::HeapReady, o1);
        let a2 = setup_actions(Stage::TransactionOpen, o2);
        let a3 = setup_actions(Stage::RuntimeLookup, o3);
        let a4 = setup_actions(Stage::Installing { index: 0 }, o4);
        assert(acts == seq![SetupAction::InitHeap] + a1);
        assert(a1 == seq![SetupAction::BeginTransaction] + a2);
        assert(a2 == seq![SetupAction::FindRuntime] + a3);
        assert(o3[0] == outcomes[3]);
        assert(a3 == seq![SetupAction::Apply { step: step_at(0) }] + a4);
        lemma_commit_from_installing(0, o4);
        lemma_setup_len(Stage::Installing { index: 0 }, o4);
        assert forall|k: int| 0 <= k < outcomes.len() && #[trigger] acts[k] is Commit implies {
            &&& k == 3 + plan_len()
            &&& acts.subrange(0, 3) == seq![
                SetupAction::InitHeap,
                SetupAction::BeginTransaction,
                SetupAction::FindRuntime,
            ]
            &&& forall|j: int| 3 <= j <= k ==> #[trigger] outcomes[j]
            &&& forall|i: int|
                0 <= i < plan_len() ==> #[trigger] acts[3 + i] == (SetupAction::Apply {
                    step: step_at(i),
                })
        } by {
            assert(k >= 4) by {
                assert(acts[0] == SetupAction::InitHeap);
                assert(acts[1] == a1[0]);
                assert(acts[2] == a2[0]);
                assert(acts[3] == a3[0]);
            }
            assert(acts[k] == a4[k - 4]);
            assert(acts.subrange(0, 3) =~= seq![
                SetupAction::InitHeap,
                SetupAction::BeginTransaction,
                SetupAction::FindRuntime,
            ]);
            assert forall|j: int| 3 <= j <= k implies #[trigger] outcomes[j] by {
                if j > 3 {
                    assert(outcomes[j] == o4[j - 4]);
                }
            }
            assert forall|i: int| 0 <= i < plan_len() implies #[trigger] acts[3 + i]
                == (SetupAction::Apply { step: step_at(i) }) by {
                if i > 0 {
                    assert(acts[3 + i] == a4[i - 1]);
                }
            }
        }
    } else {
        assert forall|k: int| 0 <= k < outcomes.len() implies !(#[trigger] acts[k] is Commit) by {
            if outcomes.len() > 0 {
                assert(acts[0] == SetupAction::InitHeap);
            }
            if outcomes.len() > 1 {
                assert(acts[1] == setup_actions(Stage::HeapReady, outcomes.drop_first())[0]);
            }
            if outcomes.len() > 2 {
                assert(acts[2] == setup_actions(
                    Stage::TransactionOpen,
                    outcomes.drop_first().drop_first(),
                )[0]);
            }
            if outcomes.len() > 3 {
                let o3 = outcomes.drop_first().drop_first().drop_first();
                assert(acts[3] == setup_actions(Stage::RuntimeLookup, o3)[0]);
                if k > 3 {
                    assert(!outcomes[3]);
                    assert(o3[0] == outcomes[3]);
                    lemma_no_commit_after_install(Stage::Aborted, o3.drop_first());
                    assert(acts[k] == setup_actions(Stage::Aborted, o3.drop_first())[k - 4]);
                }
            }
        }
    }
}

/// A step that can fail and reports failure stops the takeover at once, with
/// the cause: a missing `ucrtbase.dll`, any failed attach whatever its
/// position in the plan, or a failed commit.
pub proof fn lemma_failure_aborts(stage: Stage)
    ensures
        stage is RuntimeLookup ==> setup_next(stage, false) == (Stage::Aborted, SetupAction::Abort {
            failure: Failure::RuntimeMissing,
        }),
        stage is Installing ==> setup_next(stage, false) == (Stage::Aborted, SetupAction::Abort {
            failure: Failure::AttachFailed,
        }),
        stage is Committing ==> setup_next(stage, false) == (Stage::Aborted, SetupAction::Abort {
            failure: Failure::CommitFailed,
        }),
{
}

proof fn lemma_pin_follows_commit(stage: Stage, outcomes: Seq<bool>)
    ensures
        forall|k: int|
            0 <= k < outcomes.len() && #[trigger] setup_actions(stage, outcomes)[k] is Pin ==> {
                &&& outcomes[k]
                &&& k == 0 ==> stage is Committing
                &&& k > 0 ==> setup_actions(stage, outcomes)[k - 1] is Commit
            },
    decreases outcomes.len(),
{
    lemma_setup_len(stage, outcomes);
    if outcomes.len() > 0 {
        let (s, a) = setup_next(stage, outcomes[0]);
        let rest = outcomes.drop_first();
        let acts = setup_actions(stage, outcomes);
        let tail = setup_actions(s, rest);
        lemma_pin_follows_commit(s, rest);
        lemma_setup_len(s, rest);
        assert(acts == seq![a] + tail);
        assert forall|k: int| 0 <= k < outcomes.len() && #[trigger] acts[k] is Pin implies {
            &&& outcomes[k]
            &&& k == 0 ==> stage is Committing
            &&& k > 0 ==> acts[k - 1] is Commit
        } by {
            if k > 0 {
                assert(acts[k] == tail[k - 1]);
                assert(outcomes[k] == rest[k - 1]);
                if k > 1 {
                    assert(acts[k - 1] == tail[k - 2]);
                }
            }
        }
    }
}

proof fn lemma_finish_after_end(stage: Stage, outcomes: Seq<bool>)
    ensures
        forall|k: int|
            0 <= k < outcomes.len() && #[trigger] setup_actions(stage, outcomes)[k] is Finish ==> (
            stage is Pinning || stage is Done || stage is Aborted) || exists|j: int|
                0 <= j < k && (#[trigger] setup_actions(stage, outcomes)[j] is Pin
                    || setup_actions(stage, outcomes)[j] is Abort),
    decreases outcomes.len(),
{
    lemma_setup_len(stage, outcomes);
    if outcomes.len() > 0 {
        let (s, a) = setup_next(stage, outcomes[0]);
        let rest = outcomes.drop_first();
        let acts = setup_actions(stage, outcomes);
        let tail = setup_actions(s, rest);
        lemma_finish_after_end(s, rest);
        lemma_setup_len(s, rest);
        assert(acts == seq![a] + tail);
        assert forall|k: int| 0 <= k < outcomes.len() && #[trigger] acts[k] is Finish implies (
        stage is Pinning || stage is Done || stage is Aborted) || exists|j: int|
            0 <= j < k && (#[trigger] acts[j] is Pin || acts[j] is Abort) by {
            if k > 0 {
                assert(acts[k] == tail[k - 1]);
                if exists|j: int| 0 <= j < k - 1 && (#[trigger] tail[j] is Pin || tail[j] is Abort) {
                    let j = choose|j: int|
                        0 <= j < k - 1 && (#[trigger] tail[j] is Pin || tail[j] is Abort);
                    assert(acts[j + 1] == tail[j]);
                } else {
                    assert(s is Pinning || s is Done || s is Aborted);
                    assert(acts[0] == a);
                }
            }
        }
    }
}

/// A takeover ends only by being stopped or by going all the way: every
/// `Finish` follows an `Abort` or a `Pin`, and every `Pin` comes right after a
/// `Commit` that succeeded (which in turn needs the whole plan applied, see
/// `lemma_commit_after_full_install`). A failed step never ends the takeover
/// quietly as if it had finished.
pub proof fn lemma_finish_only_after_pin_or_abort(outcomes: Seq<bool>)
    ensures
        forall|k: int|
            0 <= k < outcomes.len() && #[trigger] setup_actions(Stage::Start, outcomes)[k]
                is Finish ==> exists|j: int|
                0 <= j < k && (#[trigger] setup_actions(Stage::Start, outcomes)[j] is Pin
                    || setup_actions(Stage::Start, outcomes)[j] is Abort),
        forall|k: int|
            0 <= k < outcomes.len() && #[trigger] setup_actions(Stage::Start, outcomes)[k] is Pin
                ==> k > 0 && outcomes[k] && setup_actions(Stage::Start, outcomes)[k - 1] is Commit,
{
    lemma_finish_after_end(Stage::Start, outcomes);
    lemma_pin_follows_commit(Stage::Start, outcomes);
}

} // verus!
