use mimalloc_replace::install::{
    fallback_slot, free_slot, plan_step, size_slot, Detour, Export, InstallStep, Slot,
};
use mimalloc_replace::setup::{Failure, Setup, SetupAction, Stage};

#[test]
fn takeover_in_order_when_all_succeeds() {
    let mut s = Setup::new();
    assert_eq!(s.advance(true), SetupAction::InitHeap);
    assert_eq!(s.advance(true), SetupAction::BeginTransaction);
    assert_eq!(s.advance(true), SetupAction::FindRuntime);
    for i in 0..21 {
        assert_eq!(s.advance(true), SetupAction::Apply { step: plan_step(i) });
    }
    assert_eq!(s.advance(true), SetupAction::Commit);
    assert_eq!(s.advance(true), SetupAction::Pin);
    assert_eq!(s.advance(false), SetupAction::Finish);
    assert_eq!(s.stage, Stage::Done);
    assert_eq!(s.advance(true), SetupAction::Finish);
}

#[test]
fn missing_runtime_aborts() {
    let mut s = Setup::new();
    s.advance(true);
    s.advance(true);
    s.advance(true);
    assert_eq!(s.advance(false), SetupAction::Abort { failure: Failure::RuntimeMissing });
    assert_eq!(s.advance(true), SetupAction::Finish);
}

#[test]
fn failed_attach_aborts_before_commit() {
    let mut s = Setup::new();
    for _ in 0..3 {
        s.advance(true);
    }
    assert_eq!(s.advance(true), SetupAction::Apply { step: plan_step(0) });
    assert_eq!(s.advance(true), SetupAction::Apply { step: plan_step(1) });
    assert_eq!(s.advance(false), SetupAction::Abort { failure: Failure::AttachFailed });
    assert_eq!(s.stage, Stage::Aborted);
}

#[test]
fn failed_commit_aborts() {
    let mut s = Setup { stage: Stage::Committing };
    assert_eq!(s.advance(false), SetupAction::Abort { failure: Failure::CommitFailed });
}

#[test]
fn first_step_is_hooking_malloc() {
    assert_eq!(
        plan_step(0),
        InstallStep::Attach { target: Export::Malloc, detour: Detour::MiMalloc, keep: None }
    );
}

#[test]
fn detours_find_their_saved_originals() {
    assert_eq!(fallback_slot(Detour::Expand), Slot::Expand);
    assert_eq!(fallback_slot(Detour::Free), Slot::Free);
    assert_eq!(fallback_slot(Detour::FreeAligned), Slot::AlignedFree);
    assert_eq!(fallback_slot(Detour::Msize), Slot::Msize);
    assert_eq!(fallback_slot(Detour::MsizeAligned), Slot::AlignedMsize);
    assert_eq!(size_slot(Detour::Realloc), Slot::Msize);
    assert_eq!(free_slot(Detour::Recalloc), Slot::Free);
    assert_eq!(size_slot(Detour::ReallocAlignedAt), Slot::AlignedMsize);
    assert_eq!(free_slot(Detour::RecallocAligned), Slot::AlignedFree);
}
