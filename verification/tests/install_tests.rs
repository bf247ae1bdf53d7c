use mimalloc_replace::entry::{entry_action, EntryAction};
use mimalloc_replace::install::{install_plan, plan_step, Detour, Export, InstallStep, Slot};

#[test]
fn plan_hooks_the_documented_exports() {
    let attached: Vec<&str> = install_plan()
        .iter()
        .filter_map(|s| match s {
            InstallStep::Attach { target, .. } => Some(target.symbol()),
            InstallStep::Resolve { .. } => None,
        })
        .collect();
    assert_eq!(
        attached,
        vec![
            "malloc",
            "calloc",
            "realloc",
            "free",
            "_strdup",
            "_wcsdup",
            "_mbsdup",
            "_dupenv_s",
            "_wdupenv_s",
            "_expand",
            "_msize",
            "_recalloc",
            "_aligned_malloc",
            "_aligned_realloc",
            "_aligned_recalloc",
            "_aligned_msize",
            "_aligned_free",
            "_aligned_offset_malloc",
            "_aligned_offset_realloc",
            "_aligned_offset_recalloc",
        ]
    );
}

#[test]
fn free_slot_holds_unhooked_free_base() {
    assert_eq!(
        plan_step(4),
        InstallStep::Resolve { target: Export::FreeBase, into: Slot::Free }
    );
    assert_eq!(Export::FreeBase.symbol(), "_free_base");
}

#[test]
fn trampolines_kept_for_fallbacks() {
    let plan = install_plan();
    let kept: Vec<(Export, Slot)> = plan
        .iter()
        .filter_map(|s| match s {
            InstallStep::Attach { target, keep: Some(slot), .. } => Some((*target, *slot)),
            _ => None,
        })
        .collect();
    assert_eq!(
        kept,
        vec![
            (Export::Expand, Slot::Expand),
            (Export::Msize, Slot::Msize),
            (Export::AlignedMsize, Slot::AlignedMsize),
            (Export::AlignedFree, Slot::AlignedFree),
        ]
    );
}

#[test]
fn realloc_family_detours() {
    assert_eq!(
        plan_step(2),
        InstallStep::Attach { target: Export::Realloc, detour: Detour::Realloc, keep: None }
    );
    assert_eq!(
        plan_step(20),
        InstallStep::Attach {
            target: Export::AlignedOffsetRecalloc,
            detour: Detour::RecallocAlignedAt,
            keep: None
        }
    );
    assert_eq!(install_plan().len(), 21);
}

#[test]
fn entry_point_reasons() {
    assert_eq!(entry_action(1), EntryAction::TakeOver);
    assert_eq!(entry_action(3), EntryAction::ReleaseThread);
    assert_eq!(entry_action(0), EntryAction::Ignore);
    assert_eq!(entry_action(2), EntryAction::Ignore);
}
