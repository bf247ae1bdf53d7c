use vstd::prelude::*;

verus! {

/// An export of the UCRT (`ucrtbase.dll`) that the module takes over or reads.
#[derive(Clone, Copy, Debug, PartialEq, Eq, Structural)]
pub enum Export {
    Malloc,
    Calloc,
    Realloc,
    Free,
    FreeBase,
    Strdup,
    Wcsdup,
    Mbsdup,
    DupenvS,
    WdupenvS,
    Expand,
    Msize,
    Recalloc,
    AlignedMalloc,
    AlignedRealloc,
    AlignedRecalloc,
    AlignedMsize,
    AlignedFree,
    AlignedOffsetMalloc,
    AlignedOffsetRealloc,
    AlignedOffsetRecalloc,
}

/// The name under which the UCRT exports `e`.
pub open spec fn export_symbol(e: Export) -> Seq<char> {
    match e {
        Export::Malloc => "malloc"@,
        Export::Calloc => "calloc"@,
        Export::Realloc => "realloc"@,
        Export::Free => "free"@,
        Export::FreeBase => "_free_base"@,
        Export::Strdup => "_strdup"@,
        Export::Wcsdup => "_wcsdup"@,
        Export::Mbsdup => "_mbsdup"@,
        Export::DupenvS => "_dupenv_s"@,
        Export::WdupenvS => "_wdupenv_s"@,
        Export::Expand => "_expand"@,
        Export::Msize => "_msize"@,
        Export::Recalloc => "_recalloc"@,
        Export::AlignedMalloc => "_aligned_malloc"@,
        Export::AlignedRealloc => "_aligned_realloc"@,
        Export::AlignedRecalloc => "_aligned_recalloc"@,
        Export::AlignedMsize => "_aligned_msize"@,
        Export::AlignedFree => "_aligned_free"@,
        Export::AlignedOffsetMalloc => "_aligned_offset_malloc"@,
        Export::AlignedOffsetRealloc => "_aligned_offset_realloc"@,
        Export::AlignedOffsetRecalloc => "_aligned_offset_recalloc"@,
    }
}

impl Export {
    /// The exported name, as `GetProcAddress` looks it up.
    pub fn symbol(&self) -> (s: &'static str)
        ensures
            s@ == export_symbol(*self),
    {
        match *self {
            Export::Malloc => "malloc",
            Export::Calloc => "calloc",
            Export::Realloc => "realloc",
            Export::Free => "free",
            Export::FreeBase => "_free_base",
            Export::Strdup => "_strdup",
            Export::Wcsdup => "_wcsdup",
            Export::Mbsdup => "_mbsdup",
            Export::DupenvS => "_dupenv_s",
            Export::WdupenvS => "_wdupenv_s",
            Export::Expand => "_expand",
            Export::Msize => "_msize",
            Export::Recalloc => "_recalloc",
            Export::AlignedMalloc => "_aligned_malloc",
            Export::AlignedRealloc => "_aligned_realloc",
            Export::AlignedRecalloc => "_aligned_recalloc",
            Export::AlignedMsize => "_aligned_msize",
            Export::AlignedFree => "_aligned_free",
            Export::AlignedOffsetMalloc => "_aligned_offset_malloc",
            Export::AlignedOffsetRealloc => "_aligned_offset_realloc",
            Export::AlignedOffsetRecalloc => "_aligned_offset_recalloc",
        }
    }
}

/// A saved original UCRT function that a hook falls back on.
#[derive(Clone, Copy, Debug, PartialEq, Eq, Structural)]
pub enum Slot {
    Expand,
    Free,
    AlignedFree,
    Msize,
    AlignedMsize,
}

/// The function installed in place of an export.
#[derive(Clone, Copy, Debug, PartialEq, Eq, Structural)]
pub enum Detour {
    /// mimalloc's own function, with no fallback: `mi_malloc`, `mi_calloc`,
    /// `mi_strdup`, `mi_wcsdup`, `mi_mbsdup`, `mi_dupenv_s`, `mi_wdupenv_s`,
    /// `mi_malloc_aligned`, `mi_malloc_aligned_at`.
    MiMalloc,
    MiCalloc,
    MiStrdup,
    MiWcsdup,
    MiMbsdup,
    MiDupenvS,
    MiWdupenvS,
    MiMallocAligned,
    MiMallocAlignedAt,
    /// Hooks that route by owner (and migrate, for the reallocation family).
    Realloc,
    Free,
    Expand,
    Msize,
    Recalloc,
    ReallocAligned,
    RecallocAligned,
    MsizeAligned,
    FreeAligned,
    ReallocAlignedAt,
    RecallocAlignedAt,
}

/// The UCRT export whose meaning a detour has: mimalloc's function of the
/// same name and signature, or the hook that stands in for that export.
pub open spec fn serves(d: Detour) -> Export {
    match d {
        Detour::MiMalloc => Export::Malloc,
        Detour::MiCalloc => Export::Calloc,
        Detour::MiStrdup => Export::Strdup,
        Detour::MiWcsdup => Export::Wcsdup,
        Detour::MiMbsdup => Export::Mbsdup,
        Detour::MiDupenvS => Export::DupenvS,
        Detour::MiWdupenvS => Export::WdupenvS,
        Detour::MiMallocAligned => Export::AlignedMalloc,
        Detour::MiMallocAlignedAt => Export::AlignedOffsetMalloc,
        Detour::Realloc => Export::Realloc,
        Detour::Free => Export::Free,
        Detour::Expand => Export::Expand,
        Detour::Msize => Export::Msize,
        Detour::Recalloc => Export::Recalloc,
        Detour::ReallocAligned => Export::AlignedRealloc,
        Detour::RecallocAligned => Export::AlignedRecalloc,
        Detour::MsizeAligned => Export::AlignedMsize,
        Detour::FreeAligned => Export::AlignedFree,
        Detour::ReallocAlignedAt => Export::AlignedOffsetRealloc,
        Detour::RecallocAlignedAt => Export::AlignedOffsetRecalloc,
    }
}

/// The UCRT export whose original function a slot holds: the unhooked
/// `_free_base` for `Free`, the trampoline of the hooked export otherwise.
pub open spec fn original_in(s: Slot) -> Export {
    match s {
        Slot::Expand => Export::Expand,
        Slot::Free => Export::FreeBase,
        Slot::AlignedFree => Export::AlignedFree,
        Slot::Msize => Export::Msize,
        Slot::AlignedMsize => Export::AlignedMsize,
    }
}

/// Whether a step installs, for the export it works on, a detour with that
/// export's meaning, and stores in a slot only that export's original.
pub open spec fn step_is_faithful(s: InstallStep) -> bool {
    match s {
        InstallStep::Attach { target, detour, keep } => serves(detour) == target && (
        keep matches Some(slot) ==> original_in(slot) == target),
        InstallStep::Resolve { target, into } => original_in(into) == target,
    }
}

/// The saved originals that a detour may call.
pub open spec fn slots_read(d: Detour) -> Set<Slot> {
    match d {
        Detour::Expand => set![Slot::Expand],
        Detour::Free => set![Slot::Free],
        Detour::FreeAligned => set![Slot::AlignedFree],
        Detour::Msize => set![Slot::Msize],
        Detour::MsizeAligned => set![Slot::AlignedMsize],
        Detour::Realloc | Detour::Recalloc => set![Slot::Msize, Slot::Free],
        Detour::ReallocAligned
        | Detour::RecallocAligned
        | Detour::ReallocAlignedAt
        | Detour::RecallocAlignedAt => set![Slot::AlignedMsize, Slot::AlignedFree],
        _ => Set::empty(),
    }
}

/// The detours of the reallocation family, which may move a block out of
/// the old heap.
pub open spec fn is_resizing(d: Detour) -> bool {
    d is Realloc || d is Recalloc || d is ReallocAligned || d is RecallocAligned
        || d is ReallocAlignedAt || d is RecallocAlignedAt
}

/// The detours that only route a call by the owner of its pointer.
pub open spec fn is_routing(d: Detour) -> bool {
    d is Expand || d is Free || d is FreeAligned || d is Msize || d is MsizeAligned
}

/// The saved original that a routing detour falls back on.
pub fn fallback_slot(d: Detour) -> (s: Slot)
    requires
        is_routing(d),
    ensures
        slots_read(d) == set![s],
        original_in(s) == serves(d) || (d is Free && original_in(s) is FreeBase),
{
    match d {
        Detour::Expand => Slot::Expand,
        Detour::Free => Slot::Free,
        Detour::FreeAligned => Slot::AlignedFree,
        Detour::Msize => Slot::Msize,
        _ => Slot::AlignedMsize,
    }
}

/// The saved original that a reallocation detour asks for the old block's size.
pub fn size_slot(d: Detour) -> (s: Slot)
    requires
        is_resizing(d),
    ensures
        slots_read(d).contains(s),
        s is Msize || s is AlignedMsize,
        s is Msize <==> (d is Realloc || d is Recalloc),
{
    match d {
        Detour::Realloc | Detour::Recalloc => Slot::Msize,
        _ => Slot::AlignedMsize,
    }
}

/// The saved original that a reallocation detour frees the old block with.
pub fn free_slot(d: Detour) -> (s: Slot)
    requires
        is_resizing(d),
    ensures
        slots_read(d).contains(s),
        s is Free || s is AlignedFree,
        s is Free <==> (d is Realloc || d is Recalloc),
{
    match d {
        Detour::Realloc | Detour::Recalloc => Slot::Free,
        _ => Slot::AlignedFree,
    }
}

/// One step of installing the hooks, all inside one detour transaction.
#[derive(Clone, Copy, Debug, PartialEq, Eq, Structural)]
pub enum InstallStep {
    /// Hook `target` with `detour`; where `keep` names a slot, the trampoline
    /// to the original function is stored there.
    Attach { target: Export, detour: Detour, keep: Option<Slot> },
    /// Store the address of `target`, which stays unhooked, in `into`.
    Resolve { target: Export, into: Slot },
}

/// The export that a step works on.
pub open spec fn step_target(s: InstallStep) -> Export {
    match s {
        InstallStep::Attach { target, .. } => target,
        InstallStep::Resolve { target, .. } => target,
    }
}

/// Whether a step stores a function in `slot`.
pub open spec fn fills(s: InstallStep, slot: Slot) -> bool {
    match s {
        InstallStep::Attach { keep, .. } => keep == Some(slot),
        InstallStep::Resolve { into, .. } => into == slot,
    }
}

/// The number of install steps.
pub open spec fn plan_len() -> int {
    21
}

/// The `i`-th install step.
pub open spec fn step_at(i: int) -> InstallStep {
    if i == 0 {
        InstallStep::Attach { target: Export::Malloc, detour: Detour::MiMalloc, keep: None }
    } else if i == 1 {
        InstallStep::Attach { target: Export::Calloc, detour: Detour::MiCalloc, keep: None }
    } else if i == 2 {
        InstallStep::Attach { target: Export::Realloc, detour: Detour::Realloc, keep: None }
    } else if i == 3 {
        InstallStep::Attach { target: Export::Free, detour: Detour::Free, keep: None }
    } else if i == 4 {
        InstallStep::Resolve { target: Export::FreeBase, into: Slot::Free }
    } else if i == 5 {
        InstallStep::Attach { target: Export::Strdup, detour: Detour::MiStrdup, keep: None }
    } else if i == 6 {
        InstallStep::Attach { target: Export::Wcsdup, detour: Detour::MiWcsdup, keep: None }
    } else if i == 7 {
        InstallStep::Attach { target: Export::Mbsdup, detour: Detour::MiMbsdup, keep: None }
    } else if i == 8 {
        InstallStep::Attach { target: Export::DupenvS, detour: Detour::MiDupenvS, keep: None }
    } else if i == 9 {
        InstallStep::Attach { target: Export::WdupenvS, detour: Detour::MiWdupenvS, keep: None }
    } else if i == 10 {
        InstallStep::Attach {
            target: Export::Expand,
            detour: Detour::Expand,
            keep: Some(Slot::Expand),
        }
    } else if i == 11 {
        InstallStep::Attach { target: Export::Msize, detour: Detour::Msize, keep: Some(Slot::Msize) }
    } else if i == 12 {
        InstallStep::Attach { target: Export::Recalloc, detour: Detour::Recalloc, keep: None }
    } else if i == 13 {
        InstallStep::Attach {
            target: Export::AlignedMalloc,
            detour: Detour::MiMallocAligned,
            keep: None,
        }
    } else if i == 14 {
        InstallStep::Attach {
            target: Export::AlignedRealloc,
            detour: Detour::ReallocAligned,
            keep: None,
        }
    } else if i == 15 {
        InstallStep::Attach {
            target: Export::AlignedRecalloc,
            detour: Detour::RecallocAligned,
            keep: None,
        }
    } else if i == 16 {
        InstallStep::Attach {
            target: Export::AlignedMsize,
            detour: Detour::MsizeAligned,
            keep: Some(Slot::AlignedMsize),
        }
    } else if i == 17 {
        InstallStep::Attach {
            target: Export::AlignedFree,
            detour: Detour::FreeAligned,
            keep: Some(Slot::AlignedFree),
        }
    } else if i == 18 {
        InstallStep::Attach {
            target: Export::AlignedOffsetMalloc,
            detour: Detour::MiMallocAlignedAt,
            keep: None,
        }
    } else if i == 19 {
        InstallStep::Attach {
            target: Export::AlignedOffsetRealloc,
            detour: Detour::ReallocAlignedAt,
            keep: None,
        }
    } else {
        InstallStep::Attach {
            target: Export::AlignedOffsetRecalloc,
            detour: Detour::RecallocAlignedAt,
            keep: None,
        }
    }
}

/// The install steps, in the order the transaction takes them.
pub open spec fn install_steps() -> Seq<InstallStep> {
    Seq::new(plan_len() as nat, |i: int| step_at(i))
}

/// The `i`-th install step.
pub fn plan_step(i: usize) -> (s: InstallStep)
    requires
        i < plan_len(),
    ensures
        s == step_at(i as int),
        step_is_faithful(s),
{
    if i == 0 {
        InstallStep::Attach { target: Export::Malloc, detour: Detour::MiMalloc, keep: None }
    } else if i == 1 {
        InstallStep::Attach { target: Export::Calloc, detour: Detour::MiCalloc, keep: None }
    } else if i == 2 {
        InstallStep::Attach { target: Export::Realloc, detour: Detour::Realloc, keep: None }
    } else if i == 3 {
        InstallStep::Attach { target: Export::Free, detour: Detour::Free, keep: None }
    } else if i == 4 {
        InstallStep::Resolve { target: Export::FreeBase, into: Slot::Free }
    } else if i == 5 {
        InstallStep::Attach { target: Export::Strdup, detour: Detour::MiStrdup, keep: None }
    } else if i == 6 {
        InstallStep::Attach { target: Export::Wcsdup, detour: Detour::MiWcsdup, keep: None }
    } else if i == 7 {
        InstallStep::Attach { target: Export::Mbsdup, detour: Detour::MiMbsdup, keep: None }
    } else if i == 8 {
        InstallStep::Attach { target: Export::DupenvS, detour: Detour::MiDupenvS, keep: None }
    } else if i == 9 {
        InstallStep::Attach { target: Export::WdupenvS, detour: Detour::MiWdupenvS, keep: None }
    } else if i == 10 {
        InstallStep::Attach {
            target: Export::Expand,
            detour: Detour::Expand,
            keep: Some(Slot::Expand),
        }
    } else if i == 11 {
        InstallStep::Attach { target: Export::Msize, detour: Detour::Msize, keep: Some(Slot::Msize) }
    } else if i == 12 {
        InstallStep::Attach { target: Export::Recalloc, detour: Detour::Recalloc, keep: None }
    } else if i == 13 {
        InstallStep::Attach {
            target: Export::AlignedMalloc,
            detour: Detour::MiMallocAligned,
            keep: None,
        }
    } else if i == 14 {
        InstallStep::Attach {
            target: Export::AlignedRealloc,
            detour: Detour::ReallocAligned,
            keep: None,
        }
    } else if i == 15 {
        InstallStep::Attach {
            target: Export::AlignedRecalloc,
            detour: Detour::RecallocAligned,
            keep: None,
        }
    } else if i == 16 {
        InstallStep::Attach {
            target: Export::AlignedMsize,
            detour: Detour::MsizeAligned,
            keep: Some(Slot::AlignedMsize),
        }
    } else if i == 17 {
        InstallStep::Attach {
            target: Export::AlignedFree,
            detour: Detour::FreeAligned,
            keep: Some(Slot::AlignedFree),
        }
    } else if i == 18 {
        InstallStep::Attach {
            target: Export::AlignedOffsetMalloc,
            detour: Detour::MiMallocAlignedAt,
            keep: None,
        }
    } else if i == 19 {
        InstallStep::Attach {
            target: Export::AlignedOffsetRealloc,
            detour: Detour::ReallocAlignedAt,
            keep: None,
        }
    } else {
        InstallStep::Attach {
            target: Export::AlignedOffsetRecalloc,
            detour: Detour::RecallocAlignedAt,
            keep: None,
        }
    }
}

/// All install steps, in order.
pub fn install_plan() -> (plan: Vec<InstallStep>)
    ensures
        plan@ == install_steps(),
        forall|i: int| 0 <= i < plan@.len() ==> step_is_faithful(#[trigger] plan@[i]),
{
    let mut plan: Vec<InstallStep> = Vec::new();
    let mut i: usize = 0;
    while i < 21
        invariant
            i <= 21,
            plan@.len() == i,
            forall|j: int| 0 <= j < i ==> plan@[j] == step_at(j),
        decreases 21 - i,
    {
        plan.push(plan_step(i));
        i = i + 1;
    }
    assert(plan@ =~= install_steps());
    proof {
        lemma_plan_is_faithful();
    }
    plan
}

/// The index of the install step that works on `e`.
pub open spec fn position(e: Export) -> int {
    match e {
        Export::Malloc => 0,
        Export::Calloc => 1,
        Export::Realloc => 2,
        Export::Free => 3,
        Export::FreeBase => 4,
        Export::Strdup => 5,
        Export::Wcsdup => 6,
        Export::Mbsdup => 7,
        Export::DupenvS => 8,
        Export::WdupenvS => 9,
        Export::Expand => 10,
        Export::Msize => 11,
        Export::Recalloc => 12,
        Export::AlignedMalloc => 13,
        Export::AlignedRealloc => 14,
        Export::AlignedRecalloc => 15,
        Export::AlignedMsize => 16,
        Export::AlignedFree => 17,
        Export::AlignedOffsetMalloc => 18,
        Export::AlignedOffsetRealloc => 19,
        Export::AlignedOffsetRecalloc => 20,
    }
}

/// The index of the install step that fills `slot`.
pub open spec fn filler(slot: Slot) -> int {
    match slot {
        Slot::Free => 4,
        Slot::Expand => 10,
        Slot::Msize => 11,
        Slot::AlignedMsize => 16,
        Slot::AlignedFree => 17,
    }
}

/// Each export is worked on by exactly one install step: no export is
/// hooked twice, and `_free_base`, which the plan only reads, is never hooked.
pub proof fn lemma_one_step_per_export()
    ensures
        forall|e: Export|
            0 <= #[trigger] position(e) < install_steps().len() && step_target(
                install_steps()[position(e)],
            ) == e,
        forall|i: int, j: int|
            0 <= i < install_steps().len() && 0 <= j < install_steps().len() && step_target(
                #[trigger] install_steps()[i],
            ) == step_target(#[trigger] install_steps()[j]) ==> i == j,
{
    assert forall|i: int| 0 <= i < install_steps().len() implies position(
        step_target(#[trigger] install_steps()[i]),
    ) == i by {
        assert(install_steps()[i] == step_at(i));
    }
    assert forall|e: Export| 0 <= #[trigger] position(e) < install_steps().len() && step_target(
        install_steps()[position(e)],
    ) == e by {
        assert(install_steps()[position(e)] == step_at(position(e)));
    }
}

/// The takeover covers the whole UCRT allocation API: every export but
/// `_free_base` is hooked, and `_free_base` is only read.
pub proof fn lemma_full_coverage()
    ensures
        forall|e: Export|
            #![trigger position(e)]
            (install_steps()[position(e)] is Attach) <==> e != Export::FreeBase,
{
    assert forall|e: Export|
        #![trigger position(e)]
        (install_steps()[position(e)] is Attach) <==> e != Export::FreeBase by {
        assert(install_steps()[position(e)] == step_at(position(e)));
    }
}

/// Whether the detour that a step installs may call the original in `slot`.
pub open spec fn reads(s: InstallStep, slot: Slot) -> bool {
    match s {
        InstallStep::Attach { detour, .. } => slots_read(detour).contains(slot),
        InstallStep::Resolve { .. } => false,
    }
}

/// Every saved original that an installed detour may call is stored by some
/// step of the same transaction, so no hook ever calls an empty slot.
pub proof fn lemma_every_read_slot_filled()
    ensures
        forall|i: int, slot: Slot|
            0 <= i < install_steps().len() && #[trigger] reads(install_steps()[i], slot) ==> 0
                <= filler(slot) < install_steps().len() && fills(
                install_steps()[filler(slot)],
                slot,
            ),
{
    assert forall|i: int, slot: Slot|
        0 <= i < install_steps().len() && #[trigger] reads(install_steps()[i], slot) implies 0
        <= filler(slot) < install_steps().len() && fills(install_steps()[filler(slot)], slot) by {
        assert(install_steps()[filler(slot)] == step_at(filler(slot)));
    }
}

/// Each slot is stored by one step only.
pub proof fn lemma_slot_filled_once()
    ensures
        forall|i: int, j: int, slot: Slot|
            0 <= i < install_steps().len() && 0 <= j < install_steps().len() && #[trigger] fills(
                install_steps()[i],
                slot,
            ) && #[trigger] fills(install_steps()[j], slot) ==> i == j,
{
    assert forall|i: int, j: int, slot: Slot|
        0 <= i < install_steps().len() && 0 <= j < install_steps().len() && #[trigger] fills(
            install_steps()[i],
            slot,
        ) && #[trigger] fills(install_steps()[j], slot) implies i == j by {
        assert(install_steps()[i] == step_at(i));
        assert(install_steps()[j] == step_at(j));
    }
}

/// The exports that hand memory to their caller: the allocating functions
/// (blocks they return) and `_dupenv_s` / `_wdupenv_s` (the buffer they store).
pub open spec fn hands_out_memory(e: Export) -> bool {
    e is Malloc || e is Calloc || e is Realloc || e is Recalloc || e is Strdup || e is Wcsdup
        || e is Mbsdup || e is DupenvS || e is WdupenvS || e is AlignedMalloc
        || e is AlignedRealloc || e is AlignedRecalloc || e is AlignedOffsetMalloc
        || e is AlignedOffsetRealloc || e is AlignedOffsetRecalloc
}

/// The detours whose memory comes from mimalloc: mimalloc's own functions,
/// and the reallocation detours, whose answers are mimalloc's or null
/// (`resize::lemma_answers_come_from_mimalloc`).
pub open spec fn answers_from_mimalloc(d: Detour) -> bool {
    d is MiMalloc || d is MiCalloc || d is MiStrdup || d is MiWcsdup || d is MiMbsdup
        || d is MiDupenvS || d is MiWdupenvS || d is MiMallocAligned || d is MiMallocAlignedAt
        || is_resizing(d)
}

/// Once the plan is installed, no export that hands out memory is left to the
/// old heap: each one is hooked, and by a detour whose memory comes from
/// mimalloc.
pub proof fn lemma_allocating_exports_served_by_mimalloc()
    ensures
        forall|e: Export|
            #![trigger position(e)]
            hands_out_memory(e) ==> (install_steps()[position(e)] matches InstallStep::Attach {
                target,
                detour,
                ..
            } && target == e && answers_from_mimalloc(detour)),
{
    assert forall|e: Export|
        #![trigger position(e)]
        hands_out_memory(e) implies (install_steps()[position(e)] matches InstallStep::Attach {
            target,
            detour,
            ..
        } && target == e && answers_from_mimalloc(detour)) by {
        assert(install_steps()[position(e)] == step_at(position(e)));
    }
}

/// Every export is hooked with a detour of its own meaning (`calloc` with
/// `mi_calloc`, `_strdup` with `mi_strdup`, `realloc` with the reallocation
/// hook, and so on), and every slot holds the original of the export whose
/// fallback it is.
pub proof fn lemma_plan_is_faithful()
    ensures
        forall|i: int|
            0 <= i < install_steps().len() ==> step_is_faithful(#[trigger] install_steps()[i]),
        forall|i: int|
            #![trigger install_steps()[i]]
            0 <= i < install_steps().len() ==> (install_steps()[i] matches InstallStep::Attach {
                target,
                detour,
                ..
            } ==> serves(detour) == target),
{
    assert forall|i: int| 0 <= i < install_steps().len() implies step_is_faithful(
        #[trigger] install_steps()[i],
    ) by {
        assert(install_steps()[i] == step_at(i));
    }
}

/// No two exports share a name, so looking each one up by its symbol finds
/// the export the plan means.
pub proof fn lemma_symbols_distinct()
    ensures
        forall|a: Export, b: Export|
            #[trigger] export_symbol(a) == #[trigger] export_symbol(b) ==> a == b,
{
    reveal_strlit("malloc");
    reveal_strlit("calloc");
    reveal_strlit("realloc");
    reveal_strlit("free");
    reveal_strlit("_free_base");
    reveal_strlit("_strdup");
    reveal_strlit("_wcsdup");
    reveal_strlit("_mbsdup");
    reveal_strlit("_dupenv_s");
    reveal_strlit("_wdupenv_s");
    reveal_strlit("_expand");
    reveal_strlit("_msize");
    reveal_strlit("_recalloc");
    reveal_strlit("_aligned_malloc");
    reveal_strlit("_aligned_realloc");
    reveal_strlit("_aligned_recalloc");
    reveal_strlit("_aligned_msize");
    reveal_strlit("_aligned_free");
    reveal_strlit("_aligned_offset_malloc");
    reveal_strlit("_aligned_offset_realloc");
    reveal_strlit("_aligned_offset_recalloc");
    assert forall|a: Export, b: Export|
        #[trigger] export_symbol(a) == #[trigger] export_symbol(b) implies a == b by {
        if a != b {
            assert(export_symbol(a).len() != export_symbol(b).len() || exists|i: int|
                0 <= i < export_symbol(a).len() && export_symbol(a)[i] != export_symbol(b)[i]) by {
                if export_symbol(a).len() == export_symbol(b).len() {
                    assert(export_symbol(a)[1] != export_symbol(b)[1] || export_symbol(a)[2]
                        != export_symbol(b)[2] || export_symbol(a)[3] != export_symbol(b)[3]
                        || export_symbol(a)[4] != export_symbol(b)[4] || export_symbol(a)[8]
                        != export_symbol(b)[8] || export_symbol(a)[9] != export_symbol(b)[9]
                        || export_symbol(a)[0] != export_symbol(b)[0]);
                }
            }
        }
    }
}

} // verus!
