use vstd::prelude::*;

verus! {

/// The reason code the loader passes when the module is mapped into the process.
pub const DLL_PROCESS_ATTACH: u32 = 1;

/// The reason code the loader passes when a thread of the process exits.
pub const DLL_THREAD_DETACH: u32 = 3;

/// What the module entry point does for a notification of the loader.
#[derive(Clone, Copy, Debug, PartialEq, Eq, Structural)]
pub enum EntryAction {
    /// Initialise mimalloc's process heap, hook the UCRT exports in one
    /// transaction and pin the module so it cannot be unloaded.
    TakeOver,
    /// Hand the exiting thread's mimalloc resources back (`mi_thread_done`).
    ReleaseThread,
    /// Nothing to do.
    Ignore,
}

/// The entry point's answer to the loader's reason code.
pub open spec fn spec_entry_action(reason: u32) -> EntryAction {
    if reason == DLL_PROCESS_ATTACH {
        EntryAction::TakeOver
    } else if reason == DLL_THREAD_DETACH {
        EntryAction::ReleaseThread
    } else {
        EntryAction::Ignore
    }
}

/// Chooses what the entry point does for `reason`; whatever it is, the entry
/// point then reports success to the loader.
pub fn entry_action(reason: u32) -> (a: EntryAction)
    ensures
        a == spec_entry_action(reason),
        a is TakeOver <==> reason == 1,
        a is ReleaseThread <==> reason == 3,
{
    if reason == DLL_PROCESS_ATTACH {
        EntryAction::TakeOver
    } else if reason == DLL_THREAD_DETACH {
        EntryAction::ReleaseThread
    } else {
        EntryAction::Ignore
    }
}

} // verus!
