//! Decision logic of a UCRT allocator takeover: which heap serves a call,
//! how a block of the old heap is moved into mimalloc by the reallocation
//! family, which exports are hooked and what the module entry point does.
//!
//! Every function here works on plain facts (does mimalloc own the pointer,
//! is it null, what size did the old heap report, did an allocation succeed)
//! and returns what the caller is to do next; the calls themselves are made
//! by the surrounding unsafe glue.

pub mod route;

pub mod resize;
pub mod install;
pub mod entry;
pub mod setup;
