# mimalloc_replace

Takes over the allocator of the Windows UCRT from inside an injected module and
routes every call to mimalloc. Blocks that the UCRT heap handed out before the
takeover are moved into mimalloc the first time a reallocation function touches
them.

- `src/` — the verified decisions: `route` (which heap serves a call),
  `resize` (the reallocation protocol as a state machine, with its laws),
  `install` (which exports are hooked and which originals are kept, with its
  laws), `setup` (the order of the takeover at process attach and its failure
  exits, with its law), `entry` (what the module entry point does for a loader
  notification).
- `app/` — the module itself: FFI to mimalloc, the hooked entry points, the
  detour transaction and the entry point. It performs the actions that the
  library chooses.
- `tests/` — concrete runs of each decision.
