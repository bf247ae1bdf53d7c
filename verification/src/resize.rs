use vstd::prelude::*;

verus! {

/// What a hooked reallocation function was asked for.
#[derive(Clone, Copy, Debug, PartialEq, Eq, Structural)]
pub enum Request {
    /// `realloc`, `_aligned_realloc`, `_aligned_offset_realloc`: a block of
    /// `size` bytes.
    Realloc { size: usize },
    /// `_recalloc`, `_aligned_recalloc`, `_aligned_offset_recalloc`: a
    /// zero-filled block of `count` elements of `size` bytes each.
    Recalloc { count: usize, size: usize },
}

impl Request {
    /// The number of bytes the new block must hold (unbounded).
    pub open spec fn bytes(self) -> int {
        match self {
            Request::Realloc { size } => size as int,
            Request::Recalloc { count, size } => count * size,
        }
    }

    /// A request for zero bytes: on a block of the old heap it only frees.
    pub open spec fn frees_only(self) -> bool {
        match self {
            Request::Realloc { size } => size == 0,
            Request::Recalloc { count, size } => count == 0 || size == 0,
        }
    }

    /// Whether the new block must come back zero-filled.
    pub open spec fn zeroed(self) -> bool {
        self is Recalloc
    }

    /// The size of the new block, or `None` where `count * size` does not fit
    /// in a `usize`.
    pub fn requested_bytes(&self) -> (r: Option<usize>)
        ensures
            r matches Some(n) ==> n == self.bytes(),
            r is None <==> self.bytes() > usize::MAX,
    {
        match *self {
            Request::Realloc { size } => Some(size),
            Request::Recalloc { count, size } => count.checked_mul(size),
        }
    }

    /// Whether this request, made on a block of the old heap, only frees it.
    pub fn is_free_request(&self) -> (r: bool)
        ensures
            r == self.frees_only(),
    {
        match *self {
            Request::Realloc { size } => size == 0,
            Request::Recalloc { count, size } => count == 0 || size == 0,
        }
    }

    /// Whether the new block must be zero-filled.
    pub fn is_zeroed(&self) -> (r: bool)
        ensures
            r == self.zeroed(),
            r == self is Recalloc,
    {
        match *self {
            Request::Realloc { .. } => false,
            Request::Recalloc { .. } => true,
        }
    }
}

/// Where a resize run stands.
#[derive(Clone, Copy, Debug, PartialEq, Eq, Structural)]
pub enum Phase {
    /// Waiting to learn which heap holds the pointer.
    Locate,
    /// The block belongs to the old heap; waiting for its size.
    AwaitOldSize { new_size: usize },
    /// Waiting for mimalloc to hand out the new block.
    AwaitNewBlock { old_size: usize, new_size: usize },
    /// The call is answered.
    Done,
}

/// What the caller learned from the last action.
#[derive(Clone, Copy, Debug, PartialEq, Eq, Structural)]
pub enum Event {
    /// Whether mimalloc's heaps contain the pointer, and whether it is null.
    Located { in_mimalloc: bool, is_null: bool },
    /// The size that the old heap reports for the block.
    OldSize { size: usize },
    /// Whether mimalloc returned a non-null new block.
    NewBlock { allocated: bool },
}

/// What the caller is to do next.
#[derive(Clone, Copy, Debug, PartialEq, Eq, Structural)]
pub enum Action {
    /// Hand the call, with its own arguments, to mimalloc's counterpart and
    /// return what it returns.
    Forward,
    /// Ask the saved size function of the old heap for the block's size.
    QueryOldSize,
    /// Allocate the new block from mimalloc (zero-filled where `zeroed`).
    Allocate { size: usize, zeroed: bool },
    /// Copy `copy_len` bytes from the old block to the new one, free the old
    /// block through the saved free function, return the new block.
    MoveAndRelease { copy_len: usize },
    /// Free the old block through the saved free function and return null.
    Release,
    /// Return null and leave the old block as it is.
    Fail,
    /// The event does not belong to this phase: nothing to do.
    Unexpected,
}

/// The smaller of two sizes.
pub open spec fn min_size(a: int, b: int) -> int {
    if a <= b {
        a
    } else {
        b
    }
}

/// The transition table of a resize run: the phase after `event` and the
/// action it calls for.
pub open spec fn next(request: Request, phase: Phase, event: Event) -> (Phase, Action) {
    match (phase, event) {
        (Phase::Locate, Event::Located { in_mimalloc, is_null }) => {
            if in_mimalloc || is_null {
                (Phase::Done, Action::Forward)
            } else if request.frees_only() {
                (Phase::Done, Action::Release)
            } else if request.bytes() > usize::MAX {
                (Phase::Done, Action::Fail)
            } else {
                (Phase::AwaitOldSize { new_size: request.bytes() as usize }, Action::QueryOldSize)
            }
        },
        (Phase::AwaitOldSize { new_size }, Event::OldSize { size }) => (
            Phase::AwaitNewBlock { old_size: size, new_size },
            Action::Allocate { size: new_size, zeroed: request.zeroed() },
        ),
        (Phase::AwaitNewBlock { old_size, new_size }, Event::NewBlock { allocated }) => {
            if allocated {
                (
                    Phase::Done,
                    Action::MoveAndRelease {
                        copy_len: min_size(old_size as int, new_size as int) as usize,
                    },
                )
            } else {
                (Phase::Done, Action::Fail)
            }
        },
        _ => (phase, Action::Unexpected),
    }
}

/// One call of a hooked reallocation function, driven event by event.
#[derive(Clone, Copy, Debug)]
pub struct Resize {
    pub request: Request,
    pub phase: Phase,
}

impl Resize {
    /// The size carried in the phase is the one the request asks for.
    pub open spec fn wf(self) -> bool {
        match self.phase {
            Phase::AwaitOldSize { new_size } => new_size == self.request.bytes(),
            Phase::AwaitNewBlock { new_size, .. } => new_size == self.request.bytes(),
            _ => true,
        }
    }

    /// A run that has not yet located its pointer.
    pub fn new(request: Request) -> (r: Resize)
        ensures
            r.request == request,
            r.phase == Phase::Locate,
            r.wf(),
    {
        Resize { request, phase: Phase::Locate }
    }

    /// Whether the call is answered.
    pub fn is_done(&self) -> (r: bool)
        ensures
            r == (self.phase == Phase::Done),
    {
        match self.phase {
            Phase::Done => true,
            _ => false,
        }
    }

    /// Feeds one event to the run and returns the action it calls for.
    pub fn step(&mut self, event: Event) -> (a: Action)
        ensures
            final(self).request == old(self).request,
            (final(self).phase, a) == next(old(self).request, old(self).phase, event),
            old(self).wf() ==> final(self).wf(),
    {
        match (self.phase, event) {
            (Phase::Locate, Event::Located { in_mimalloc, is_null }) => {
                if in_mimalloc || is_null {
                    self.phase = Phase::Done;
                    Action::Forward
                } else if self.request.is_free_request() {
                    self.phase = Phase::Done;
                    Action::Release
                } else {
                    match self.request.requested_bytes() {
                        None => {
                            self.phase = Phase::Done;
                            Action::Fail
                        },
                        Some(new_size) => {
                            self.phase = Phase::AwaitOldSize { new_size };
                            Action::QueryOldSize
                        },
                    }
                }
            },
            (Phase::AwaitOldSize { new_size }, Event::OldSize { size }) => {
                self.phase = Phase::AwaitNewBlock { old_size: size, new_size };
                Action::Allocate { size: new_size, zeroed: self.request.is_zeroed() }
            },
            (Phase::AwaitNewBlock { old_size, new_size }, Event::NewBlock { allocated }) => {
                self.phase = Phase::Done;
                if allocated {
                    let copy_len = if old_size <= new_size {
                        old_size
                    } else {
                        new_size
                    };
                    Action::MoveAndRelease { copy_len }
                } else {
                    Action::Fail
                }
            },
            _ => Action::Unexpected,
        }
    }
}

/// The actions that a run starting in `phase` calls for, one per event.
pub open spec fn actions(request: Request, phase: Phase, events: Seq<Event>) -> Seq<Action>
    decreases events.len(),
{
    if events.len() == 0 {
        Seq::empty()
    } else {
        let (p, a) = next(request, phase, events[0]);
        seq![a] + actions(request, p, events.drop_first())
    }
}

/// An action that answers the call.
pub open spec fn answers(a: Action) -> bool {
    a is Forward || a is MoveAndRelease || a is Release || a is Fail
}

/// Nothing but `Unexpected` from index `from` on.
pub open spec fn inert_from(acts: Seq<Action>, from: int) -> bool {
    forall|j: int| from <= j < acts.len() ==> #[trigger] acts[j] == Action::Unexpected
}

proof fn lemma_actions_len(request: Request, phase: Phase, events: Seq<Event>)
    ensures
        actions(request, phase, events).len() == events.len(),
    decreases events.len(),
{
    if events.len() > 0 {
        lemma_actions_len(request, next(request, phase, events[0]).0, events.drop_first());
    }
}

proof fn lemma_done_is_inert(request: Request, events: Seq<Event>)
    ensures
        inert_from(actions(request, Phase::Done, events), 0),
        actions(request, Phase::Done, events).len() == events.len(),
    decreases events.len(),
{
    lemma_actions_len(request, Phase::Done, events);
    if events.len() > 0 {
        let rest = events.drop_first();
        lemma_done_is_inert(request, rest);
        let acts = actions(request, Phase::Done, events);
        let tail = actions(request, Phase::Done, rest);
        assert(acts == seq![Action::Unexpected] + tail);
        assert forall|j: int| 0 <= j < acts.len() implies #[trigger] acts[j]
            == Action::Unexpected by {
            if j > 0 {
                assert(acts[j] == tail[j - 1]);
            }
        }
    }
}

/// A call is answered once: after the first action that answers it (forward,
/// move, release or fail) every later event calls for nothing. So the old
/// block is freed at most once, and never after the call went to mimalloc.
pub proof fn lemma_answered_once(request: Request, phase: Phase, events: Seq<Event>)
    ensures
        forall|i: int|
            0 <= i < events.len() && answers(#[trigger] actions(request, phase, events)[i])
                ==> inert_from(actions(request, phase, events), i + 1),
    decreases events.len(),
{
    lemma_actions_len(request, phase, events);
    if events.len() > 0 {
        let (p, a) = next(request, phase, events[0]);
        let rest = events.drop_first();
        let acts = actions(request, phase, events);
        let tail = actions(request, p, rest);
        lemma_answered_once(request, p, rest);
        lemma_actions_len(request, p, rest);
        assert(acts == seq![a] + tail);
        assert forall|i: int|
            0 <= i < events.len() && answers(#[trigger] acts[i]) implies inert_from(acts, i + 1) by {
            if i == 0 {
                assert(p == Phase::Done);
                lemma_done_is_inert(request, rest);
                assert forall|j: int| 1 <= j < acts.len() implies #[trigger] acts[j]
                    == Action::Unexpected by {
                    assert(acts[j] == tail[j - 1]);
                }
            } else {
                assert(acts[i] == tail[i - 1]);
                assert forall|j: int| i + 1 <= j < acts.len() implies #[trigger] acts[j]
                    == Action::Unexpected by {
                    assert(acts[j] == tail[j - 1]);
                }
            }
        }
    }
}

proof fn lemma_unfold_once(request: Request, phase: Phase, first: Event, rest: Seq<Event>)
    ensures
        actions(request, phase, seq![first] + rest) == seq![next(request, phase, first).1]
            + actions(request, next(request, phase, first).0, rest),
{
    let events = seq![first] + rest;
    assert(events[0] == first);
    assert(events.drop_first() =~= rest);
}

/// Where the first event already answers the call, that answer is the first
/// action and nothing follows it.
proof fn lemma_first_event_answers(request: Request, first: Event, rest: Seq<Event>)
    requires
        answers(next(request, Phase::Locate, first).1),
    ensures
        ({
            let acts = actions(request, Phase::Locate, seq![first] + rest);
            &&& acts.len() == rest.len() + 1
            &&& acts[0] == next(request, Phase::Locate, first).1
            &&& inert_from(acts, 1)
        }),
{
    lemma_unfold_once(request, Phase::Locate, first, rest);
    lemma_answered_once(request, Phase::Locate, seq![first] + rest);
    lemma_actions_len(request, Phase::Locate, seq![first] + rest);
}

/// A block that one of mimalloc's heaps holds, and the null pointer, go to
/// mimalloc's counterpart of the hooked function; nothing is copied, nor
/// freed through the old heap, after that.
pub proof fn lemma_mimalloc_block_forwarded(
    request: Request,
    in_mimalloc: bool,
    is_null: bool,
    rest: Seq<Event>,
)
    requires
        in_mimalloc || is_null,
    ensures
        ({
            let acts = actions(
                request,
                Phase::Locate,
                seq![Event::Located { in_mimalloc, is_null }] + rest,
            );
            &&& acts.len() == rest.len() + 1
            &&& acts[0] == Action::Forward
            &&& inert_from(acts, 1)
        }),
{
    lemma_first_event_answers(request, Event::Located { in_mimalloc, is_null }, rest);
}

/// A request for zero bytes on a block of the old heap frees that block
/// through the old heap and answers null; nothing is allocated.
pub proof fn lemma_free_request_releases(request: Request, rest: Seq<Event>)
    requires
        request.frees_only(),
    ensures
        ({
            let acts = actions(
                request,
                Phase::Locate,
                seq![Event::Located { in_mimalloc: false, is_null: false }] + rest,
            );
            &&& acts.len() == rest.len() + 1
            &&& acts[0] == Action::Release
            &&& inert_from(acts, 1)
        }),
{
    lemma_first_event_answers(
        request,
        Event::Located { in_mimalloc: false, is_null: false },
        rest,
    );
}

/// A recalloc on a block of the old heap whose `count * size` does not fit in
/// a `usize` answers null and leaves the old block as it is.
pub proof fn lemma_oversized_request_fails(request: Request, rest: Seq<Event>)
    requires
        !request.frees_only(),
        request.bytes() > usize::MAX,
    ensures
        ({
            let acts = actions(
                request,
                Phase::Locate,
                seq![Event::Located { in_mimalloc: false, is_null: false }] + rest,
            );
            &&& acts.len() == rest.len() + 1
            &&& acts[0] == Action::Fail
            &&& inert_from(acts, 1)
        }),
{
    lemma_first_event_answers(
        request,
        Event::Located { in_mimalloc: false, is_null: false },
        rest,
    );
}

/// The lazy migration of a block of the old heap: its size is asked of the
/// old heap, a block of the requested size (zero-filled for a recalloc) is
/// taken from mimalloc, the smaller of the two sizes is copied and the old
/// block is freed through the old heap; where mimalloc hands out no block,
/// the answer is null and the old block is kept.
pub proof fn lemma_foreign_block_moved(request: Request, old_size: usize, allocated: bool)
    requires
        !request.frees_only(),
        request.bytes() <= usize::MAX,
    ensures
        actions(
            request,
            Phase::Locate,
            seq![
                Event::Located { in_mimalloc: false, is_null: false },
                Event::OldSize { size: old_size },
                Event::NewBlock { allocated },
            ],
        ) == seq![
            Action::QueryOldSize,
            Action::Allocate { size: request.bytes() as usize, zeroed: request.zeroed() },
            if allocated {
                Action::MoveAndRelease {
                    copy_len: min_size(old_size as int, request.bytes()) as usize,
                }
            } else {
                Action::Fail
            },
        ],
{
    let e0 = Event::Located { in_mimalloc: false, is_null: false };
    let e1 = Event::OldSize { size: old_size };
    let e2 = Event::NewBlock { allocated };
    let new_size = request.bytes() as usize;
    let p1 = Phase::AwaitOldSize { new_size };
    let p2 = Phase::AwaitNewBlock { old_size, new_size };
    assert(seq![e0, e1, e2] =~= seq![e0] + seq![e1, e2]);
    assert(seq![e1, e2] =~= seq![e1] + seq![e2]);
    assert(seq![e2] =~= seq![e2] + Seq::<Event>::empty());
    lemma_unfold_once(request, Phase::Locate, e0, seq![e1, e2]);
    lemma_unfold_once(request, p1, e1, seq![e2]);
    lemma_unfold_once(request, p2, e2, Seq::<Event>::empty());
    assert(actions(request, Phase::Done, Seq::<Event>::empty()) =~= Seq::<Action>::empty());
    let last = next(request, p2, e2).1;
    assert(actions(request, p2, seq![e2]) =~= seq![last]);
    assert(actions(request, p1, seq![e1, e2]) =~= seq![
        Action::Allocate { size: new_size, zeroed: request.zeroed() },
        last,
    ]);
    assert(actions(request, Phase::Locate, seq![e0, e1, e2]) =~= seq![
        Action::QueryOldSize,
        Action::Allocate { size: new_size, zeroed: request.zeroed() },
        last,
    ]);
}

/// A move never copies more than the old block holds nor more than the new
/// block was asked to hold, whatever sizes were reported.
pub proof fn lemma_copy_within_blocks(run: Resize, event: Event)
    requires
        run.wf(),
    ensures
        next(run.request, run.phase, event).1 matches Action::MoveAndRelease { copy_len } ==> {
            &&& run.phase matches Phase::AwaitNewBlock { old_size, .. } && copy_len <= old_size
            &&& copy_len <= run.request.bytes()
        },
{
}

/// What an answering action hands back to the caller of the hooked export.
#[derive(Clone, Copy, Debug, PartialEq, Eq, Structural)]
pub enum Handback {
    /// Whatever mimalloc's counterpart returned.
    MimallocResult,
    /// The block that mimalloc handed out for the `Allocate` of the run.
    AllocatedBlock,
    /// The null pointer.
    Null,
}

/// The value an action hands back, for the actions that answer the call.
pub open spec fn handback(a: Action) -> Option<Handback> {
    match a {
        Action::Forward => Some(Handback::MimallocResult),
        Action::MoveAndRelease { .. } => Some(Handback::AllocatedBlock),
        Action::Release | Action::Fail => Some(Handback::Null),
        _ => None,
    }
}

proof fn lemma_move_follows_allocation(request: Request, phase: Phase, events: Seq<Event>)
    ensures
        forall|i: int|
            0 <= i < events.len() && #[trigger] actions(request, phase, events)[i] is MoveAndRelease
                ==> events[i] == (Event::NewBlock { allocated: true }) && ((exists|j: int|
                0 <= j < i && #[trigger] actions(request, phase, events)[j] is Allocate)
                || phase is AwaitNewBlock),
    decreases events.len(),
{
    lemma_actions_len(request, phase, events);
    if events.len() > 0 {
        let (p, a) = next(request, phase, events[0]);
        let rest = events.drop_first();
        let acts = actions(request, phase, events);
        let tail = actions(request, p, rest);
        lemma_move_follows_allocation(request, p, rest);
        lemma_actions_len(request, p, rest);
        assert(acts == seq![a] + tail);
        assert forall|i: int| 0 <= i < events.len() && #[trigger] acts[i] is MoveAndRelease implies events[i]
            == (Event::NewBlock { allocated: true }) && ((exists|j: int|
            0 <= j < i && #[trigger] acts[j] is Allocate) || phase is AwaitNewBlock) by {
            if i > 0 {
                assert(acts[i] == tail[i - 1]);
                assert(events[i] == rest[i - 1]);
                if exists|j: int| 0 <= j < i - 1 && #[trigger] tail[j] is Allocate {
                    let j = choose|j: int| 0 <= j < i - 1 && #[trigger] tail[j] is Allocate;
                    assert(acts[j + 1] == tail[j]);
                    assert(acts[j + 1] is Allocate);
                } else {
                    assert(p is AwaitNewBlock);
                    if a is Allocate {
                        assert(acts[0] is Allocate);
                    } else {
                        assert(phase is AwaitNewBlock);
                    }
                }
            }
        }
    }
}

/// Every answer a hooked reallocation gives comes from mimalloc or is null:
/// either mimalloc's counterpart answered (`Forward`), or the answer is the
/// block that mimalloc handed out for an earlier `Allocate` of the same run
/// (`MoveAndRelease`, only after that allocation succeeded), or it is null
/// (`Release`, `Fail`). No answer is a block of the old heap.
pub proof fn lemma_answers_come_from_mimalloc(request: Request, events: Seq<Event>)
    ensures
        forall|i: int|
            0 <= i < events.len() && answers(#[trigger] actions(request, Phase::Locate, events)[i])
                ==> match handback(actions(request, Phase::Locate, events)[i]) {
                Some(Handback::MimallocResult) => actions(request, Phase::Locate, events)[i]
                    is Forward,
                Some(Handback::AllocatedBlock) => events[i] == (Event::NewBlock {
                    allocated: true,
                }) && exists|j: int|
                    0 <= j < i && #[trigger] actions(request, Phase::Locate, events)[j] is Allocate,
                Some(Handback::Null) => true,
                None => false,
            },
{
    lemma_move_follows_allocation(request, Phase::Locate, events);
}

/// How a hooked reallocation on a block of the old heap starts, by the call's
/// own arguments: `realloc(p, n)` frees only for `n == 0` and otherwise asks
/// for the old size and aims at `n` bytes; `_recalloc(p, c, n)` frees only when
/// `c` or `n` is zero, fails when `c * n` overflows, and otherwise aims at
/// `c * n` bytes.
pub proof fn lemma_foreign_call_by_arguments(request: Request)
    ensures
        ({
            let (p, a) = next(
                request,
                Phase::Locate,
                Event::Located { in_mimalloc: false, is_null: false },
            );
            match request {
                Request::Realloc { size } => if size == 0 {
                    a == Action::Release && p == Phase::Done
                } else {
                    a == Action::QueryOldSize && p == (Phase::AwaitOldSize { new_size: size })
                },
                Request::Recalloc { count, size } => if count == 0 || size == 0 {
                    a == Action::Release && p == Phase::Done
                } else if count * size > usize::MAX {
                    a == Action::Fail && p == Phase::Done
                } else {
                    a == Action::QueryOldSize && p == (Phase::AwaitOldSize {
                        new_size: (count * size) as usize,
                    })
                },
            }
        }),
{
}

/// The new block of a move is asked for with the size the run aims at, and it
/// is zero-filled exactly for the recalloc family: never for a realloc,
/// always for a recalloc, whatever the count and size.
pub proof fn lemma_new_block_by_arguments(request: Request, new_size: usize, old_size: usize)
    ensures
        next(request, Phase::AwaitOldSize { new_size }, Event::OldSize { size: old_size }) == (
        Phase::AwaitNewBlock { old_size, new_size },
        Action::Allocate { size: new_size, zeroed: request is Recalloc },
        ),
        request is Realloc ==> !next(
            request,
            Phase::AwaitOldSize { new_size },
            Event::OldSize { size: old_size },
        ).1->zeroed,
        request is Recalloc ==> next(
            request,
            Phase::AwaitOldSize { new_size },
            Event::OldSize { size: old_size },
        ).1->zeroed,
{
}

/// A whole move of a block of the old heap, by the call's arguments: a
/// `realloc(p, n)` with `n > 0` asks for the old size, takes `n` bytes from
/// mimalloc without zero-filling and copies `min(old, n)`; a
/// `_recalloc(p, c, n)` with `c * n` nonzero and in range takes `c * n`
/// zero-filled bytes and copies `min(old, c * n)`.
pub proof fn lemma_move_by_arguments(request: Request, old_size: usize)
    requires
        match request {
            Request::Realloc { size } => size > 0,
            Request::Recalloc { count, size } => count > 0 && size > 0 && count * size
                <= usize::MAX,
        },
    ensures
        ({
            let n: int = match request {
                Request::Realloc { size } => size as int,
                Request::Recalloc { count, size } => count * size,
            };
            actions(
                request,
                Phase::Locate,
                seq![
                    Event::Located { in_mimalloc: false, is_null: false },
                    Event::OldSize { size: old_size },
                    Event::NewBlock { allocated: true },
                ],
            ) == seq![
                Action::QueryOldSize,
                Action::Allocate { size: n as usize, zeroed: request is Recalloc },
                Action::MoveAndRelease {
                    copy_len: (if old_size <= n {
                        old_size as int
                    } else {
                        n
                    }) as usize,
                },
            ]
        }),
{
    match request {
        Request::Recalloc { count, size } => {
            assert(count * size > 0) by (nonlinear_arith)
                requires
                    count > 0,
                    size > 0,
            ;
        },
        _ => {},
    }
    lemma_foreign_block_moved(request, old_size, true);
}

} // verus!
