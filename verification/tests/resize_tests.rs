use mimalloc_replace::resize::{Action, Event, Phase, Request, Resize};
use mimalloc_replace::route::{route_by_owner, Route};

fn run(request: Request, events: &[Event]) -> Vec<Action> {
    let mut r = Resize::new(request);
    events.iter().map(|e| r.step(*e)).collect()
}

const FOREIGN: Event = Event::Located { in_mimalloc: false, is_null: false };

#[test]
fn simple_hooks_route_by_owner() {
    assert_eq!(route_by_owner(true), Route::Mimalloc);
    assert_eq!(route_by_owner(false), Route::Original);
}

#[test]
fn mimalloc_block_is_forwarded() {
    let acts = run(
        Request::Realloc { size: 64 },
        &[
            Event::Located { in_mimalloc: true, is_null: false },
            Event::OldSize { size: 10 },
            Event::NewBlock { allocated: true },
        ],
    );
    assert_eq!(acts, vec![Action::Forward, Action::Unexpected, Action::Unexpected]);
}

#[test]
fn null_pointer_is_forwarded() {
    let acts = run(
        Request::Recalloc { count: 3, size: 8 },
        &[Event::Located { in_mimalloc: false, is_null: true }],
    );
    assert_eq!(acts, vec![Action::Forward]);
}

#[test]
fn realloc_to_zero_releases_old_block() {
    let acts = run(Request::Realloc { size: 0 }, &[FOREIGN, Event::OldSize { size: 5 }]);
    assert_eq!(acts, vec![Action::Release, Action::Unexpected]);
}

#[test]
fn recalloc_with_zero_count_or_size_releases() {
    assert_eq!(run(Request::Recalloc { count: 0, size: 8 }, &[FOREIGN]), vec![Action::Release]);
    assert_eq!(run(Request::Recalloc { count: 8, size: 0 }, &[FOREIGN]), vec![Action::Release]);
}

#[test]
fn realloc_grows_foreign_block() {
    let acts = run(
        Request::Realloc { size: 100 },
        &[FOREIGN, Event::OldSize { size: 40 }, Event::NewBlock { allocated: true }],
    );
    assert_eq!(
        acts,
        vec![
            Action::QueryOldSize,
            Action::Allocate { size: 100, zeroed: false },
            Action::MoveAndRelease { copy_len: 40 },
        ]
    );
}

#[test]
fn realloc_shrinks_foreign_block() {
    let acts = run(
        Request::Realloc { size: 16 },
        &[FOREIGN, Event::OldSize { size: 40 }, Event::NewBlock { allocated: true }],
    );
    assert_eq!(acts[2], Action::MoveAndRelease { copy_len: 16 });
}

#[test]
fn recalloc_moves_into_zeroed_block() {
    let acts = run(
        Request::Recalloc { count: 4, size: 6 },
        &[FOREIGN, Event::OldSize { size: 30 }, Event::NewBlock { allocated: true }],
    );
    assert_eq!(
        acts,
        vec![
            Action::QueryOldSize,
            Action::Allocate { size: 24, zeroed: true },
            Action::MoveAndRelease { copy_len: 24 },
        ]
    );
}

#[test]
fn failed_allocation_keeps_old_block() {
    let acts = run(
        Request::Realloc { size: 1 << 40 },
        &[FOREIGN, Event::OldSize { size: 8 }, Event::NewBlock { allocated: false }],
    );
    assert_eq!(acts[2], Action::Fail);
}

#[test]
fn recalloc_overflow_fails() {
    let acts = run(
        Request::Recalloc { count: usize::MAX, size: 2 },
        &[FOREIGN, Event::OldSize { size: 8 }],
    );
    assert_eq!(acts, vec![Action::Fail, Action::Unexpected]);
}

#[test]
fn answered_call_ignores_later_events() {
    let mut r = Resize::new(Request::Realloc { size: 8 });
    assert_eq!(r.step(FOREIGN), Action::QueryOldSize);
    assert_eq!(r.step(Event::OldSize { size: 4 }), Action::Allocate { size: 8, zeroed: false });
    assert!(!r.is_done());
    assert_eq!(r.step(Event::NewBlock { allocated: true }), Action::MoveAndRelease { copy_len: 4 });
    assert!(r.is_done());
    assert_eq!(r.step(FOREIGN), Action::Unexpected);
    assert_eq!(r.step(Event::NewBlock { allocated: true }), Action::Unexpected);
    assert_eq!(r.phase, Phase::Done);
}

#[test]
fn out_of_order_event_is_unexpected() {
    let mut r = Resize::new(Request::Realloc { size: 8 });
    assert_eq!(r.step(Event::OldSize { size: 4 }), Action::Unexpected);
    assert_eq!(r.phase, Phase::Locate);
    assert_eq!(r.step(FOREIGN), Action::QueryOldSize);
    assert_eq!(r.phase, Phase::AwaitOldSize { new_size: 8 });
    assert_eq!(r.step(FOREIGN), Action::Unexpected);
}

#[test]
fn request_helpers() {
    assert_eq!(Request::Recalloc { count: 3, size: 5 }.requested_bytes(), Some(15));
    assert_eq!(Request::Recalloc { count: usize::MAX, size: 3 }.requested_bytes(), None);
    assert_eq!(Request::Realloc { size: 7 }.requested_bytes(), Some(7));
    assert!(Request::Realloc { size: 0 }.is_free_request());
    assert!(!Request::Recalloc { count: 1, size: 1 }.is_free_request());
    assert!(Request::Recalloc { count: 1, size: 1 }.is_zeroed());
    assert!(!Request::Realloc { size: 1 }.is_zeroed());
}
