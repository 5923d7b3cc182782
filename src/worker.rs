use kanal::{AsyncReceiver, AsyncSender};
use std::marker::PhantomData;
use vstd::prelude::*;

verus! {

#[verifier::external_type_specification]
#[verifier::external_body]
#[verifier::reject_recursive_types(T)]
pub struct ExAsyncSender<T>(AsyncSender<T>);

#[verifier::external_type_specification]
#[verifier::external_body]
#[verifier::reject_recursive_types(T)]
pub struct ExAsyncReceiver<T>(AsyncReceiver<T>);

/// Relies on kanal::bounded_async: the two ends of one channel that holds at
/// most `size` items; it never panics.
pub assume_specification<T>[ kanal::bounded_async::<T> ](size: usize) -> (AsyncSender<T>, AsyncReceiver<T>);

/// Drains a bounded inbound channel into a pipeline service.
#[verifier::reject_recursive_types(Input)]
pub struct Worker<S, Input, Output> {
    srv: S,
    receiver: AsyncReceiver<Input>,
    _marker: PhantomData<(Input, Output)>,
}

impl<S, Input, Output> Worker<S, Input, Output> {
    /// The pipeline service that every item is dispatched to.
    pub closed spec fn service(&self) -> S {
        self.srv
    }

    /// A worker for `srv` and the sending end of its inbound channel, which
    /// holds at most `buffer_size` items before senders wait.
    pub fn new(srv: S, buffer_size: usize) -> (r: (AsyncSender<Input>, Self))
        ensures
            r.1.service() == srv,
    {
        let (sender, receiver) = kanal::bounded_async(buffer_size);
        (sender, Worker { srv, receiver, _marker: PhantomData })
    }

    /// The service and the receiving end, for the loop that drives them.
    pub fn into_parts(self) -> (r: (S, AsyncReceiver<Input>))
        ensures
            r.0 == self.service(),
    {
        (self.srv, self.receiver)
    }
}

/// What the drive loop has just observed.
#[derive(Debug, Clone, Copy, PartialEq, Eq, Structural)]
pub enum DriveEvent {
    /// An item came in on the channel.
    Received,
    /// Every sender is gone: no item will come in any more.
    Closed,
    /// A dispatched task ran to its end.
    TaskFinished,
    /// A dispatched task panicked.
    TaskPanicked,
    /// No dispatched task is left.
    Drained,
}

/// What the drive loop does next.
#[derive(Debug, Clone, Copy, PartialEq, Eq, Structural)]
pub enum DriveAction {
    /// Dispatch the item in a task of its own, then wait for the next item.
    Spawn,
    /// Wait for the next item.
    Receive,
    /// Wait for the next task to end.
    JoinNext,
    /// Hold on to this panic, to raise it at the end, and wait for the next task.
    KeepPanic,
    /// Hold on to this panic, to raise it at the end, and wait for the next item.
    KeepPanicThenReceive,
    /// Return success.
    Finish,
    /// Raise the panic held on to.
    ResumePanic,
}

/// The state of the drive loop.
#[derive(Debug, Clone, Copy, PartialEq, Eq, Structural)]
pub struct DriveState {
    /// Items are still being accepted.
    pub accepting: bool,
    /// Some task has panicked.
    pub panicked: bool,
}

/// The next state and action of the drive loop after `e` in state `s`. An
/// event that cannot come in a phase changes nothing.
pub open spec fn next(s: DriveState, e: DriveEvent) -> (DriveState, DriveAction) {
    if s.accepting {
        match e {
            DriveEvent::Received => (s, DriveAction::Spawn),
            DriveEvent::Closed => (DriveState { accepting: false, ..s }, DriveAction::JoinNext),
            DriveEvent::TaskPanicked => (
                DriveState { panicked: true, ..s },
                if s.panicked {
                    DriveAction::Receive
                } else {
                    DriveAction::KeepPanicThenReceive
                },
            ),
            _ => (s, DriveAction::Receive),
        }
    } else {
        match e {
            DriveEvent::TaskPanicked => (
                DriveState { panicked: true, ..s },
                if s.panicked {
                    DriveAction::JoinNext
                } else {
                    DriveAction::KeepPanic
                },
            ),
            DriveEvent::Drained => (
                s,
                if s.panicked {
                    DriveAction::ResumePanic
                } else {
                    DriveAction::Finish
                },
            ),
            _ => (s, DriveAction::JoinNext),
        }
    }
}

/// The state at the start of the drive loop.
pub open spec fn initial() -> DriveState {
    DriveState { accepting: true, panicked: false }
}

/// The state after the events `es`, from the start.
pub open spec fn run(es: Seq<DriveEvent>) -> DriveState
    decreases es.len(),
{
    if es.len() == 0 {
        initial()
    } else {
        next(run(es.drop_last()), es.last()).0
    }
}

/// The action taken on the `i`-th event of `es`.
pub open spec fn action_at(es: Seq<DriveEvent>, i: int) -> DriveAction {
    next(run(es.take(i)), es[i]).1
}

pub open spec fn is_terminal(a: DriveAction) -> bool {
    a is Finish || a is ResumePanic
}

pub open spec fn is_keep_panic(a: DriveAction) -> bool {
    a is KeepPanic || a is KeepPanicThenReceive
}

impl DriveState {
    /// The state at the start of the drive loop.
    pub fn new() -> (r: Self)
        ensures
            r == initial(),
    {
        DriveState { accepting: true, panicked: false }
    }

    /// Takes in `e` and returns the action that the loop performs next.
    pub fn step(&mut self, e: DriveEvent) -> (r: DriveAction)
        ensures
            (*final(self), r) == next(*old(self), e),
    {
        let was_panicked = self.panicked;
        if self.accepting {
            match e {
                DriveEvent::Received => DriveAction::Spawn,
                DriveEvent::Closed => {
                    self.accepting = false;
                    DriveAction::JoinNext
                },
                DriveEvent::TaskPanicked => {
                    self.panicked = true;
                    if was_panicked {
                        DriveAction::Receive
                    } else {
                        DriveAction::KeepPanicThenReceive
                    }
                },
                _ => DriveAction::Receive,
            }
        } else {
            match e {
                DriveEvent::TaskPanicked => {
                    self.panicked = true;
                    if was_panicked {
                        DriveAction::JoinNext
                    } else {
                        DriveAction::KeepPanic
                    }
                },
                DriveEvent::Drained => {
                    if was_panicked {
                        DriveAction::ResumePanic
                    } else {
                        DriveAction::Finish
                    }
                },
                _ => DriveAction::JoinNext,
            }
        }
    }
}

/// After the events `es`, the loop still accepts items exactly when the
/// channel has not closed, and it holds a panic exactly when a task panicked.
pub proof fn lemma_run(es: Seq<DriveEvent>)
    ensures
        run(es).accepting <==> !exists|k: int| 0 <= k < es.len() && es[k] == DriveEvent::Closed,
        run(es).panicked <==> exists|k: int| 0 <= k < es.len() && es[k] == DriveEvent::TaskPanicked,
    decreases es.len(),
{
    if es.len() > 0 {
        let init = es.drop_last();
        lemma_run(init);
        assert forall|k: int| 0 <= k < init.len() implies init[k] == es[k] by {}
        if exists|k: int| 0 <= k < es.len() && es[k] == DriveEvent::Closed {
            let k = choose|k: int| 0 <= k < es.len() && es[k] == DriveEvent::Closed;
            if k < init.len() {
                assert(init[k] == DriveEvent::Closed);
            }
        }
        if exists|k: int| 0 <= k < es.len() && es[k] == DriveEvent::TaskPanicked {
            let k = choose|k: int| 0 <= k < es.len() && es[k] == DriveEvent::TaskPanicked;
            if k < init.len() {
                assert(init[k] == DriveEvent::TaskPanicked);
            }
        }
    }
}

/// A panic in a dispatched task ends the drive loop with that panic, and
/// only once every task has ended: the loop stops only when no task is left
/// after the channel closed, and it then raises a panic exactly when some task
/// panicked. The panic held on to is that of the first task to panic.
pub proof fn lemma_panic_propagation(es: Seq<DriveEvent>, i: int)
    requires
        0 <= i < es.len(),
    ensures
        is_terminal(action_at(es, i)) ==> es[i] == DriveEvent::Drained && exists|k: int|
            0 <= k < i && es[k] == DriveEvent::Closed,
        es[i] == DriveEvent::Drained && (exists|k: int| 0 <= k < i && es[k] == DriveEvent::Closed)
            ==> (action_at(es, i) == DriveAction::ResumePanic <==> exists|j: int|
            0 <= j < i && es[j] == DriveEvent::TaskPanicked),
        is_keep_panic(action_at(es, i)) <==> es[i] == DriveEvent::TaskPanicked && !exists|j: int|
            0 <= j < i && es[j] == DriveEvent::TaskPanicked,
{
    let pre = es.take(i);
    lemma_run(pre);
    assert forall|k: int| 0 <= k < i implies pre[k] == es[k] by {}
    if exists|k: int| 0 <= k < i && es[k] == DriveEvent::Closed {
        let k = choose|k: int| 0 <= k < i && es[k] == DriveEvent::Closed;
        assert(pre[k] == DriveEvent::Closed);
    }
    if exists|k: int| 0 <= k < pre.len() && pre[k] == DriveEvent::Closed {
        let k = choose|k: int| 0 <= k < pre.len() && pre[k] == DriveEvent::Closed;
        assert(es[k] == DriveEvent::Closed);
    }
    if exists|k: int| 0 <= k < i && es[k] == DriveEvent::TaskPanicked {
        let k = choose|k: int| 0 <= k < i && es[k] == DriveEvent::TaskPanicked;
        assert(pre[k] == DriveEvent::TaskPanicked);
    }
    if exists|k: int| 0 <= k < pre.len() && pre[k] == DriveEvent::TaskPanicked {
        let k = choose|k: int| 0 <= k < pre.len() && pre[k] == DriveEvent::TaskPanicked;
        assert(es[k] == DriveEvent::TaskPanicked);
    }
}

/// Whether a dispatched task goes on to call the service after its readiness
/// check: only when the service reported ready; otherwise the item is dropped.
pub fn call_after_readiness<E>(ready: &Result<(), E>) -> (r: bool)
    ensures
        r == (ready is Ok),
{
    ready.is_ok()
}

} // verus!
