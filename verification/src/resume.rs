//! The single-step resume interface shared by every suspendable shape,
//! and the frame conditions each resume step must respect.

use vstd::prelude::*;
use crate::dispatch::DispatchCell;
use crate::stack::{balanced, ActiveStack};

verus! {

/// What one resume step of a suspendable computation reported: a value
/// is ready, the computation would block, or it failed.
#[derive(Clone, Copy, Debug, PartialEq, Eq)]
pub enum Step<T, E> {
    /// The computation produced its value.
    Ready(T),
    /// The computation cannot make progress yet.
    NotReady,
    /// The computation failed.
    Failed(E),
}

/// What one attempt to hand an item to a sink reported: the item was
/// accepted, handed back because the sink would block, or the sink
/// failed.
#[derive(Clone, Copy, Debug, PartialEq, Eq)]
pub enum SendOutcome<T, E> {
    /// The sink took the item.
    Accepted,
    /// The sink would block; the item comes back to the caller.
    Rejected(T),
    /// The sink failed.
    Failed(E),
}

/// Everything a resume step may touch on the thread that performs it:
/// the thread's active-span stack and its thread-active dispatcher.
/// A suspended computation carries no thread state of its own — each
/// resuming thread hands its own state in, which is what makes moving a
/// computation between threads safe.
#[derive(Debug)]
pub struct ThreadState {
    /// The thread's active-span stack and event log.
    pub spans: ActiveStack,
    /// The thread's active dispatcher.
    pub dispatch: DispatchCell,
}

impl ThreadState {
    /// The state of a fresh, live thread.
    pub fn new() -> (t: ThreadState)
        ensures
            t.spans.is_available(),
            t.spans.spec_ids() == Seq::<crate::span::SpanId>::empty(),
            t.spans.spec_log() == Seq::<crate::stack::SpanEvent>::empty(),
            t.dispatch.current == None::<crate::dispatch::Dispatch>,
    {
        ThreadState { spans: ActiveStack::new(), dispatch: DispatchCell::new() }
    }
}

/// What every well-behaved resume step owes the thread that runs it,
/// whatever it computes: the stack of entered spans is exactly restored
/// (nested spans entered during the step are exited inside it — nothing
/// leaks past the step), the event log only grows, the growth pairs
/// every enter with an exit, the stack's availability is untouched, and
/// the thread-active dispatcher is restored.
pub open spec fn step_frame(pre: ThreadState, post: ThreadState) -> bool {
    &&& post.spans.is_available() == pre.spans.is_available()
    &&& post.spans.spec_ids() == pre.spans.spec_ids()
    &&& pre.spans.spec_log().is_prefix_of(post.spans.spec_log())
    &&& balanced(post.spans.spec_log().skip(pre.spans.spec_log().len() as int))
    &&& post.dispatch == pre.dispatch
}

/// A resume step that leaves the thread exactly as it found it meets
/// the frame conditions.
pub proof fn lemma_step_frame_refl(t: ThreadState)
    ensures
        step_frame(t, t),
{
    let log = t.spans.spec_log();
    assert(log =~= log.subrange(0, log.len() as int));
    assert(log.skip(log.len() as int) =~= Seq::<crate::stack::SpanEvent>::empty());
}

/// A suspendable computation that yields one value: each `poll` drives
/// it one resume step on the calling thread.
///
/// Implementors state what their step does through `poll_ens`; every
/// implementor additionally owes the thread the `step_frame` guarantees.
pub trait Future: Sized {
    /// The value the computation yields when ready.
    type Item;

    /// The failure the computation may report instead.
    type Error;

    /// What this computation's resume step guarantees, relating the
    /// computation and the thread state before and after the step to
    /// the step's outcome.
    spec fn poll_ens(
        &self,
        post: Self,
        pre_t: ThreadState,
        post_t: ThreadState,
        r: Step<Self::Item, Self::Error>,
    ) -> bool;

    /// Drives the computation one resume step on the calling thread.
    fn poll(&mut self, ctx: &mut ThreadState) -> (r: Step<Self::Item, Self::Error>)
        ensures
            step_frame(*old(ctx), *final(ctx)),
            old(self).poll_ens(*final(self), *old(ctx), *final(ctx), r),
    ;
}

/// A suspendable computation that yields a sequence of values: `Ready`
/// carries the next value, or nothing once the stream is exhausted.
pub trait Stream: Sized {
    /// The values the stream yields.
    type Item;

    /// The failure the stream may report.
    type Error;

    /// What this stream's resume step guarantees.
    spec fn poll_ens(
        &self,
        post: Self,
        pre_t: ThreadState,
        post_t: ThreadState,
        r: Step<Option<Self::Item>, Self::Error>,
    ) -> bool;

    /// Drives the stream one resume step on the calling thread.
    fn poll(&mut self, ctx: &mut ThreadState) -> (r: Step<Option<Self::Item>, Self::Error>)
        ensures
            step_frame(*old(ctx), *final(ctx)),
            old(self).poll_ens(*final(self), *old(ctx), *final(ctx), r),
    ;
}

/// A consumer of values that may apply backpressure: items are offered
/// with `start_send`, and `poll_complete` drives buffered work.
pub trait Sink: Sized {
    /// The items the sink accepts.
    type SinkItem;

    /// The failure the sink may report.
    type SinkError;

    /// What this sink's `start_send` step guarantees.
    spec fn start_send_ens(
        &self,
        post: Self,
        pre_t: ThreadState,
        post_t: ThreadState,
        item: Self::SinkItem,
        r: SendOutcome<Self::SinkItem, Self::SinkError>,
    ) -> bool;

    /// What this sink's `poll_complete` step guarantees.
    spec fn poll_complete_ens(
        &self,
        post: Self,
        pre_t: ThreadState,
        post_t: ThreadState,
        r: Step<(), Self::SinkError>,
    ) -> bool;

    /// Offers one item to the sink, as one resume step on the calling
    /// thread.
    fn start_send(&mut self, ctx: &mut ThreadState, item: Self::SinkItem) -> (r: SendOutcome<
        Self::SinkItem,
        Self::SinkError,
    >)
        ensures
            step_frame(*old(ctx), *final(ctx)),
            old(self).start_send_ens(*final(self), *old(ctx), *final(ctx), item, r),
    ;

    /// Drives the sink's buffered work one resume step on the calling
    /// thread.
    fn poll_complete(&mut self, ctx: &mut ThreadState) -> (r: Step<(), Self::SinkError>)
        ensures
            step_frame(*old(ctx), *final(ctx)),
            old(self).poll_complete_ens(*final(self), *old(ctx), *final(ctx), r),
    ;
}

} // verus!
