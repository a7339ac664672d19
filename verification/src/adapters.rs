//! Simple suspendable computations: a future that becomes ready after a
//! chosen number of polls, a stream over a vector, and a sink that
//! collects into one. They exercise the resume interface and serve as
//! the inner computations that the instrumentation wrappers are proved
//! against.

use vstd::prelude::*;
use crate::resume::{lemma_step_frame_refl, Future, SendOutcome, Sink, Step, Stream, ThreadState};

verus! {

/// A future that reports not-ready until its n-th poll, then reports
/// its configured outcome: ready, or failed. Polls past that point
/// report not-ready again.
#[derive(Debug)]
pub struct PollN {
    finish_at: usize,
    polls: usize,
    fail: bool,
}

impl PollN {
    /// How many polls the future has seen.
    pub closed spec fn spec_polls(&self) -> nat {
        self.polls as nat
    }

    /// The poll on which the future finishes.
    pub closed spec fn spec_finish_at(&self) -> nat {
        self.finish_at as nat
    }

    /// Whether the future finishes with a failure.
    pub closed spec fn spec_fail(&self) -> bool {
        self.fail
    }

    /// A future that becomes ready on its `finish_at`-th poll.
    pub fn new_ok(finish_at: usize) -> (f: PollN)
        ensures
            f.spec_polls() == 0,
            f.spec_finish_at() == finish_at,
            !f.spec_fail(),
    {
        PollN { finish_at, polls: 0, fail: false }
    }

    /// A future that fails on its `finish_at`-th poll.
    pub fn new_err(finish_at: usize) -> (f: PollN)
        ensures
            f.spec_polls() == 0,
            f.spec_finish_at() == finish_at,
            f.spec_fail(),
    {
        PollN { finish_at, polls: 0, fail: true }
    }
}

impl Future for PollN {
    type Item = ();

    type Error = ();

    /// The thread is untouched; the poll count advances (saturating at
    /// the machine limit) and the outcome is ready or failed exactly on
    /// the finishing poll.
    open spec fn poll_ens(
        &self,
        post: Self,
        pre_t: ThreadState,
        post_t: ThreadState,
        r: Step<(), ()>,
    ) -> bool {
        &&& post_t == pre_t
        &&& post.spec_finish_at() == self.spec_finish_at()
        &&& post.spec_fail() == self.spec_fail()
        &&& post.spec_polls() == (if self.spec_polls() < usize::MAX {
            self.spec_polls() + 1
        } else {
            self.spec_polls()
        })
        &&& r == (if post.spec_polls() == self.spec_finish_at() {
            if self.spec_fail() {
                Step::<(), ()>::Failed(())
            } else {
                Step::<(), ()>::Ready(())
            }
        } else {
            Step::<(), ()>::NotReady
        })
    }

    fn poll(&mut self, ctx: &mut ThreadState) -> (r: Step<(), ()>) {
        proof {
            lemma_step_frame_refl(*ctx);
        }
        if self.polls < usize::MAX {
            self.polls = self.polls + 1;
        }
        if self.polls == self.finish_at {
            if self.fail {
                Step::Failed(())
            } else {
                Step::Ready(())
            }
        } else {
            Step::NotReady
        }
    }
}

/// A stream that yields the items of a vector in order, then reports
/// exhaustion.
#[derive(Debug)]
pub struct IterStream {
    items: Vec<u64>,
    pos: usize,
}

impl IterStream {
    /// The items the stream yields.
    pub closed spec fn spec_items(&self) -> Seq<u64> {
        self.items@
    }

    /// How many items have been yielded already.
    pub closed spec fn spec_pos(&self) -> nat {
        self.pos as nat
    }

    /// A stream over the given items.
    pub fn from_items(items: Vec<u64>) -> (s: IterStream)
        ensures
            s.spec_items() == items@,
            s.spec_pos() == 0,
    {
        IterStream { items, pos: 0 }
    }
}

impl Stream for IterStream {
    type Item = u64;

    type Error = ();

    /// The thread is untouched; each poll yields the next item, or
    /// reports the stream exhausted.
    open spec fn poll_ens(
        &self,
        post: Self,
        pre_t: ThreadState,
        post_t: ThreadState,
        r: Step<Option<u64>, ()>,
    ) -> bool {
        &&& post_t == pre_t
        &&& post.spec_items() == self.spec_items()
        &&& (if self.spec_pos() < self.spec_items().len() {
            post.spec_pos() == self.spec_pos() + 1 && r == Step::<Option<u64>, ()>::Ready(
                Some(self.spec_items()[self.spec_pos() as int]),
            )
        } else {
            post.spec_pos() == self.spec_pos() && r == Step::<Option<u64>, ()>::Ready(
                None::<u64>,
            )
        })
    }

    fn poll(&mut self, ctx: &mut ThreadState) -> (r: Step<Option<u64>, ()>) {
        proof {
            lemma_step_frame_refl(*ctx);
        }
        if self.pos < self.items.len() {
            let item = self.items[self.pos];
            self.pos = self.pos + 1;
            Step::Ready(Some(item))
        } else {
            Step::Ready(None)
        }
    }
}

/// A sink that accepts every item immediately and collects them in
/// order.
#[derive(Debug)]
pub struct VecSink {
    items: Vec<u64>,
}

impl VecSink {
    /// The items accepted so far, in order.
    pub closed spec fn spec_items(&self) -> Seq<u64> {
        self.items@
    }

    /// An empty sink.
    pub fn new() -> (s: VecSink)
        ensures
            s.spec_items() == Seq::<u64>::empty(),
    {
        VecSink { items: Vec::new() }
    }

    /// The items accepted so far.
    pub fn items(&self) -> (r: &Vec<u64>)
        ensures
            r@ == self.spec_items(),
    {
        &self.items
    }
}

impl Sink for VecSink {
    type SinkItem = u64;

    type SinkError = ();

    /// The thread is untouched; the item is always accepted and
    /// appended.
    open spec fn start_send_ens(
        &self,
        post: Self,
        pre_t: ThreadState,
        post_t: ThreadState,
        item: u64,
        r: SendOutcome<u64, ()>,
    ) -> bool {
        &&& post_t == pre_t
        &&& post.spec_items() == self.spec_items().push(item)
        &&& r == SendOutcome::<u64, ()>::Accepted
    }

    /// The thread is untouched; there is never buffered work left.
    open spec fn poll_complete_ens(
        &self,
        post: Self,
        pre_t: ThreadState,
        post_t: ThreadState,
        r: Step<(), ()>,
    ) -> bool {
        &&& post_t == pre_t
        &&& post.spec_items() == self.spec_items()
        &&& r == Step::<(), ()>::Ready(())
    }

    fn start_send(&mut self, ctx: &mut ThreadState, item: u64) -> (r: SendOutcome<u64, ()>) {
        proof {
            lemma_step_frame_refl(*ctx);
        }
        self.items.push(item);
        SendOutcome::Accepted
    }

    fn poll_complete(&mut self, ctx: &mut ThreadState) -> (r: Step<(), ()>) {
        proof {
            lemma_step_frame_refl(*ctx);
        }
        Step::Ready(())
    }
}

} // verus!
