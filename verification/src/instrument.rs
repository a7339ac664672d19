//! The instrumentation wrapper: carries an owned span handle with a
//! suspendable computation and splices an enter/exit pair around every
//! resume step, on whichever thread performs it.

use vstd::prelude::*;
use crate::registry::{Registry, SpanHandle};
use crate::resume::{step_frame, Future, SendOutcome, Sink, Step, Stream, ThreadState};
use crate::span::SpanId;
use crate::stack::{balanced, enter_count, exit_count, lemma_counts_concat, SpanEvent};

verus! {

/// Each `Enter(e)` or `Exit(e)` in a one-event log counts once for `e`
/// and never for any other span.
pub proof fn lemma_counts_singleton(e: SpanEvent)
    ensures
        forall|x: SpanId| #[trigger] enter_count(seq![e], x) == (if e == SpanEvent::Enter(x) {
            1nat
        } else {
            0nat
        }),
        forall|x: SpanId| #[trigger] exit_count(seq![e], x) == (if e == SpanEvent::Exit(x) {
            1nat
        } else {
            0nat
        }),
{
    assert(seq![e].drop_last() =~= Seq::<SpanEvent>::empty());
    assert forall|x: SpanId| #[trigger] enter_count(seq![e], x) == (if e == SpanEvent::Enter(x) {
        1nat
    } else {
        0nat
    }) by {
        reveal_with_fuel(enter_count, 2);
    }
    assert forall|x: SpanId| #[trigger] exit_count(seq![e], x) == (if e == SpanEvent::Exit(x) {
        1nat
    } else {
        0nat
    }) by {
        reveal_with_fuel(exit_count, 2);
    }
}

/// The bracketing a wrapped resume step owes the resuming thread: when
/// the thread's stack is accessible, the step appends an `Enter` for
/// the wrapper's span first, an `Exit` for it last, and only a balanced
/// segment in between — whatever the step's outcome, and whatever the
/// thread's stack held before.
pub open spec fn brackets(pre: ThreadState, post: ThreadState, id: SpanId) -> bool {
    pre.spans.is_available() ==> ({
        let ap = post.spans.spec_log().skip(pre.spans.spec_log().len() as int);
        &&& ap.len() >= 2
        &&& ap.first() == SpanEvent::Enter(id)
        &&& ap.last() == SpanEvent::Exit(id)
        &&& balanced(ap.subrange(1, ap.len() - 1))
    })
}

/// Assembles the bracket: if a log grew from `log0` by an `Enter(id)`
/// followed by a balanced segment, then appending the matching
/// `Exit(id)` leaves a balanced extension of `log0` with the bracket
/// shape.
proof fn lemma_bracket(log0: Seq<SpanEvent>, log2: Seq<SpanEvent>, id: SpanId)
    requires
        log0.push(SpanEvent::Enter(id)).is_prefix_of(log2),
        balanced(log2.skip(log0.len() as int + 1)),
    ensures
        ({
            let log3 = log2.push(SpanEvent::Exit(id));
            let ap = log3.skip(log0.len() as int);
            &&& log0.is_prefix_of(log3)
            &&& balanced(ap)
            &&& ap.len() >= 2
            &&& ap.first() == SpanEvent::Enter(id)
            &&& ap.last() == SpanEvent::Exit(id)
            &&& ap.subrange(1, ap.len() - 1) == log2.skip(log0.len() as int + 1)
            &&& balanced(ap.subrange(1, ap.len() - 1))
        }),
{
    let mid = log2.skip(log0.len() as int + 1);
    let log3 = log2.push(SpanEvent::Exit(id));
    let ap = log3.skip(log0.len() as int);
    let pre1 = log0.push(SpanEvent::Enter(id));
    assert(pre1 == log2.subrange(0, pre1.len() as int));
    assert(pre1[log0.len() as int] == SpanEvent::Enter(id));
    assert(log2.subrange(0, pre1.len() as int)[log0.len() as int] == log2[log0.len() as int]);
    assert(log2[log0.len() as int] == SpanEvent::Enter(id));
    assert forall|i: int| 0 <= i < log0.len() implies log3[i] == log0[i] by {
        assert(log2.subrange(0, pre1.len() as int)[i] == log2[i]);
        assert(pre1[i] == log0[i]);
    }
    assert(log0 =~= log3.subrange(0, log0.len() as int));
    assert(ap =~= seq![SpanEvent::Enter(id)] + mid + seq![SpanEvent::Exit(id)]);
    lemma_counts_singleton(SpanEvent::Enter(id));
    lemma_counts_singleton(SpanEvent::Exit(id));
    lemma_counts_concat(seq![SpanEvent::Enter(id)], mid);
    lemma_counts_concat(seq![SpanEvent::Enter(id)] + mid, seq![SpanEvent::Exit(id)]);
    assert(ap.subrange(1, ap.len() - 1) =~= mid);
    assert forall|x: SpanId| #[trigger] enter_count(ap, x) == exit_count(ap, x) by {
        assert(enter_count(ap, x) == enter_count(seq![SpanEvent::Enter(id)] + mid, x)
            + enter_count(seq![SpanEvent::Exit(id)], x));
        assert(exit_count(ap, x) == exit_count(seq![SpanEvent::Enter(id)] + mid, x) + exit_count(
            seq![SpanEvent::Exit(id)],
            x,
        ));
    }
}

/// Bracketing exactness: a bracketed resume step appends exactly one
/// enter and one exit for the wrapper's span beyond what its inner
/// segment holds, and leaves every span's enters and exits paired — so
/// a computation resumed `K` times records exactly `K` matched pairs,
/// whatever each resume reported.
pub proof fn lemma_bracketing_exactness(pre: ThreadState, post: ThreadState, id: SpanId)
    requires
        pre.spans.is_available(),
        step_frame(pre, post),
        brackets(pre, post, id),
    ensures
        ({
            let ap = post.spans.spec_log().skip(pre.spans.spec_log().len() as int);
            let mid = ap.subrange(1, ap.len() - 1);
            &&& forall|x: SpanId| #[trigger] enter_count(ap, x) == exit_count(ap, x)
            &&& enter_count(ap, id) == 1 + enter_count(mid, id)
            &&& exit_count(ap, id) == 1 + exit_count(mid, id)
            &&& forall|x: SpanId|
                x != id ==> #[trigger] enter_count(ap, x) == enter_count(mid, x) && exit_count(
                    ap,
                    x,
                ) == exit_count(mid, x)
        }),
{
    let ap = post.spans.spec_log().skip(pre.spans.spec_log().len() as int);
    let mid = ap.subrange(1, ap.len() - 1);
    assert(ap =~= seq![SpanEvent::Enter(id)] + mid + seq![SpanEvent::Exit(id)]);
    lemma_counts_singleton(SpanEvent::Enter(id));
    lemma_counts_singleton(SpanEvent::Exit(id));
    lemma_counts_concat(seq![SpanEvent::Enter(id)], mid);
    lemma_counts_concat(seq![SpanEvent::Enter(id)] + mid, seq![SpanEvent::Exit(id)]);
}

/// The thread state an inner resume step starts from: the wrapper's
/// span has just been entered on the resuming thread.
pub open spec fn entered(pre: ThreadState, ti: ThreadState, id: SpanId) -> bool {
    &&& ti.dispatch == pre.dispatch
    &&& ti.spans.is_available() == pre.spans.is_available()
    &&& pre.spans.is_available() ==> ti.spans.spec_ids() == pre.spans.spec_ids().push(id)
        && ti.spans.spec_log() == pre.spans.spec_log().push(SpanEvent::Enter(id))
    &&& !pre.spans.is_available() ==> ti.spans == pre.spans
}

/// The thread state an inner resume step ends at: the wrapper's exit is
/// the one event still to come before the step returns.
pub open spec fn exiting(post: ThreadState, to: ThreadState, id: SpanId) -> bool {
    &&& to.dispatch == post.dispatch
    &&& to.spans.is_available() == post.spans.is_available()
    &&& post.spans.is_available() ==> to.spans.spec_ids() == post.spans.spec_ids().push(id)
        && post.spans.spec_log() == to.spans.spec_log().push(SpanEvent::Exit(id))
    &&& !post.spans.is_available() ==> to.spans == post.spans
}

/// A suspendable computation together with the owned span handle that
/// instruments it. The handle travels with the value — not with any
/// thread — so the span is re-entered correctly wherever the
/// computation resumes.
#[derive(Debug)]
pub struct Instrumented<T> {
    inner: T,
    span: SpanHandle,
}

/// Attaches a span to any value, yielding the instrumented wrapper.
pub trait Instrument: Sized {
    /// Wraps `self` so that every resume step runs inside `span`.
    fn instrument(self, span: SpanHandle) -> (r: Instrumented<Self>)
        ensures
            r.spec_inner() == self,
            r.spec_span() == span,
    {
        Instrumented { inner: self, span }
    }
}

impl<T: Sized> Instrument for T {

}

impl<T> Instrumented<T> {
    /// The wrapped computation.
    pub closed spec fn spec_inner(&self) -> T {
        self.inner
    }

    /// The owned handle of the instrumenting span.
    pub closed spec fn spec_span(&self) -> SpanHandle {
        self.span
    }

    /// Borrows the span handle that instruments this value.
    pub fn span(&self) -> (r: &SpanHandle)
        ensures
            *r == self.spec_span(),
    {
        &self.span
    }

    /// Consumes the wrapper, returning the wrapped computation and
    /// releasing the span handle's reference — the entry is evicted if
    /// this was the last one. Dropping an in-flight wrapped computation
    /// goes through here: drop is cancellation, and it cleans up the
    /// span with no separate signal.
    pub fn into_inner(self, reg: &mut Registry) -> (r: T)
        requires
            old(reg).wf(),
            self.spec_span().valid(old(reg)),
        ensures
            final(reg).wf(),
            r == self.spec_inner(),
            (old(reg).spans()[self.spec_span().spec_id().num].count() == 1) ==> final(reg).spans()
                == old(reg).spans().remove(self.spec_span().spec_id().num),
            (old(reg).spans()[self.spec_span().spec_id().num].count() > 1) ==> {
                &&& final(reg).spans().dom() == old(reg).spans().dom()
                &&& final(reg).spans()[self.spec_span().spec_id().num].count() == old(
                    reg,
                ).spans()[self.spec_span().spec_id().num].count() - 1
            },
    {
        let Instrumented { inner, span } = self;
        span.drop_handle(reg);
        inner
    }
}

impl<T: Future> Future for Instrumented<T> {
    type Item = T::Item;

    type Error = T::Error;

    /// The wrapper keeps its span handle and brackets the step with
    /// that span's enter and exit.
    open spec fn poll_ens(
        &self,
        post: Self,
        pre_t: ThreadState,
        post_t: ThreadState,
        r: Step<T::Item, T::Error>,
    ) -> bool {
        &&& post.spec_span() == self.spec_span()
        &&& brackets(pre_t, post_t, self.spec_span().spec_id())
        &&& (exists|ti: ThreadState, to: ThreadState|
            entered(pre_t, ti, self.spec_span().spec_id()) && exiting(
                post_t,
                to,
                self.spec_span().spec_id(),
            ) && #[trigger] self.spec_inner().poll_ens(post.spec_inner(), ti, to, r))
    }

    fn poll(&mut self, ctx: &mut ThreadState) -> (r: Step<T::Item, T::Error>) {
        let id = self.span.id();
        ctx.spans.push(id);
        let ghost t1 = *ctx;
        let r = self.inner.poll(ctx);
        let ghost t2 = *ctx;
        proof {
            assert(old(self).spec_inner().poll_ens(self.spec_inner(), t1, t2, r));
            if old(ctx).spans.is_available() {
                lemma_bracket(old(ctx).spans.spec_log(), t2.spans.spec_log(), id);
            }
        }
        ctx.spans.pop();
        proof {
            if old(ctx).spans.is_available() {
                assert(ctx.spans.spec_ids() =~= old(ctx).spans.spec_ids());
            }
            assert(entered(*old(ctx), t1, id));
            assert(exiting(*ctx, t2, id));
        }
        r
    }
}

impl<T: Stream> Stream for Instrumented<T> {
    type Item = T::Item;

    type Error = T::Error;

    /// The wrapper keeps its span handle and brackets the step with
    /// that span's enter and exit.
    open spec fn poll_ens(
        &self,
        post: Self,
        pre_t: ThreadState,
        post_t: ThreadState,
        r: Step<Option<T::Item>, T::Error>,
    ) -> bool {
        &&& post.spec_span() == self.spec_span()
        &&& brackets(pre_t, post_t, self.spec_span().spec_id())
        &&& (exists|ti: ThreadState, to: ThreadState|
            entered(pre_t, ti, self.spec_span().spec_id()) && exiting(
                post_t,
                to,
                self.spec_span().spec_id(),
            ) && #[trigger] self.spec_inner().poll_ens(post.spec_inner(), ti, to, r))
    }

    fn poll(&mut self, ctx: &mut ThreadState) -> (r: Step<Option<T::Item>, T::Error>) {
        let id = self.span.id();
        ctx.spans.push(id);
        let ghost t1 = *ctx;
        let r = self.inner.poll(ctx);
        let ghost t2 = *ctx;
        proof {
            assert(old(self).spec_inner().poll_ens(self.spec_inner(), t1, t2, r));
            if old(ctx).spans.is_available() {
                lemma_bracket(old(ctx).spans.spec_log(), t2.spans.spec_log(), id);
            }
        }
        ctx.spans.pop();
        proof {
            if old(ctx).spans.is_available() {
                assert(ctx.spans.spec_ids() =~= old(ctx).spans.spec_ids());
            }
            assert(entered(*old(ctx), t1, id));
            assert(exiting(*ctx, t2, id));
        }
        r
    }
}

impl<T: Sink> Sink for Instrumented<T> {
    type SinkItem = T::SinkItem;

    type SinkError = T::SinkError;

    /// The wrapper keeps its span handle and brackets the step with
    /// that span's enter and exit.
    open spec fn start_send_ens(
        &self,
        post: Self,
        pre_t: ThreadState,
        post_t: ThreadState,
        item: T::SinkItem,
        r: SendOutcome<T::SinkItem, T::SinkError>,
    ) -> bool {
        &&& post.spec_span() == self.spec_span()
        &&& brackets(pre_t, post_t, self.spec_span().spec_id())
        &&& (exists|ti: ThreadState, to: ThreadState|
            entered(pre_t, ti, self.spec_span().spec_id()) && exiting(
                post_t,
                to,
                self.spec_span().spec_id(),
            ) && #[trigger] self.spec_inner().start_send_ens(post.spec_inner(), ti, to, item, r))
    }

    /// The wrapper keeps its span handle and brackets the step with
    /// that span's enter and exit.
    open spec fn poll_complete_ens(
        &self,
        post: Self,
        pre_t: ThreadState,
        post_t: ThreadState,
        r: Step<(), T::SinkError>,
    ) -> bool {
        &&& post.spec_span() == self.spec_span()
        &&& brackets(pre_t, post_t, self.spec_span().spec_id())
        &&& (exists|ti: ThreadState, to: ThreadState|
            entered(pre_t, ti, self.spec_span().spec_id()) && exiting(
                post_t,
                to,
                self.spec_span().spec_id(),
            ) && #[trigger] self.spec_inner().poll_complete_ens(post.spec_inner(), ti, to, r))
    }

    fn start_send(&mut self, ctx: &mut ThreadState, item: T::SinkItem) -> (r: SendOutcome<
        T::SinkItem,
        T::SinkError,
    >) {
        let id = self.span.id();
        ctx.spans.push(id);
        let ghost t1 = *ctx;
        let r = self.inner.start_send(ctx, item);
        let ghost t2 = *ctx;
        proof {
            assert(old(self).spec_inner().start_send_ens(self.spec_inner(), t1, t2, item, r));
            if old(ctx).spans.is_available() {
                lemma_bracket(old(ctx).spans.spec_log(), t2.spans.spec_log(), id);
            }
        }
        ctx.spans.pop();
        proof {
            if old(ctx).spans.is_available() {
                assert(ctx.spans.spec_ids() =~= old(ctx).spans.spec_ids());
            }
            assert(entered(*old(ctx), t1, id));
            assert(exiting(*ctx, t2, id));
        }
        r
    }

    fn poll_complete(&mut self, ctx: &mut ThreadState) -> (r: Step<(), T::SinkError>) {
        let id = self.span.id();
        ctx.spans.push(id);
        let ghost t1 = *ctx;
        let r = self.inner.poll_complete(ctx);
        let ghost t2 = *ctx;
        proof {
            assert(old(self).spec_inner().poll_complete_ens(self.spec_inner(), t1, t2, r));
            if old(ctx).spans.is_available() {
                lemma_bracket(old(ctx).spans.spec_log(), t2.spans.spec_log(), id);
            }
        }
        ctx.spans.pop();
        proof {
            if old(ctx).spans.is_available() {
                assert(ctx.spans.spec_ids() =~= old(ctx).spans.spec_ids());
            }
            assert(entered(*old(ctx), t1, id));
            assert(exiting(*ctx, t2, id));
        }
        r
    }
}

} // verus!
