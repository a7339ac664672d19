//! The dispatcher-carrying wrapper: installs an owned dispatcher as
//! thread-active for exactly the duration of each resume step.

use vstd::prelude::*;
use crate::dispatch::Dispatch;
use crate::resume::{Future, Step, ThreadState};

verus! {

/// A suspendable computation together with the owned dispatcher it
/// reports to. Around every resume step the wrapper installs that
/// dispatcher as the resuming thread's active one and restores the
/// prior one afterwards, so a computation created under one subscriber
/// keeps reporting to it even when resumed on a thread whose ambient
/// default is another.
#[derive(Debug)]
pub struct WithDispatch<T> {
    inner: T,
    dispatch: Dispatch,
}

/// Attaches a dispatcher to any value, yielding the wrapper.
pub trait WithSubscriber: Sized {
    /// Wraps `self` so that every resume step reports to `subscriber`.
    fn with_subscriber(self, subscriber: Dispatch) -> (r: WithDispatch<Self>)
        ensures
            r.spec_inner() == self,
            r.spec_dispatch() == subscriber,
    {
        WithDispatch { inner: self, dispatch: subscriber }
    }
}

impl<T: Sized> WithSubscriber for T {

}

impl<T> WithDispatch<T> {
    /// The wrapped computation.
    pub closed spec fn spec_inner(&self) -> T {
        self.inner
    }

    /// The dispatcher the wrapped computation reports to.
    pub closed spec fn spec_dispatch(&self) -> Dispatch {
        self.dispatch
    }

    /// Attaches this wrapper's dispatcher to another value.
    pub fn with_dispatch<U: Sized>(&self, inner: U) -> (r: WithDispatch<U>)
        ensures
            r.spec_inner() == inner,
            r.spec_dispatch() == self.spec_dispatch(),
    {
        WithDispatch { dispatch: self.dispatch, inner }
    }

    /// Borrows the dispatcher this value is instrumented by.
    pub fn dispatch(&self) -> (r: &Dispatch)
        ensures
            *r == self.spec_dispatch(),
    {
        &self.dispatch
    }

    /// Consumes the wrapper, returning the wrapped computation.
    pub fn into_inner(self) -> (r: T)
        ensures
            r == self.spec_inner(),
    {
        self.inner
    }
}

impl<T: Future> Future for WithDispatch<T> {
    type Item = T::Item;

    type Error = T::Error;

    /// The wrapper keeps its dispatcher; the thread's active dispatcher
    /// is restored by the frame conditions.
    open spec fn poll_ens(
        &self,
        post: Self,
        pre_t: ThreadState,
        post_t: ThreadState,
        r: Step<T::Item, T::Error>,
    ) -> bool {
        &&& post.spec_dispatch() == self.spec_dispatch()
        &&& (exists|ti: ThreadState, to: ThreadState|
            {
                &&& ti.spans == pre_t.spans
                &&& to.spans == post_t.spans
                &&& ti.dispatch.current == Some(self.spec_dispatch())
                &&& to.dispatch.current == Some(self.spec_dispatch())
                &&& #[trigger] self.spec_inner().poll_ens(post.spec_inner(), ti, to, r)
            })
    }

    fn poll(&mut self, ctx: &mut ThreadState) -> (r: Step<T::Item, T::Error>) {
        let prior = ctx.dispatch.current;
        ctx.dispatch.current = Some(self.dispatch);
        let ghost t1 = *ctx;
        let r = self.inner.poll(ctx);
        let ghost t2 = *ctx;
        proof {
            assert(old(self).spec_inner().poll_ens(self.spec_inner(), t1, t2, r));
        }
        ctx.dispatch.current = prior;
        r
    }
}

} // verus!
