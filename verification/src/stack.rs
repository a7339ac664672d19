//! The per-thread active-span stack and its enter/exit event log.

use vstd::prelude::*;
use crate::span::SpanId;

verus! {

/// One span transition observed on a thread: a span became current
/// (`Enter`) or stopped being current (`Exit`).
#[derive(Clone, Copy, Debug, PartialEq, Eq)]
pub enum SpanEvent {
    /// The span was pushed onto the thread's active stack.
    Enter(SpanId),
    /// The span was popped off the thread's active stack.
    Exit(SpanId),
}

/// How many `Enter(id)` events a log holds.
pub open spec fn enter_count(log: Seq<SpanEvent>, id: SpanId) -> nat
    decreases log.len(),
{
    if log.len() == 0 {
        0
    } else {
        enter_count(log.drop_last(), id) + if log.last() == SpanEvent::Enter(id) {
            1nat
        } else {
            0nat
        }
    }
}

/// How many `Exit(id)` events a log holds.
pub open spec fn exit_count(log: Seq<SpanEvent>, id: SpanId) -> nat
    decreases log.len(),
{
    if log.len() == 0 {
        0
    } else {
        exit_count(log.drop_last(), id) + if log.last() == SpanEvent::Exit(id) {
            1nat
        } else {
            0nat
        }
    }
}

/// A log segment is balanced when every span's enters and exits pair up.
pub open spec fn balanced(log: Seq<SpanEvent>) -> bool {
    forall|id: SpanId| enter_count(log, id) == exit_count(log, id)
}

/// Enter and exit counts distribute over concatenation of log segments.
pub proof fn lemma_counts_concat(a: Seq<SpanEvent>, b: Seq<SpanEvent>)
    ensures
        forall|id: SpanId| #[trigger] enter_count(a + b, id) == enter_count(a, id) + enter_count(
            b,
            id,
        ),
        forall|id: SpanId| #[trigger] exit_count(a + b, id) == exit_count(a, id) + exit_count(
            b,
            id,
        ),
    decreases b.len(),
{
    if b.len() == 0 {
        assert(a + b =~= a);
    } else {
        lemma_counts_concat(a, b.drop_last());
        assert((a + b).drop_last() =~= a + b.drop_last());
        assert(forall|id: SpanId| #[trigger] enter_count(a + b, id) == enter_count(
            (a + b).drop_last(),
            id,
        ) + if (a + b).last() == SpanEvent::Enter(id) {
            1nat
        } else {
            0nat
        });
        assert(forall|id: SpanId| #[trigger] exit_count(a + b, id) == exit_count(
            (a + b).drop_last(),
            id,
        ) + if (a + b).last() == SpanEvent::Exit(id) {
            1nat
        } else {
            0nat
        });
    }
}

/// The ordered record of the spans currently entered on one thread,
/// innermost last, together with the log of enter/exit events the thread
/// has observed.
///
/// A stack can be unavailable, standing for a thread whose local storage
/// has already been torn down: every mutation then degrades to a no-op
/// and every query to the empty answer, on purpose, so that bookkeeping
/// during unwinding never raises a second failure.
#[derive(Debug)]
pub struct ActiveStack {
    available: bool,
    ids: Vec<SpanId>,
    log: Vec<SpanEvent>,
}

impl ActiveStack {
    /// Whether the thread's local storage is still accessible.
    pub closed spec fn is_available(&self) -> bool {
        self.available
    }

    /// The identifiers of the spans entered on this thread, root first.
    pub closed spec fn spec_ids(&self) -> Seq<SpanId> {
        self.ids@
    }

    /// Every enter/exit event this thread has observed, in order.
    pub closed spec fn spec_log(&self) -> Seq<SpanEvent> {
        self.log@
    }

    /// A fresh, empty stack for a live thread.
    pub fn new() -> (s: ActiveStack)
        ensures
            s.is_available(),
            s.spec_ids() == Seq::<SpanId>::empty(),
            s.spec_log() == Seq::<SpanEvent>::empty(),
    {
        ActiveStack { available: true, ids: Vec::new(), log: Vec::new() }
    }

    /// A stack standing for a thread whose local storage is gone.
    pub fn torn_down() -> (s: ActiveStack)
        ensures
            !s.is_available(),
            s.spec_ids() == Seq::<SpanId>::empty(),
            s.spec_log() == Seq::<SpanEvent>::empty(),
    {
        ActiveStack { available: false, ids: Vec::new(), log: Vec::new() }
    }

    /// Whether the stack is still accessible, as an executable query.
    pub fn available(&self) -> (b: bool)
        ensures
            b == self.is_available(),
    {
        self.available
    }

    /// How many spans are currently entered on this thread.
    pub fn depth(&self) -> (n: usize)
        ensures
            n == self.spec_ids().len(),
    {
        self.ids.len()
    }

    /// The identifiers of the entered spans, root first.
    pub fn ids(&self) -> (r: &Vec<SpanId>)
        ensures
            r@ == self.spec_ids(),
    {
        &self.ids
    }

    /// The thread's event log.
    pub fn events(&self) -> (r: &Vec<SpanEvent>)
        ensures
            r@ == self.spec_log(),
    {
        &self.log
    }

    /// The innermost entered span, or nothing on an empty or unavailable
    /// stack.
    pub fn current(&self) -> (r: Option<SpanId>)
        ensures
            r == (if self.is_available() && self.spec_ids().len() > 0 {
                Some(self.spec_ids().last())
            } else {
                None::<SpanId>
            }),
    {
        if self.available && self.ids.len() > 0 {
            Some(self.ids[self.ids.len() - 1])
        } else {
            None
        }
    }

    /// Enters a span: appends its identifier to the stack and records the
    /// enter event. On an unavailable stack this does nothing.
    ///
    /// Entering a span that this thread has already entered pushes a
    /// second entry — reentrant entry duplicates the stack entry, and
    /// each exit removes exactly one. That is this stack's deliberate
    /// reentrancy policy.
    pub fn push(&mut self, id: SpanId)
        ensures
            final(self).is_available() == old(self).is_available(),
            old(self).is_available() ==> final(self).spec_ids() == old(self).spec_ids().push(id),
            old(self).is_available() ==> final(self).spec_log() == old(self).spec_log().push(
                SpanEvent::Enter(id),
            ),
            !old(self).is_available() ==> *final(self) == *old(self),
    {
        if self.available {
            self.ids.push(id);
            self.log.push(SpanEvent::Enter(id));
        }
    }

    /// Exits the innermost span: removes it from the stack, records the
    /// exit event, and returns its identifier. On an empty or unavailable
    /// stack this does nothing and returns nothing; an unmatched pop is
    /// benign, not an error.
    pub fn pop(&mut self) -> (r: Option<SpanId>)
        ensures
            final(self).is_available() == old(self).is_available(),
            (old(self).is_available() && old(self).spec_ids().len() > 0) ==> {
                &&& r == Some(old(self).spec_ids().last())
                &&& final(self).spec_ids() == old(self).spec_ids().drop_last()
                &&& final(self).spec_log() == old(self).spec_log().push(
                    SpanEvent::Exit(old(self).spec_ids().last()),
                )
            },
            !(old(self).is_available() && old(self).spec_ids().len() > 0) ==> (*final(self) == *old(
                self,
            ) && r == None::<SpanId>),
    {
        if self.available && self.ids.len() > 0 {
            let id = self.ids[self.ids.len() - 1];
            self.ids.pop();
            self.log.push(SpanEvent::Exit(id));
            assert(self.spec_ids() =~= old(self).spec_ids().drop_last());
            Some(id)
        } else {
            None
        }
    }
}

/// The stack value left after `k` pops, each removing the innermost
/// entry while one exists.
pub open spec fn after_pops(s: Seq<SpanId>, k: nat) -> Seq<SpanId>
    decreases k,
{
    if k == 0 {
        s
    } else if s.len() == 0 {
        after_pops(s, (k - 1) as nat)
    } else {
        after_pops(s.drop_last(), (k - 1) as nat)
    }
}

/// The LIFO law: pushing any sequence of identifiers onto a stack and
/// then popping the same number restores the stack exactly; in
/// particular, a full unwind of an initially empty stack leaves no
/// current span.
pub proof fn lemma_lifo(s: Seq<SpanId>, pushed: Seq<SpanId>)
    ensures
        after_pops(s + pushed, pushed.len()) == s,
    decreases pushed.len(),
{
    if pushed.len() == 0 {
        assert(s + pushed =~= s);
    } else {
        assert((s + pushed).drop_last() =~= s + pushed.drop_last());
        lemma_lifo(s, pushed.drop_last());
    }
}

} // verus!
