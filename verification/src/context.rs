//! The context query surface: iterating or peeking a thread's active
//! stack against the registry.

use vstd::prelude::*;
use crate::registry::Registry;
use crate::span::{Data, SpanId};
use crate::stack::ActiveStack;

verus! {

/// The identifiers of `ids` that are live in `m`, in the same order:
/// what an active-stack walk visits. Identifiers already evicted are
/// skipped silently — they are "already gone", not an error.
pub open spec fn live_ids(ids: Seq<SpanId>, m: Map<u64, Data>) -> Seq<SpanId>
    decreases ids.len(),
{
    if ids.len() == 0 {
        Seq::empty()
    } else if m.contains_key(ids.last().num) {
        live_ids(ids.drop_last(), m).push(ids.last())
    } else {
        live_ids(ids.drop_last(), m)
    }
}

/// A live identifier on the stack is always visited: eviction of other
/// spans, or outstanding aliases elsewhere, never hide it.
pub proof fn lemma_live_ids_finds(ids: Seq<SpanId>, m: Map<u64, Data>, id: SpanId)
    requires
        ids.contains(id),
        m.contains_key(id.num),
    ensures
        live_ids(ids, m).contains(id),
    decreases ids.len(),
{
    if ids.last() == id {
        let sub = live_ids(ids.drop_last(), m);
        assert(sub.push(id)[sub.len() as int] == id);
    } else {
        assert(ids.drop_last().contains(id)) by {
            let i = choose|i: int| 0 <= i < ids.len() && ids[i] == id;
            assert(ids.drop_last()[i] == id);
        }
        lemma_live_ids_finds(ids.drop_last(), m, id);
        let sub = live_ids(ids.drop_last(), m);
        if m.contains_key(ids.last().num) {
            let j = choose|j: int| 0 <= j < sub.len() && sub[j] == id;
            assert(sub.push(ids.last())[j] == id);
        }
    }
}

/// A short-lived accessor binding a borrowed registry reference; it
/// answers queries about a thread's active stack against the registry
/// and is dropped right after. It is never stored across a suspension.
pub struct Context<'a> {
    registry: &'a Registry,
}

impl<'a> Context<'a> {
    /// The registry the context reads.
    pub closed spec fn spec_registry(&self) -> Registry {
        *self.registry
    }

    /// Binds a context to the registry.
    pub fn new(registry: &'a Registry) -> (c: Context<'a>)
        ensures
            c.spec_registry() == *registry,
    {
        Context { registry }
    }

    /// Walks the calling thread's active stack outward from the root,
    /// returning the identifiers still live in the registry, in that
    /// order. Identifiers evicted between push and lookup are skipped.
    /// On an empty or unavailable stack nothing is visited and the walk
    /// still succeeds.
    pub fn with_spans(&self, stack: &ActiveStack) -> (r: Vec<SpanId>)
        ensures
            stack.is_available() ==> r@ == live_ids(stack.spec_ids(), self.spec_registry().spans()),
            !stack.is_available() ==> r@ == Seq::<SpanId>::empty(),
    {
        let mut out: Vec<SpanId> = Vec::new();
        if !stack.available() {
            return out;
        }
        let ids = stack.ids();
        let n = ids.len();
        let mut i: usize = 0;
        while i < n
            invariant
                n == ids@.len(),
                i <= n,
                out@ == live_ids(ids@.take(i as int), self.spec_registry().spans()),
            decreases n - i,
        {
            let id = ids[i];
            proof {
                assert(ids@.take(i as int + 1).drop_last() =~= ids@.take(i as int));
                assert(ids@.take(i as int + 1).last() == ids@[i as int]);
            }
            if self.registry.contains(id) {
                out.push(id);
            }
            i = i + 1;
        }
        proof {
            assert(ids@.take(n as int) =~= ids@);
        }
        out
    }

    /// Applies the registry to the top of the calling thread's stack:
    /// returns the innermost entered identifier if the stack is
    /// accessible and nonempty and the registry still holds that span,
    /// and nothing otherwise.
    pub fn with_current(&self, stack: &ActiveStack) -> (r: Option<SpanId>)
        ensures
            r == (if stack.is_available() && stack.spec_ids().len() > 0
                && self.spec_registry().spans().contains_key(stack.spec_ids().last().num) {
                Some(stack.spec_ids().last())
            } else {
                None::<SpanId>
            }),
    {
        match stack.current() {
            Some(id) => {
                if self.registry.contains(id) {
                    Some(id)
                } else {
                    None
                }
            },
            None => None,
        }
    }
}

} // verus!
