//! The shared span registry: identifier allocation, reference counting
//! and eviction.

use vstd::prelude::*;
use std::collections::HashMap;
use crate::span::{Data, SpanId};

verus! {

broadcast use vstd::std_specs::hash::group_hash_axioms;

/// The reference count each live record carries, keyed by span
/// identifier: the abstraction of a registry that the counting laws are
/// stated over.
pub open spec fn counts(m: Map<u64, Data>) -> Map<u64, nat> {
    m.map_values(|d: Data| d.count())
}

/// The counts after one more reference to `k` is recorded.
pub open spec fn after_clone(c: Map<u64, nat>, k: u64) -> Map<u64, nat> {
    c.insert(k, c[k] + 1)
}

/// The counts after one reference to `k` is released: the entry loses
/// one owner, and leaves the registry exactly when that owner was the
/// last.
pub open spec fn after_drop(c: Map<u64, nat>, k: u64) -> Map<u64, nat> {
    if c[k] == 1 {
        c.remove(k)
    } else {
        c.insert(k, (c[k] - 1) as nat)
    }
}

/// The counts after `n` references to `k` are recorded.
pub open spec fn after_clones(c: Map<u64, nat>, k: u64, n: nat) -> Map<u64, nat>
    decreases n,
{
    if n == 0 {
        c
    } else {
        after_clone(after_clones(c, k, (n - 1) as nat), k)
    }
}

/// The counts after `n` references to `k` are released.
pub open spec fn after_drops(c: Map<u64, nat>, k: u64, n: nat) -> Map<u64, nat>
    decreases n,
{
    if n == 0 {
        c
    } else {
        after_drop(after_drops(c, k, (n - 1) as nat), k)
    }
}

proof fn lemma_after_clones(c: Map<u64, nat>, k: u64, n: nat)
    requires
        c.contains_key(k),
    ensures
        after_clones(c, k, n) == c.insert(k, c[k] + n),
    decreases n,
{
    if n == 0 {
        assert(c.insert(k, c[k] + n) =~= c);
    } else {
        lemma_after_clones(c, k, (n - 1) as nat);
        assert(after_clone(c.insert(k, (c[k] + n - 1) as nat), k) =~= c.insert(k, c[k] + n));
    }
}

proof fn lemma_after_drops(c: Map<u64, nat>, k: u64, i: nat)
    requires
        c.contains_key(k),
        i < c[k],
    ensures
        after_drops(c, k, i) == c.insert(k, (c[k] - i) as nat),
    decreases i,
{
    if i == 0 {
        assert(c.insert(k, (c[k] - i) as nat) =~= c);
    } else {
        lemma_after_drops(c, k, (i - 1) as nat);
        assert(after_drop(c.insert(k, (c[k] - (i - 1)) as nat), k) =~= c.insert(
            k,
            (c[k] - i) as nat,
        ));
    }
}

/// Reference-count exactness: starting from a record owned by a single
/// reference, recording `n` further references and then releasing `n`
/// of them restores the original counts, the record staying present the
/// whole way; only the one release after that — the last reference —
/// evicts it, exactly once.
pub proof fn lemma_refcount_exactness(c: Map<u64, nat>, k: u64, n: nat)
    requires
        c.contains_key(k),
        c[k] == 1,
    ensures
        forall|i: nat|
            i <= n ==> #[trigger] after_drops(after_clones(c, k, n), k, i).contains_key(k)
                && after_drops(after_clones(c, k, n), k, i)[k] == 1 + n - i,
        after_drops(after_clones(c, k, n), k, n) == c,
        after_drop(after_drops(after_clones(c, k, n), k, n), k) == c.remove(k),
{
    lemma_after_clones(c, k, n);
    let m = after_clones(c, k, n);
    assert(m == c.insert(k, 1 + n));
    assert forall|i: nat| i <= n implies #[trigger] after_drops(m, k, i).contains_key(k)
        && after_drops(m, k, i)[k] == 1 + n - i by {
        lemma_after_drops(m, k, i);
    }
    lemma_after_drops(m, k, n);
    assert(after_drops(m, k, n) =~= c);
}

/// Eviction does not affect aliases: releasing one reference while
/// another is outstanding keeps the record in the registry, with one
/// owner fewer.
pub proof fn lemma_alias_survives_drop(c: Map<u64, nat>, k: u64)
    requires
        c.contains_key(k),
        c[k] >= 2,
    ensures
        after_drop(c, k).contains_key(k),
        after_drop(c, k)[k] == c[k] - 1,
{
}

/// The shared store of all currently-live span records.
///
/// Each record is keyed by its identifier and carries a reference count;
/// a record is present exactly while some owning handle is outstanding.
/// Identifiers are allocated from a counter that is never reused, so an
/// evicted identifier can never be observed as live again.
#[derive(Debug)]
pub struct Registry {
    spans: HashMap<u64, Data>,
    next: u64,
}

impl Registry {
    /// The live records, keyed by span identifier.
    pub closed spec fn spans(&self) -> Map<u64, Data> {
        self.spans@
    }

    /// Every live identifier was allocated below the counter (so fresh
    /// identifiers never collide with live ones), and every live record
    /// is owned by at least one reference.
    pub closed spec fn wf(&self) -> bool {
        &&& forall|k: u64| #[trigger] self.spans@.dom().contains(k) ==> k < self.next
        &&& forall|k: u64| #[trigger] self.spans@.dom().contains(k) ==> self.spans@[k].count() >= 1
    }

    /// Whether a fresh identifier can still be allocated.
    pub closed spec fn can_register(&self) -> bool {
        self.next < u64::MAX
    }

    /// An empty registry.
    pub fn new() -> (r: Registry)
        ensures
            r.wf(),
            r.can_register(),
            r.spans() == Map::<u64, Data>::empty(),
    {
        let r = Registry { spans: HashMap::new(), next: 0 };
        proof {
            assert(r.spans@ =~= Map::<u64, Data>::empty());
        }
        r
    }

    /// Inserts a new record with a single owning reference and returns
    /// its identifier, which no live span shares.
    pub fn register(&mut self, name: &'static str, fields: String) -> (id: SpanId)
        requires
            old(self).wf(),
            old(self).can_register(),
        ensures
            final(self).wf(),
            !old(self).spans().contains_key(id.num),
            final(self).spans().contains_key(id.num),
            final(self).spans()[id.num].spec_name() == name@,
            final(self).spans()[id.num].spec_fields() == fields@,
            final(self).spans()[id.num].count() == 1,
            forall|k: u64|
                k != id.num ==> (#[trigger] final(self).spans().contains_key(k) <==> old(self).spans().contains_key(k)),
            forall|k: u64|
                k != id.num && #[trigger] old(self).spans().contains_key(k) ==> final(self).spans()[k] == old(self).spans()[k],
            counts(final(self).spans()) == counts(old(self).spans()).insert(id.num, 1nat),
    {
        let num = self.next;
        self.next = self.next + 1;
        self.spans.insert(num, Data::new(name, fields));
        proof {
            assert(counts(self.spans@) =~= counts(old(self).spans@).insert(num, 1nat));
        }
        SpanId { num }
    }

    /// Whether a span identifier is still live.
    pub fn contains(&self, id: SpanId) -> (b: bool)
        ensures
            b == self.spans().contains_key(id.num),
    {
        self.spans.contains_key(&id.num)
    }

    /// Looks a live span's record up; an identifier already evicted
    /// yields nothing rather than an error.
    pub fn get(&self, id: SpanId) -> (r: Option<&Data>)
        ensures
            (r is Some) == self.spans().contains_key(id.num),
            r matches Some(d) ==> *d == self.spans()[id.num],
    {
        self.spans.get(&id.num)
    }

    /// Records one more owning reference to a live span.
    pub fn clone_ref(&mut self, id: SpanId)
        requires
            old(self).wf(),
            old(self).spans().contains_key(id.num),
            old(self).spans()[id.num].count() < usize::MAX,
        ensures
            final(self).wf(),
            final(self).spans().dom() == old(self).spans().dom(),
            final(self).spans()[id.num].count() == old(self).spans()[id.num].count() + 1,
            final(self).spans()[id.num].spec_name() == old(self).spans()[id.num].spec_name(),
            final(self).spans()[id.num].spec_fields() == old(self).spans()[id.num].spec_fields(),
            forall|k: u64|
                k != id.num && #[trigger] old(self).spans().contains_key(k) ==> final(self).spans()[k] == old(self).spans()[k],
            counts(final(self).spans()) == after_clone(counts(old(self).spans()), id.num),
    {
        let d = self.spans.remove(&id.num);
        match d {
            Some(mut d) => {
                d.clone_ref();
                self.spans.insert(id.num, d);
                proof {
                    assert(self.spans@.dom() =~= old(self).spans@.dom());
                    assert(counts(self.spans@) =~= after_clone(counts(old(self).spans@), id.num));
                }
            },
            None => {
                proof {
                    assert(false);
                }
            },
        }
    }

    /// Releases one owning reference to a live span. The release and the
    /// eviction it may owe are one step: when the released reference was
    /// the last, the record leaves the registry before anything else can
    /// observe it, and the call reports that it was evicted.
    pub fn drop_ref(&mut self, id: SpanId) -> (evicted: bool)
        requires
            old(self).wf(),
            old(self).spans().contains_key(id.num),
        ensures
            final(self).wf(),
            evicted == (old(self).spans()[id.num].count() == 1),
            evicted ==> final(self).spans() == old(self).spans().remove(id.num),
            !evicted ==> {
                &&& final(self).spans().dom() == old(self).spans().dom()
                &&& final(self).spans()[id.num].count() == old(self).spans()[id.num].count() - 1
                &&& final(self).spans()[id.num].spec_name() == old(self).spans()[id.num].spec_name()
                &&& final(self).spans()[id.num].spec_fields() == old(self).spans()[id.num].spec_fields()
                &&& forall|k: u64|
                    k != id.num && #[trigger] old(self).spans().contains_key(k) ==> final(self).spans()[k] == old(self).spans()[k]
            },
            counts(final(self).spans()) == after_drop(counts(old(self).spans()), id.num),
    {
        let d = self.spans.remove(&id.num);
        match d {
            Some(mut d) => {
                let last = d.drop_ref();
                if last {
                    proof {
                        assert(counts(self.spans@) =~= after_drop(
                            counts(old(self).spans@),
                            id.num,
                        ));
                    }
                    true
                } else {
                    self.spans.insert(id.num, d);
                    proof {
                        assert(self.spans@.dom() =~= old(self).spans@.dom());
                        assert(counts(self.spans@) =~= after_drop(
                            counts(old(self).spans@),
                            id.num,
                        ));
                    }
                    false
                }
            },
            None => {
                proof {
                    assert(false);
                }
                false
            },
        }
    }
}

/// An owning, clonable reference to one registry entry.
///
/// Cloning a handle records one more owner with the registry; dropping
/// it releases one owner and evicts the entry when it was the last.
/// Plain copies of the identifier (as the active stack holds) own
/// nothing and never keep a record alive.
#[derive(Debug)]
pub struct SpanHandle {
    id: SpanId,
}

impl SpanHandle {
    /// The identifier of the span this handle owns a reference to.
    pub closed spec fn spec_id(&self) -> SpanId {
        self.id
    }

    /// A handle is valid against a registry while its span is live there.
    pub open spec fn valid(&self, reg: &Registry) -> bool {
        reg.spans().contains_key(self.spec_id().num)
    }

    /// Registers a new span and returns the handle owning its single
    /// reference.
    pub fn acquire(reg: &mut Registry, name: &'static str, fields: String) -> (h: SpanHandle)
        requires
            old(reg).wf(),
            old(reg).can_register(),
        ensures
            final(reg).wf(),
            h.valid(final(reg)),
            !old(reg).spans().contains_key(h.spec_id().num),
            final(reg).spans()[h.spec_id().num].spec_name() == name@,
            final(reg).spans()[h.spec_id().num].spec_fields() == fields@,
            final(reg).spans()[h.spec_id().num].count() == 1,
            forall|k: u64|
                k != h.spec_id().num ==> (#[trigger] final(reg).spans().contains_key(k) <==> old(reg).spans().contains_key(k)),
            forall|k: u64|
                k != h.spec_id().num && #[trigger] old(reg).spans().contains_key(k) ==> final(reg).spans()[k] == old(reg).spans()[k],
    {
        let id = reg.register(name, fields);
        SpanHandle { id }
    }

    /// The identifier of the span this handle refers to.
    pub fn id(&self) -> (r: SpanId)
        ensures
            r == self.spec_id(),
    {
        self.id
    }

    /// Clones the handle: the registry records one more owner of the
    /// same span.
    pub fn clone_handle(&self, reg: &mut Registry) -> (h: SpanHandle)
        requires
            old(reg).wf(),
            self.valid(old(reg)),
            old(reg).spans()[self.spec_id().num].count() < usize::MAX,
        ensures
            final(reg).wf(),
            h.spec_id() == self.spec_id(),
            final(reg).spans().dom() == old(reg).spans().dom(),
            final(reg).spans()[self.spec_id().num].count() == old(reg).spans()[self.spec_id().num].count() + 1,
            final(reg).spans()[self.spec_id().num].spec_name() == old(reg).spans()[self.spec_id().num].spec_name(),
            final(reg).spans()[self.spec_id().num].spec_fields() == old(reg).spans()[self.spec_id().num].spec_fields(),
            forall|k: u64|
                k != self.spec_id().num && #[trigger] old(reg).spans().contains_key(k) ==> final(reg).spans()[k] == old(reg).spans()[k],
            counts(final(reg).spans()) == after_clone(counts(old(reg).spans()), self.spec_id().num),
    {
        reg.clone_ref(self.id);
        SpanHandle { id: self.id }
    }

    /// Drops the handle: the registry releases one owner, and the entry
    /// is evicted exactly when this handle was the last owner. While
    /// another clone is outstanding the entry stays.
    pub fn drop_handle(self, reg: &mut Registry) -> (evicted: bool)
        requires
            old(reg).wf(),
            self.valid(old(reg)),
        ensures
            final(reg).wf(),
            evicted == (old(reg).spans()[self.spec_id().num].count() == 1),
            evicted ==> final(reg).spans() == old(reg).spans().remove(self.spec_id().num),
            !evicted ==> {
                &&& final(reg).spans().dom() == old(reg).spans().dom()
                &&& final(reg).spans()[self.spec_id().num].count() == old(reg).spans()[self.spec_id().num].count() - 1
                &&& forall|k: u64|
                    k != self.spec_id().num && #[trigger] old(reg).spans().contains_key(k)
                        ==> final(reg).spans()[k] == old(reg).spans()[k]
            },
            counts(final(reg).spans()) == after_drop(counts(old(reg).spans()), self.spec_id().num),
    {
        reg.drop_ref(self.id)
    }
}

} // verus!
