//! Span identifiers and per-span records.

use vstd::prelude::*;
use vstd::string::StringExecFns;

verus! {

/// Identifies one live span instance. The value is opaque to callers:
/// it is cheap to copy and compare, and unique among live spans.
#[derive(Clone, Copy, Debug, PartialEq, Eq, Hash)]
pub struct SpanId {
    /// The numeric identity of the span.
    pub num: u64,
}

/// Metadata for one active span: an immutable name, accumulated field
/// text, and the number of outstanding owning handles.
#[derive(Debug)]
pub struct Data {
    name: &'static str,
    fields: String,
    ref_count: usize,
}

impl Data {
    /// The span's name, as a sequence of characters.
    pub closed spec fn spec_name(&self) -> Seq<char> {
        self.name@
    }

    /// The accumulated field text, as a sequence of characters.
    pub closed spec fn spec_fields(&self) -> Seq<char> {
        self.fields@
    }

    /// The number of outstanding owning references to this record.
    pub closed spec fn count(&self) -> nat {
        self.ref_count as nat
    }

    /// Creates a record for a newly registered span, owned by exactly
    /// one reference.
    pub fn new(name: &'static str, fields: String) -> (d: Data)
        ensures
            d.spec_name() == name@,
            d.spec_fields() == fields@,
            d.count() == 1,
    {
        Data { name, fields, ref_count: 1 }
    }

    /// The span's name.
    pub fn name(&self) -> (r: &'static str)
        ensures
            r@ == self.spec_name(),
    {
        self.name
    }

    /// The span's accumulated field text.
    pub fn fields(&self) -> (r: &str)
        ensures
            r@ == self.spec_fields(),
    {
        self.fields.as_str()
    }

    /// Records one more outstanding reference to this span.
    pub fn clone_ref(&mut self)
        requires
            old(self).count() < usize::MAX,
        ensures
            final(self).count() == old(self).count() + 1,
            final(self).spec_name() == old(self).spec_name(),
            final(self).spec_fields() == old(self).spec_fields(),
    {
        self.ref_count = self.ref_count + 1;
    }

    /// Releases one outstanding reference; returns true exactly when the
    /// released reference was the last one, in which case the caller must
    /// evict the record from the registry.
    pub fn drop_ref(&mut self) -> (last: bool)
        requires
            old(self).count() >= 1,
        ensures
            final(self).count() == old(self).count() - 1,
            last == (old(self).count() == 1),
            final(self).spec_name() == old(self).spec_name(),
            final(self).spec_fields() == old(self).spec_fields(),
    {
        self.ref_count = self.ref_count - 1;
        self.ref_count == 0
    }

    /// Appends text to the span's field buffer. Field text is append-only
    /// and written only by the single thread recording values at span
    /// creation time.
    pub fn write_str(&mut self, s: &str)
        requires
            old(self).spec_fields().len() + s@.len() <= usize::MAX,
        ensures
            final(self).spec_fields() == old(self).spec_fields() + s@,
            final(self).spec_name() == old(self).spec_name(),
            final(self).count() == old(self).count(),
    {
        self.fields.append(s);
    }
}

} // verus!
