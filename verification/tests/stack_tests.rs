use span_context::registry::Registry;
use span_context::span::SpanId;
use span_context::stack::{ActiveStack, SpanEvent};
use span_context::context::Context;

#[test]
fn lifo_depth_restored() {
    let mut s = ActiveStack::new();
    let a = SpanId { num: 1 };
    let b = SpanId { num: 2 };
    let c = SpanId { num: 3 };
    assert_eq!(s.depth(), 0);
    s.push(a);
    s.push(b);
    s.push(c);
    assert_eq!(s.depth(), 3);
    assert_eq!(s.current(), Some(c));
    assert_eq!(s.pop(), Some(c));
    assert_eq!(s.pop(), Some(b));
    assert_eq!(s.depth(), 1);
    assert_eq!(s.pop(), Some(a));
    assert_eq!(s.depth(), 0);
    assert_eq!(s.current(), None);
    assert_eq!(s.pop(), None);
}

#[test]
fn lifo_interleaved() {
    let mut s = ActiveStack::new();
    let a = SpanId { num: 10 };
    let b = SpanId { num: 11 };
    s.push(a);
    let before: usize = s.depth();
    s.push(b);
    assert_eq!(s.pop(), Some(b));
    assert_eq!(s.depth(), before);
    assert_eq!(s.current(), Some(a));
    assert_eq!(s.pop(), Some(a));
    assert_eq!(s.current(), None);
}

#[test]
fn reentrant_entry_duplicates_stack_entry() {
    // Entering an already-entered span pushes a second entry; each exit
    // removes exactly one. This is the documented policy for reentrant
    // entry.
    let mut s = ActiveStack::new();
    let a = SpanId { num: 7 };
    s.push(a);
    s.push(a);
    assert_eq!(s.depth(), 2);
    assert_eq!(s.pop(), Some(a));
    assert_eq!(s.depth(), 1);
    assert_eq!(s.current(), Some(a));
    assert_eq!(s.pop(), Some(a));
    assert_eq!(s.depth(), 0);
}

#[test]
fn push_pop_record_events() {
    let mut s = ActiveStack::new();
    let a = SpanId { num: 5 };
    s.push(a);
    s.pop();
    assert_eq!(
        s.events().as_slice(),
        &[SpanEvent::Enter(a), SpanEvent::Exit(a)]
    );
}

#[test]
fn torn_down_stack_degrades_to_empty() {
    let mut s = ActiveStack::torn_down();
    let a = SpanId { num: 9 };
    s.push(a);
    assert_eq!(s.depth(), 0);
    assert_eq!(s.current(), None);
    assert_eq!(s.pop(), None);
    assert_eq!(s.events().len(), 0);
    let reg = Registry::new();
    let ctx = Context::new(&reg);
    assert_eq!(ctx.with_spans(&s).len(), 0);
    assert_eq!(ctx.with_current(&s), None);
}

#[test]
fn empty_stack_queries() {
    let mut reg = Registry::new();
    let _live = reg.register("root", String::new());
    let s = ActiveStack::new();
    let ctx = Context::new(&reg);
    assert_eq!(ctx.with_spans(&s).len(), 0);
    assert_eq!(ctx.with_current(&s), None);
}

#[test]
fn with_spans_visits_root_first_and_skips_evicted() {
    let mut reg = Registry::new();
    let a = reg.register("a", String::new());
    let b = reg.register("b", String::new());
    let c = reg.register("c", String::new());
    let mut s = ActiveStack::new();
    s.push(a);
    s.push(b);
    s.push(c);
    let ctx = Context::new(&reg);
    assert_eq!(ctx.with_spans(&s), vec![a, b, c]);
    assert_eq!(ctx.with_current(&s), Some(c));
    // Evict the middle span: it is skipped silently, order kept.
    let evicted = reg.drop_ref(b);
    assert!(evicted);
    let ctx = Context::new(&reg);
    assert_eq!(ctx.with_spans(&s), vec![a, c]);
    assert_eq!(ctx.with_current(&s), Some(c));
    // Evict the top span: with_current finds nothing.
    let evicted = reg.drop_ref(c);
    assert!(evicted);
    let ctx = Context::new(&reg);
    assert_eq!(ctx.with_spans(&s), vec![a]);
    assert_eq!(ctx.with_current(&s), None);
}
