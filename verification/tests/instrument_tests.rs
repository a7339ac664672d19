use span_context::adapters::{IterStream, PollN, VecSink};
use span_context::dispatch::Dispatch;
use span_context::instrument::Instrument;
use span_context::registry::{Registry, SpanHandle};
use span_context::resume::{Future, Sink, Step, Stream, ThreadState};
use span_context::stack::SpanEvent;
use span_context::with_dispatch::WithSubscriber;

#[test]
fn future_enter_exit_is_reasonable() {
    let mut reg = Registry::new();
    let mut t = ThreadState::new();
    let h = SpanHandle::acquire(&mut reg, "foo", String::new());
    let foo = h.id();
    let mut w = PollN::new_ok(2).instrument(h);
    let mut r = w.poll(&mut t);
    while matches!(r, Step::NotReady) {
        r = w.poll(&mut t);
    }
    assert_eq!(r, Step::Ready(()));
    assert_eq!(
        t.spans.events().as_slice(),
        &[
            SpanEvent::Enter(foo),
            SpanEvent::Exit(foo),
            SpanEvent::Enter(foo),
            SpanEvent::Exit(foo),
        ]
    );
    assert_eq!(t.spans.depth(), 0);
    // Completion drops the wrapper, releasing its span.
    w.into_inner(&mut reg);
    assert!(!reg.contains(foo));
}

#[test]
fn future_error_ends_span() {
    let mut reg = Registry::new();
    let mut t = ThreadState::new();
    let h = SpanHandle::acquire(&mut reg, "foo", String::new());
    let foo = h.id();
    let mut w = PollN::new_err(2).instrument(h);
    let mut r = w.poll(&mut t);
    while matches!(r, Step::NotReady) {
        r = w.poll(&mut t);
    }
    assert_eq!(r, Step::Failed(()));
    assert_eq!(
        t.spans.events().as_slice(),
        &[
            SpanEvent::Enter(foo),
            SpanEvent::Exit(foo),
            SpanEvent::Enter(foo),
            SpanEvent::Exit(foo),
        ]
    );
    assert_eq!(t.spans.depth(), 0);
    w.into_inner(&mut reg);
    assert!(!reg.contains(foo));
}

#[test]
fn stream_enter_exit_is_reasonable() {
    let mut reg = Registry::new();
    let mut t = ThreadState::new();
    let h = SpanHandle::acquire(&mut reg, "foo", String::new());
    let foo = h.id();
    let mut w = IterStream::from_items(vec![1, 2, 3]).instrument(h);
    let mut seen = Vec::new();
    loop {
        match w.poll(&mut t) {
            Step::Ready(Some(item)) => seen.push(item),
            Step::Ready(None) => break,
            Step::NotReady => panic!("the stream never blocks"),
            Step::Failed(()) => panic!("the stream never fails"),
        }
    }
    assert_eq!(seen, vec![1, 2, 3]);
    // Four polls (three items and the exhaustion report), four matched
    // enter/exit pairs.
    let expected: Vec<SpanEvent> = (0..4)
        .flat_map(|_| [SpanEvent::Enter(foo), SpanEvent::Exit(foo)])
        .collect();
    assert_eq!(t.spans.events().as_slice(), expected.as_slice());
    w.into_inner(&mut reg);
    assert!(!reg.contains(foo));
}

#[test]
fn sink_brackets_every_send() {
    let mut reg = Registry::new();
    let mut t = ThreadState::new();
    let h = SpanHandle::acquire(&mut reg, "foo", String::new());
    let foo = h.id();
    let mut w = VecSink::new().instrument(h);
    assert!(matches!(w.start_send(&mut t, 1), span_context::resume::SendOutcome::Accepted));
    assert!(matches!(w.start_send(&mut t, 2), span_context::resume::SendOutcome::Accepted));
    assert_eq!(w.poll_complete(&mut t), Step::Ready(()));
    let expected: Vec<SpanEvent> = (0..3)
        .flat_map(|_| [SpanEvent::Enter(foo), SpanEvent::Exit(foo)])
        .collect();
    assert_eq!(t.spans.events().as_slice(), expected.as_slice());
    let sink = w.into_inner(&mut reg);
    assert_eq!(sink.items().as_slice(), &[1, 2]);
}

#[test]
fn span_follows_future_onto_threadpool() {
    let mut reg = Registry::new();
    // The thread that creates the computation, with span "a" entered.
    let mut t1 = ThreadState::new();
    // The worker thread that resumes it.
    let mut t2 = ThreadState::new();
    let ha = SpanHandle::acquire(&mut reg, "a", String::new());
    let a = ha.id();
    t1.spans.push(a);
    let hb = SpanHandle::acquire(&mut reg, "b", String::new());
    let b = hb.id();
    let mut w = PollN::new_ok(2).instrument(hb);
    // The computation suspends once and both resumes happen on the
    // worker thread: it re-enters exactly "b" there, not "a", which
    // belongs to the original thread.
    assert_eq!(w.poll(&mut t2), Step::NotReady);
    assert_eq!(w.poll(&mut t2), Step::Ready(()));
    w.into_inner(&mut reg);
    assert!(!reg.contains(b));
    // Unrelated code entering "c" after completion, on the worker
    // thread, stays outside a's window.
    let hc = SpanHandle::acquire(&mut reg, "c", String::new());
    let c = hc.id();
    t2.spans.push(c);
    t2.spans.pop();
    hc.drop_handle(&mut reg);
    t1.spans.pop();
    ha.drop_handle(&mut reg);
    assert!(!reg.contains(a));
    assert_eq!(
        t1.spans.events().as_slice(),
        &[SpanEvent::Enter(a), SpanEvent::Exit(a)]
    );
    assert_eq!(
        t2.spans.events().as_slice(),
        &[
            SpanEvent::Enter(b),
            SpanEvent::Exit(b),
            SpanEvent::Enter(b),
            SpanEvent::Exit(b),
            SpanEvent::Enter(c),
            SpanEvent::Exit(c),
        ]
    );
}

#[test]
fn with_dispatch_installs_and_restores() {
    let mut reg = Registry::new();
    let mut t = ThreadState::new();
    let ambient = Dispatch { num: 1 };
    t.dispatch.current = Some(ambient);
    let own = Dispatch { num: 2 };
    let mut w = PollN::new_ok(1).with_subscriber(own);
    assert_eq!(*w.dispatch(), own);
    assert_eq!(w.poll(&mut t), Step::Ready(()));
    // The ambient dispatcher is restored after the resume.
    assert_eq!(t.dispatch.current, Some(ambient));
    let other = w.with_dispatch(PollN::new_ok(1));
    assert_eq!(*other.dispatch(), own);
    let _ = w.into_inner();
    let _ = reg.register("unused", String::new());
}

#[test]
fn instrumented_accessors() {
    let mut reg = Registry::new();
    let h = SpanHandle::acquire(&mut reg, "foo", String::from("k=v"));
    let foo = h.id();
    let w = PollN::new_ok(1).instrument(h);
    assert_eq!(w.span().id(), foo);
    assert_eq!(reg.get(foo).unwrap().fields(), "k=v");
    w.into_inner(&mut reg);
    assert!(!reg.contains(foo));
}

#[test]
fn nested_scenario_trace() {
    // Enter "a"; inside it, resume a computation instrumented with "b"
    // exactly twice (first not-ready, then ready); drop "b"; code
    // entering "c" afterward runs on another thread and must not appear
    // inside a's enter/exit window; finally exit "a", drop "a".
    let mut reg = Registry::new();
    let mut t1 = ThreadState::new();
    let mut t2 = ThreadState::new();
    let ha = SpanHandle::acquire(&mut reg, "a", String::new());
    let a = ha.id();
    t1.spans.push(a);
    let hb = SpanHandle::acquire(&mut reg, "b", String::new());
    let b = hb.id();
    let mut w = PollN::new_ok(2).instrument(hb);
    assert_eq!(w.poll(&mut t1), Step::NotReady);
    assert_eq!(w.poll(&mut t1), Step::Ready(()));
    w.into_inner(&mut reg);
    assert!(!reg.contains(b));
    let hc = SpanHandle::acquire(&mut reg, "c", String::new());
    let c = hc.id();
    t2.spans.push(c);
    t2.spans.pop();
    hc.drop_handle(&mut reg);
    t1.spans.pop();
    ha.drop_handle(&mut reg);
    assert!(!reg.contains(a));
    assert_eq!(
        t1.spans.events().as_slice(),
        &[
            SpanEvent::Enter(a),
            SpanEvent::Enter(b),
            SpanEvent::Exit(b),
            SpanEvent::Enter(b),
            SpanEvent::Exit(b),
            SpanEvent::Exit(a),
        ]
    );
    assert_eq!(
        t2.spans.events().as_slice(),
        &[SpanEvent::Enter(c), SpanEvent::Exit(c)]
    );
}

#[test]
fn nested_instrumentation_nests_spans() {
    // A wrapper inside a wrapper: the inner span's enter/exit pair sits
    // strictly inside the outer one on every resume.
    let mut reg = Registry::new();
    let mut t = ThreadState::new();
    let houter = SpanHandle::acquire(&mut reg, "outer", String::new());
    let outer = houter.id();
    let hinner = SpanHandle::acquire(&mut reg, "inner", String::new());
    let inner = hinner.id();
    let mut w = PollN::new_ok(1).instrument(hinner).instrument(houter);
    assert_eq!(w.poll(&mut t), Step::Ready(()));
    assert_eq!(
        t.spans.events().as_slice(),
        &[
            SpanEvent::Enter(outer),
            SpanEvent::Enter(inner),
            SpanEvent::Exit(inner),
            SpanEvent::Exit(outer),
        ]
    );
    assert_eq!(t.spans.depth(), 0);
    let inner_wrapper = w.into_inner(&mut reg);
    assert!(!reg.contains(outer));
    inner_wrapper.into_inner(&mut reg);
    assert!(!reg.contains(inner));
}

#[test]
fn torn_down_thread_still_returns_outcome() {
    // During teardown the stack degrades to a no-op: the resume still
    // runs and reports its outcome, and nothing is recorded.
    let mut reg = Registry::new();
    let mut t = ThreadState::new();
    t.spans = span_context::stack::ActiveStack::torn_down();
    let h = SpanHandle::acquire(&mut reg, "foo", String::new());
    let foo = h.id();
    let mut w = PollN::new_ok(1).instrument(h);
    assert_eq!(w.poll(&mut t), Step::Ready(()));
    assert_eq!(t.spans.events().len(), 0);
    assert_eq!(t.spans.depth(), 0);
    w.into_inner(&mut reg);
    assert!(!reg.contains(foo));
}
