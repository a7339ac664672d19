use span_context::registry::{Registry, SpanHandle};
use span_context::span::Data;
use span_context::record::format_field;

#[test]
fn data_new_name_fields() {
    let d = Data::new("request", String::from("id=4"));
    assert_eq!(d.name(), "request");
    assert_eq!(d.fields(), "id=4");
}

#[test]
fn data_ref_counting() {
    let mut d = Data::new("request", String::new());
    d.clone_ref();
    d.clone_ref();
    assert!(!d.drop_ref());
    assert!(!d.drop_ref());
    assert!(d.drop_ref());
}

#[test]
fn data_write_str_appends() {
    let mut d = Data::new("request", String::from("a=1"));
    d.write_str(" b=2");
    assert_eq!(d.fields(), "a=1 b=2");
    assert_eq!(d.name(), "request");
}

#[test]
fn format_field_message_is_bare() {
    assert_eq!(format_field("message", "hello"), " hello");
    assert_eq!(format_field("size", "3"), " size=3");
}

#[test]
fn refcount_exactness() {
    // N clones followed by N drops: the entry is removed exactly once,
    // on the final drop, never before.
    let mut reg = Registry::new();
    let h = SpanHandle::acquire(&mut reg, "foo", String::new());
    let id = h.id();
    let n: usize = 4;
    let mut clones = Vec::new();
    for _ in 0..n {
        clones.push(h.clone_handle(&mut reg));
    }
    for c in clones {
        let evicted = c.drop_handle(&mut reg);
        assert!(!evicted);
        assert!(reg.contains(id));
    }
    let evicted = h.drop_handle(&mut reg);
    assert!(evicted);
    assert!(!reg.contains(id));
}

#[test]
fn eviction_does_not_affect_aliases() {
    // Dropping one clone while another is outstanding must not remove
    // the registry entry.
    let mut reg = Registry::new();
    let h = SpanHandle::acquire(&mut reg, "foo", String::new());
    let id = h.id();
    let alias = h.clone_handle(&mut reg);
    assert!(!h.drop_handle(&mut reg));
    assert!(reg.contains(id));
    let d = reg.get(id).unwrap();
    assert_eq!(d.name(), "foo");
    assert!(alias.drop_handle(&mut reg));
    assert!(!reg.contains(id));
}

#[test]
fn register_allocates_fresh_ids() {
    let mut reg = Registry::new();
    let a = reg.register("a", String::new());
    let b = reg.register("b", String::new());
    assert_ne!(a, b);
    assert_eq!(reg.get(a).unwrap().name(), "a");
    assert_eq!(reg.get(b).unwrap().name(), "b");
    assert!(reg.drop_ref(a));
    let c = reg.register("c", String::new());
    // An evicted identifier is never reused while the registry lives.
    assert_ne!(c, a);
    assert!(!reg.contains(a));
}
