use tracing_oslog::{
    contains_nul, is_meta_key, native_level, signature, AttributeMap, BridgeError, Level,
    NameInterner, NativeLevel, OsLogger, ParentActivity, SpanPlan,
};

fn attrs(pairs: &[(&str, &str)]) -> AttributeMap {
    let mut m = AttributeMap::new();
    for (k, v) in pairs {
        m.record(k.to_string(), v.to_string());
    }
    m
}

fn logger() -> OsLogger {
    OsLogger::new("com.example.app", "tests").unwrap()
}

/// Runs the span-created path and attaches `activity` as its handle.
fn create(l: &mut OsLogger, id: u64, parent: Option<u64>, name: &str, a: &[(&str, &str)], activity: u64) {
    let m = attrs(a);
    match l.prepare_span(id, parent, "app", name, &m).unwrap() {
        SpanPlan::Create { .. } => l.attach_activity(id, activity, name.to_string(), m).unwrap(),
        SpanPlan::Existing => panic!("span already had an activity"),
    }
}

fn entries(m: &AttributeMap) -> Vec<(String, String)> {
    (0..m.len()).map(|i| (m.key(i).clone(), m.value(i).clone())).collect()
}

#[test]
fn created_span_keeps_attributes_in_order() {
    let mut l = logger();
    create(&mut l, 1, None, "work", &[("zeta", "1"), ("alpha", "2"), ("log.target", "x")], 100);
    let node = l.node(1).unwrap();
    assert_eq!(node.activity, 100);
    assert_eq!(
        entries(&node.attributes),
        vec![
            ("zeta".to_string(), "1".to_string()),
            ("alpha".to_string(), "2".to_string()),
            ("log.target".to_string(), "x".to_string())
        ]
    );
}

#[test]
fn interning_twice_returns_same_id() {
    let mut n = NameInterner::new();
    let a = n.intern("app::work(n: 1)".to_string()).unwrap();
    let b = n.intern("app::work(n: 1)".to_string()).unwrap();
    assert!(a.fresh);
    assert!(!b.fresh);
    assert_eq!(a.id, b.id);
    assert_eq!(n.len(), 1);
    let c = n.intern("app::work(n: 2)".to_string()).unwrap();
    assert!(c.fresh);
    assert_ne!(a.id, c.id);
    assert_eq!(n.name(c.id), "app::work(n: 2)");
    assert_eq!(n.name(a.id), "app::work(n: 1)");
}

#[test]
fn interning_refuses_nul() {
    let mut n = NameInterner::new();
    assert!(n.intern("a\0b".to_string()).is_none());
    assert_eq!(n.len(), 0);
}

#[test]
fn nested_chain_renders_root_first() {
    let mut l = logger();
    create(&mut l, 1, None, "a", &[], 10);
    create(&mut l, 2, Some(1), "b", &[], 20);
    create(&mut l, 3, Some(2), "c", &[], 30);
    let ev = attrs(&[("message", "done"), ("code", "7")]);
    let (level, text) = l.on_event(Level::Info, &vec![1, 2, 3], &ev).unwrap();
    assert_eq!(level, NativeLevel::Info);
    assert_eq!(text, "a: b: c: done  code=7");
}

#[test]
fn span_segment_lists_attributes() {
    let mut l = logger();
    create(&mut l, 1, None, "login", &[("user", "alice")], 10);
    let (_, text) = l.on_event(Level::Debug, &vec![1], &AttributeMap::new()).unwrap();
    assert_eq!(text, "login{user=alice}: ");
}

#[test]
fn span_segment_joins_attributes_with_commas() {
    let mut s = String::new();
    tracing_oslog::push_segment(&mut s, "req", &attrs(&[("a", "1"), ("log.file", "f"), ("b", "2")]));
    assert_eq!(s, "req{a=1,b=2}: ");
}

#[test]
fn meta_fields_are_not_rendered() {
    let mut l = logger();
    create(&mut l, 1, None, "s", &[("log.module_path", "m"), ("log.line", "3")], 10);
    let ev = attrs(&[("log.target", "t"), ("message", "hi"), ("k", "v"), ("log.file", "f.rs")]);
    let (_, text) = l.on_event(Level::Warn, &vec![1], &ev).unwrap();
    assert_eq!(text, "s: hi  k=v");
    assert!(!text.contains("log."));
}

#[test]
fn event_without_message_or_span() {
    let l = logger();
    let ev = attrs(&[("a", "1"), ("b", "2")]);
    let (level, text) = l.on_event(Level::Error, &vec![], &ev).unwrap();
    assert_eq!(level, NativeLevel::Error);
    assert_eq!(text, "a=1 b=2");
    let (_, empty) = l.on_event(Level::Trace, &vec![], &AttributeMap::new()).unwrap();
    assert_eq!(empty, "");
}

#[test]
fn span_created_twice_is_noop() {
    let mut l = logger();
    let m = attrs(&[("n", "1")]);
    let plan = l.prepare_span(5, None, "app", "work", &m).unwrap();
    assert_eq!(plan, SpanPlan::Create { name: tracing_oslog::NameId { index: 0 }, fresh: true, parent: ParentActivity::Current });
    l.attach_activity(5, 50, "work".to_string(), m).unwrap();
    let again = l.prepare_span(5, None, "app", "work", &attrs(&[("n", "1")])).unwrap();
    assert_eq!(again, SpanPlan::Existing);
    assert_eq!(l.interner().len(), 1);
    assert_eq!(l.node(5).unwrap().activity, 50);
}

#[test]
fn same_signature_reuses_interned_name() {
    let mut l = logger();
    create(&mut l, 1, None, "work", &[("n", "1")], 10);
    let plan = l.prepare_span(2, Some(1), "app", "work", &attrs(&[("n", "1")])).unwrap();
    assert_eq!(
        plan,
        SpanPlan::Create { name: tracing_oslog::NameId { index: 0 }, fresh: false, parent: ParentActivity::Span(10) }
    );
    assert_eq!(l.interner().len(), 1);
    assert_eq!(l.interner().name(tracing_oslog::NameId { index: 0 }), "app::work(n: 1)");
}

#[test]
fn close_releases_once() {
    let mut l = logger();
    create(&mut l, 1, None, "work", &[], 77);
    assert_eq!(l.on_enter(1), Ok(77));
    assert_eq!(l.on_close(1), Ok(77));
    assert_eq!(l.on_close(1), Err(BridgeError::MissingActivity));
    assert!(l.node(1).is_none());
    assert_eq!(l.on_close(9), Err(BridgeError::MissingActivity));
}

#[test]
fn severity_mapping_table() {
    assert_eq!(native_level(Level::Trace), NativeLevel::Debug);
    assert_eq!(native_level(Level::Debug), NativeLevel::Debug);
    assert_eq!(native_level(Level::Info), NativeLevel::Info);
    assert_eq!(native_level(Level::Warn), NativeLevel::Error);
    assert_eq!(native_level(Level::Error), NativeLevel::Error);
}

#[test]
fn signature_format() {
    let s = signature("app::net", "request", &attrs(&[("method", "GET"), ("path", "/")]));
    assert_eq!(s, "app::net::request(method: GET, path: /)");
    assert_eq!(signature("app", "idle", &AttributeMap::new()), "app::idle()");
}

#[test]
fn record_replaces_in_place() {
    let mut m = attrs(&[("a", "1"), ("b", "2")]);
    m.record("a".to_string(), "3".to_string());
    assert_eq!(entries(&m), vec![("a".to_string(), "3".to_string()), ("b".to_string(), "2".to_string())]);
    assert_eq!(m.get(&"b".to_string()), Some(&"2".to_string()));
    assert_eq!(m.get(&"c".to_string()), None);
    assert!(!m.is_empty());
}

#[test]
fn text_helpers() {
    assert!(is_meta_key("log.target"));
    assert!(!is_meta_key("log"));
    assert!(!is_meta_key("logger"));
    assert!(contains_nul("a\0"));
    assert!(!contains_nul("abc"));
}

#[test]
fn nul_in_identifiers_is_refused() {
    assert_eq!(OsLogger::new("com.a\0", "c").err(), Some(BridgeError::NulInSubsystem));
    assert_eq!(OsLogger::new("com.a", "c\0").err(), Some(BridgeError::NulInCategory));
    let l = logger();
    assert_eq!(l.subsystem(), "com.example.app");
    assert_eq!(l.category(), "tests");
}

#[test]
fn nul_in_signature_is_refused() {
    let mut l = logger();
    let r = l.prepare_span(1, None, "app", "w", &attrs(&[("k", "a\0b")]));
    assert_eq!(r, Err(BridgeError::NulInSignature));
    assert_eq!(l.interner().len(), 0);
}

#[test]
fn nul_in_message_is_refused() {
    let l = logger();
    let r = l.on_event(Level::Info, &vec![], &attrs(&[("message", "x\0")]));
    assert_eq!(r, Err(BridgeError::NulInMessage));
}

#[test]
fn lifecycle_order_violations() {
    let mut l = logger();
    assert_eq!(l.prepare_span(2, Some(1), "app", "child", &AttributeMap::new()), Err(BridgeError::MissingActivity));
    assert_eq!(l.on_enter(3), Err(BridgeError::MissingActivity));
    assert_eq!(l.on_event(Level::Info, &vec![3], &AttributeMap::new()), Err(BridgeError::MissingActivity));
    create(&mut l, 1, None, "w", &[], 1);
    assert_eq!(l.attach_activity(1, 2, "w".to_string(), AttributeMap::new()), Err(BridgeError::DuplicateActivity));
    assert_eq!(l.node(1).unwrap().activity, 1);
}
