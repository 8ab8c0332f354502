use void_reckoning::clock::{timestamp_from, unix_time_micros};
use void_reckoning::observability::{CausalGraph, CorrelationContext, Event, EventLog, EventSeverity};
use void_reckoning::text::{decimal_string, fixed_decimal_string, join_texts, same_text, signed_decimal_string};

fn event(message: &str, context: CorrelationContext) -> Event {
    Event::new(EventSeverity::Debug, "Test".to_string(), message.to_string(), context, None)
}

#[test]
fn child_contexts_keep_the_trace_and_name_their_parent() {
    let root = CorrelationContext::new();
    let child = root.child();
    let grandchild = child.child();
    assert_eq!(child.trace_id, root.trace_id);
    assert_eq!(grandchild.trace_id, root.trace_id);
    assert_eq!(child.parent_id, Some(root.span_id.clone()));
    assert_eq!(grandchild.parent_id, Some(child.span_id.clone()));
    assert_ne!(child.span_id, root.span_id);
    assert_ne!(CorrelationContext::new().trace_id, root.trace_id);
    let copy = grandchild.clone();
    assert_eq!(copy.span_id, grandchild.span_id);
    assert_eq!(copy.parent_id, grandchild.parent_id);
}

#[test]
fn events_keep_what_they_are_given() {
    let context = CorrelationContext::new();
    let span = context.span_id.clone();
    let e = Event::new(
        EventSeverity::Critical,
        "Cat".to_string(),
        "msg".to_string(),
        context,
        Some("payload".to_string()),
    );
    assert_eq!(e.severity, EventSeverity::Critical);
    assert_eq!(e.category, "Cat");
    assert_eq!(e.message, "msg");
    assert_eq!(e.context.span_id, span);
    assert_eq!(e.data, Some("payload".to_string()));
    assert!(e.timestamp > 1_600_000_000_000_000);
    let copy = e.clone();
    assert_eq!(copy.timestamp, e.timestamp);
    assert_eq!(copy.message, e.message);
    assert_eq!(copy.data, e.data);
}

#[test]
fn log_is_shared_between_its_clones() {
    let log = EventLog::new();
    let other = log.clone();
    log.add(event("one", CorrelationContext::new()));
    other.add(event("two", CorrelationContext::new()));
    let seen: Vec<String> = log.get_all().into_iter().map(|e| e.message).collect();
    assert_eq!(seen, vec!["one", "two"]);
    other.clear();
    assert!(log.get_all().is_empty());
}

#[test]
fn causal_chain_runs_from_root_to_event() {
    let root = CorrelationContext::new();
    let mid = root.child();
    let leaf = mid.child();
    let orphan = CorrelationContext::new().child();
    let mut graph = CausalGraph::new();
    assert_eq!(graph.size(), 0);
    graph.add_event(event("leaf", leaf.clone()));
    graph.add_event(event("root", root.clone()));
    graph.add_event(event("mid", mid.clone()));
    graph.add_event(event("orphan", orphan.clone()));
    assert_eq!(graph.size(), 4);
    let chain: Vec<String> =
        graph.get_causal_chain(leaf.span_id.clone()).into_iter().map(|e| e.message).collect();
    assert_eq!(chain, vec!["root", "mid", "leaf"]);
    let chain: Vec<String> =
        graph.get_causal_chain(orphan.span_id.clone()).into_iter().map(|e| e.message).collect();
    assert_eq!(chain, vec!["orphan"]);
    assert!(graph.get_causal_chain("nowhere".to_string()).is_empty());
    assert_eq!(graph.parent_map.get(leaf.span_id.as_str()), Some(&mid.span_id));
    assert_eq!(graph.children_map.get(root.span_id.as_str()), Some(&vec![mid.span_id.clone()]));
}

#[test]
fn consequences_are_found_breadth_first() {
    let root = CorrelationContext::new();
    let a = root.child();
    let b = root.child();
    let a1 = a.child();
    let b1 = b.child();
    let a2 = a.child();
    let unseen = b.child();
    let below_unseen = unseen.child();
    let mut graph = CausalGraph::new();
    for (name, context) in [
        ("root", &root),
        ("a", &a),
        ("b", &b),
        ("a1", &a1),
        ("b1", &b1),
        ("a2", &a2),
        ("below", &below_unseen),
    ] {
        graph.add_event(event(name, context.clone()));
    }
    let found: Vec<String> =
        graph.get_consequences(root.span_id.clone()).into_iter().map(|e| e.message).collect();
    assert_eq!(found, vec!["a", "b", "a1", "a2", "b1"]);
    let found: Vec<String> =
        graph.get_consequences(a.span_id.clone()).into_iter().map(|e| e.message).collect();
    assert_eq!(found, vec!["a1", "a2"]);
    assert!(graph.get_consequences(a1.span_id.clone()).is_empty());
    assert!(graph.get_consequences("nowhere".to_string()).is_empty());
}

#[test]
fn cyclic_links_do_not_hang_the_walks() {
    let mut graph = CausalGraph::new();
    let first = CorrelationContext {
        trace_id: "t".to_string(),
        span_id: "x".to_string(),
        parent_id: Some("y".to_string()),
    };
    let second = CorrelationContext {
        trace_id: "t".to_string(),
        span_id: "y".to_string(),
        parent_id: Some("x".to_string()),
    };
    graph.add_event(event("x", first));
    graph.add_event(event("y", second));
    let chain: Vec<String> =
        graph.get_causal_chain("x".to_string()).into_iter().map(|e| e.message).collect();
    assert_eq!(chain, vec!["y", "x"]);
    let found: Vec<String> =
        graph.get_consequences("x".to_string()).into_iter().map(|e| e.message).collect();
    assert_eq!(found, vec!["y", "x", "y"]);
}

#[test]
fn numbers_are_written_in_decimal() {
    assert_eq!(decimal_string(0), "0");
    assert_eq!(decimal_string(7), "7");
    assert_eq!(decimal_string(1_234_567_890), "1234567890");
    assert_eq!(decimal_string(u128::MAX), "340282366920938463463374607431768211455");
    assert_eq!(signed_decimal_string(-42), "-42");
    assert_eq!(signed_decimal_string(42), "42");
    assert_eq!(signed_decimal_string(i128::MIN), "-170141183460469231731687303715884105728");
    assert_eq!(fixed_decimal_string(0), "0");
    assert_eq!(fixed_decimal_string(5_000_000), "5");
    assert_eq!(fixed_decimal_string(-5_000_000), "-5");
    assert_eq!(fixed_decimal_string(10_500_000), "10.5");
    assert_eq!(fixed_decimal_string(-250_000), "-0.25");
    assert_eq!(fixed_decimal_string(1), "0.000001");
    assert_eq!(fixed_decimal_string(1_000_010), "1.00001");
    assert_eq!(fixed_decimal_string(123_456_789), "123.456789");
    assert_eq!(join_texts(&vec!["a".to_string(), "b".to_string(), "c".to_string()], ", "), "a, b, c");
    assert_eq!(join_texts(&vec!["a".to_string()], ", "), "a");
    assert_eq!(join_texts(&Vec::new(), ", "), "");
    assert!(same_text("abc", "abc"));
    assert!(!same_text("abc", "abd"));
}

#[test]
fn clock_readings_become_timestamps() {
    assert_eq!(timestamp_from(None), 0);
    assert_eq!(timestamp_from(Some(0)), 0);
    assert_eq!(timestamp_from(Some(1_700_000_000_000_000)), 1_700_000_000_000_000);
    assert_eq!(timestamp_from(Some(u64::MAX as u128)), u64::MAX);
    assert_eq!(timestamp_from(Some(u64::MAX as u128 + 1)), u64::MAX);
    assert_eq!(timestamp_from(Some(u128::MAX)), u64::MAX);
    let first = unix_time_micros();
    assert!(first > 1_600_000_000_000_000);
    assert!(first < u64::MAX);
}
