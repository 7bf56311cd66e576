use reflection::trace::{Trace, TraceField, TraceVariant};
use reflection::trace_tree::TraceTree;

fn field_names<M>(t: &Trace<M>) -> Vec<String> {
    t.fields().iter().map(|(n, _)| n.clone()).collect()
}

#[test]
fn span_starts_open_and_empty() {
    let t = Trace::span("callsite", Some(3));
    assert_eq!(*t.meta(), "callsite");
    assert_eq!(t.parent(), Some(3));
    assert!(t.is_open());
    assert!(t.children().is_empty());
    assert!(t.fields().is_empty());
    assert!(matches!(t.variant(), TraceVariant::Span { entered: None, exited: None, .. }));
    assert_eq!(t.duration(), std::time::Duration::default());
}

#[test]
fn event_has_no_children() {
    let t = Trace::event(7u32, None);
    assert_eq!(t.parent(), None);
    assert!(matches!(t.variant(), TraceVariant::Event { .. }));
    let _ = t.occurred();
}

#[test]
fn record_replaces_or_inserts_by_name() {
    let mut t = Trace::span((), None);
    t.record("a", TraceField::U64(1));
    t.record("b", TraceField::Bool(true));
    t.record("a", TraceField::I64(-2));
    assert_eq!(field_names(&t), vec!["a".to_string(), "b".to_string()]);
    assert!(matches!(t.fields()[0].1, TraceField::I64(-2)));
    assert!(matches!(t.fields()[1].1, TraceField::Bool(true)));
}

#[test]
fn children_and_lifecycle() {
    let mut t = Trace::span((), None);
    assert!(t.insert_child(4));
    assert!(!t.insert_child(4));
    assert!(t.insert_child(2));
    assert_eq!(t.children().iter().copied().collect::<Vec<_>>(), vec![2, 4]);
    assert!(t.remove_child(&4));
    assert!(!t.remove_child(&4));
    t.enter();
    t.exit();
    assert!(matches!(t.variant(), TraceVariant::Span { entered: Some(_), exited: Some(_), .. }));
    let _ = t.duration();
    t.close();
    assert!(!t.is_open());
    t.record("x", TraceField::Str("y".to_string()));
    t.clear();
    assert!(t.fields().is_empty());
    assert!(t.children().is_empty());
    assert!(!t.is_open());
}

#[test]
fn variant_mut_changes_only_variant() {
    let mut t = Trace::span(1u8, Some(0));
    if let TraceVariant::Span { open, .. } = t.variant_mut() {
        *open = false;
    }
    assert!(!t.is_open());
    assert_eq!(t.parent(), Some(0));
}

#[test]
fn trace_ids_are_given_out_in_order() {
    let mut tree: TraceTree<()> = TraceTree::default();
    assert_eq!(tree.next_trace_id(Some(100)), 0);
    assert_eq!(tree.next_trace_id(None), 1);
    assert_eq!(tree.span_to_trace_id(&100), 0);
}

#[test]
fn spans_and_events_form_a_tree() {
    let mut tree: TraceTree<&'static str> = TraceTree::new();
    let root = tree.new_span(10, None, "root");
    let child = tree.new_span(11, Some(10), "child");
    let event = tree.on_event(Some(11), "event", vec![("message".to_string(), TraceField::Str("hi".to_string()))]);
    assert_eq!((root, child, event), (0, 1, 2));
    let traces = tree.traces();
    assert_eq!(traces[&0].children().iter().copied().collect::<Vec<_>>(), vec![1]);
    assert_eq!(traces[&1].children().iter().copied().collect::<Vec<_>>(), vec![2]);
    assert_eq!(traces[&1].parent(), Some(0));
    assert_eq!(traces[&2].parent(), Some(1));
    assert_eq!(field_names(&traces[&2]), vec!["message".to_string()]);

    tree.on_record(&10, vec![("n".to_string(), TraceField::U64(1)), ("n".to_string(), TraceField::U64(2))]);
    let root_trace = &tree.traces()[&0];
    assert_eq!(root_trace.fields().len(), 1);
    assert!(matches!(root_trace.fields()[0].1, TraceField::U64(2)));

    tree.on_enter(&11);
    tree.on_exit(&11);
    assert!(matches!(tree.traces()[&1].variant(), TraceVariant::Span { entered: Some(_), exited: Some(_), .. }));
}

#[test]
fn prune_removes_closed_spans_and_their_events() {
    let mut tree: TraceTree<u32> = TraceTree::new();
    tree.new_span(10, None, 0);
    tree.new_span(11, Some(10), 1);
    tree.on_event(Some(11), 2, vec![]);
    tree.new_span(12, Some(10), 3);
    tree.on_close(&11);
    tree.prune_closed();
    let traces = tree.traces();
    assert_eq!(traces.keys().copied().collect::<Vec<_>>(), vec![0, 3]);
    assert_eq!(traces[&0].children().iter().copied().collect::<Vec<_>>(), vec![3]);

    tree.on_close(&12);
    tree.on_close(&10);
    tree.prune_closed();
    assert!(tree.traces().is_empty());
}

#[test]
fn prune_keeps_open_spans() {
    let mut tree: TraceTree<()> = TraceTree::new();
    tree.new_span(1, None, ());
    tree.on_event(None, (), vec![]);
    tree.prune_closed();
    assert_eq!(tree.traces().len(), 2);
    assert!(tree.traces()[&0].is_open());
}

#[test]
fn checks_before_tree_calls() {
    let mut tree: TraceTree<()> = TraceTree::new();
    assert!(tree.can_add_span(5, None));
    assert!(tree.can_add_span(5, Some(5)));
    assert!(!tree.can_add_span(5, Some(6)));
    assert!(tree.can_add_event(None));
    assert!(!tree.can_add_event(Some(5)));
    tree.new_span(5, None, ());
    assert_eq!(tree.trace_id_of(&5), Some(0));
    assert_eq!(tree.trace_id_of(&6), None);
    assert!(tree.can_add_span(6, Some(5)));
    assert!(tree.can_add_event(Some(5)));
    assert!(tree.has_trace(&5));
    assert!(tree.has_span(&5));
    assert!(!tree.has_span(&6));
    tree.on_event(Some(5), (), vec![]);
    tree.on_close(&5);
    tree.prune_closed();
    assert!(!tree.has_trace(&5));
    assert_eq!(tree.trace_id_of(&5), None);
}

#[test]
fn links_stay_consistent() {
    let mut tree: TraceTree<u8> = TraceTree::new();
    tree.new_span(1, None, 0);
    tree.new_span(2, Some(1), 1);
    tree.new_span(3, Some(2), 2);
    tree.on_event(Some(3), 3, vec![]);
    tree.on_event(Some(1), 4, vec![]);
    tree.on_close(&3);
    tree.on_close(&2);
    tree.prune_closed();
    let traces = tree.traces();
    for (id, t) in traces.iter() {
        if let Some(p) = t.parent() {
            assert!(traces[&p].children().contains(id));
        }
        if let TraceVariant::Span { children, .. } = t.variant() {
            for c in children {
                assert_eq!(traces[c].parent(), Some(*id));
            }
        }
    }
    assert_eq!(traces.keys().copied().collect::<Vec<_>>(), vec![0, 4]);
}

#[test]
fn recording_twice_keeps_the_last_value() {
    let mut t = Trace::event((), None);
    t.record("k", TraceField::U64(1));
    t.record("k", TraceField::U64(2));
    assert_eq!(t.fields().len(), 1);
    assert!(matches!(t.fields()[0].1, TraceField::U64(2)));
}

#[test]
fn prunable_trees_are_pruned_and_others_left() {
    let mut tree: TraceTree<()> = TraceTree::new();
    tree.new_span(1, None, ());
    tree.new_span(2, Some(1), ());
    assert!(tree.is_prunable());
    tree.on_close(&1);
    assert!(!tree.is_prunable());
    assert!(!tree.try_prune_closed());
    assert_eq!(tree.traces().len(), 2);
    tree.on_close(&2);
    assert!(tree.is_prunable());
    assert!(tree.try_prune_closed());
    assert!(tree.traces().is_empty());

    let mut reused: TraceTree<()> = TraceTree::new();
    reused.new_span(7, None, ());
    reused.on_close(&7);
    reused.new_span(7, None, ());
    assert!(!reused.is_prunable());
    assert!(!reused.try_prune_closed());
    assert_eq!(reused.traces().len(), 2);
}

#[test]
fn duration_runs_from_entry_to_exit() {
    let mut t = Trace::span((), None);
    assert_eq!(t.duration(), std::time::Duration::ZERO);
    t.enter();
    t.exit();
    match t.variant() {
        TraceVariant::Span { entered: Some(a), exited: Some(b), .. } => {
            assert_eq!(t.duration(), b.duration_since(*a));
        }
        _ => panic!("span lost its instants"),
    }
}

#[test]
fn second_prune_changes_nothing() {
    let mut tree: TraceTree<u32> = TraceTree::new();
    tree.new_span(10, None, 0);
    tree.new_span(11, Some(10), 1);
    tree.on_event(Some(11), 2, vec![]);
    tree.on_event(Some(10), 3, vec![]);
    tree.on_close(&11);
    tree.prune_closed();
    let first: Vec<usize> = tree.traces().keys().copied().collect();
    assert_eq!(first, vec![0, 3]);
    tree.prune_closed();
    let second: Vec<usize> = tree.traces().keys().copied().collect();
    assert_eq!(first, second);
    assert_eq!(tree.trace_id_of(&10), Some(0));
}

#[test]
fn prune_drops_span_ids_of_closed_spans_only() {
    let mut tree: TraceTree<()> = TraceTree::new();
    tree.new_span(10, None, ());
    tree.new_span(11, Some(10), ());
    tree.new_span(12, Some(10), ());
    tree.on_close(&11);
    tree.prune_closed();
    assert_eq!(tree.trace_id_of(&11), None);
    assert_eq!(tree.trace_id_of(&10), Some(0));
    assert_eq!(tree.trace_id_of(&12), Some(2));
    assert_eq!(tree.traces()[&0].children().iter().copied().collect::<Vec<_>>(), vec![2]);
}

#[test]
fn fields_stay_ordered_by_name() {
    let mut t = Trace::span((), None);
    t.record("message", TraceField::Str("hi".to_string()));
    t.record("count", TraceField::U64(3));
    t.record("zeta", TraceField::Bool(false));
    t.record("alpha", TraceField::I64(-1));
    t.record("count", TraceField::U64(4));
    assert_eq!(field_names(&t), vec!["alpha", "count", "message", "zeta"]);
    assert!(matches!(t.fields()[1].1, TraceField::U64(4)));
}
