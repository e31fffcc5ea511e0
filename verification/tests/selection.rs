use rusty_editor::handle::NodeHandle;
use rusty_editor::scene::selection::GraphSelection;

fn h(i: u32) -> NodeHandle {
    NodeHandle::new(i, 1)
}

#[test]
fn none_handle() {
    let n = NodeHandle::none();
    assert!(n.is_none());
    assert!(!n.is_some());
    assert!(NodeHandle::new(0, 1).is_some());
    assert!(NodeHandle::new(3, 0).is_some());
    assert_eq!(n, NodeHandle::new(0, 0));
}

#[test]
fn single_or_empty() {
    assert_eq!(GraphSelection::single_or_empty(h(5)).nodes(), &vec![h(5)]);
    assert!(GraphSelection::single_or_empty(NodeHandle::none()).is_empty());
}

#[test]
fn insert_or_exclude_toggles() {
    let mut s = GraphSelection::from_nodes(vec![h(1), h(2), h(3)]);
    s.insert_or_exclude(h(2));
    assert_eq!(s.nodes(), &vec![h(1), h(3)]);
    assert!(!s.contains(h(2)));
    s.insert_or_exclude(h(2));
    assert_eq!(s.nodes(), &vec![h(1), h(3), h(2)]);
    assert!(s.contains(h(2)));
}

#[test]
fn toggle_twice_restores_unselected_node() {
    let before = vec![h(1), h(3)];
    let mut s = GraphSelection::from_nodes(before.clone());
    s.insert_or_exclude(h(7));
    s.insert_or_exclude(h(7));
    assert_eq!(s.nodes(), &before);
}

#[test]
fn toggle_removes_first_of_repeated_node() {
    let mut s = GraphSelection::from_nodes(vec![h(4), h(1), h(4)]);
    s.insert_or_exclude(h(4));
    assert_eq!(s.nodes(), &vec![h(1), h(4)]);
    assert!(s.contains(h(4)));
}

#[test]
fn matches_ignores_order_and_checks_inclusion() {
    let ab = GraphSelection::from_nodes(vec![h(1), h(2)]);
    let ba = GraphSelection::from_nodes(vec![h(2), h(1)]);
    let a = GraphSelection::from_nodes(vec![h(1)]);
    let empty = GraphSelection::new();
    assert!(ab.matches(&ba));
    assert!(a.matches(&ab));
    assert!(!ab.matches(&a));
    assert!(!empty.matches(&a));
    assert!(empty.matches(&empty));
    assert!(!a.matches(&empty));
}

#[test]
fn copied_selection_is_equal() {
    let s = GraphSelection::from_nodes(vec![h(3), h(1)]);
    let c = s.copied();
    assert_eq!(c.nodes(), s.nodes());
    assert_eq!(c.len(), 2);
}
