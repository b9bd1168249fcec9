use flemish::diff::{patch_node, Op};
use flemish::id::{next_id, reset_id, IdAssigner};
use flemish::vdom::VirtualDom;
use flemish::vnode::{assign_ids_topdown, Node, VNodeType, Value};
use std::cell::RefCell;
use std::rc::Rc;

fn numbered(mut n: Node) -> Node {
    let mut ids = IdAssigner::new();
    assign_ids_topdown(&mut n, &mut ids);
    n
}

fn preorder_ids(n: &Node, out: &mut Vec<usize>) {
    out.push(n.node_id);
    for c in &n.children {
        preorder_ids(c, out);
    }
}

fn column_of(kinds: &[VNodeType]) -> Node {
    Node::new(VNodeType::Column, kinds.iter().map(|k| Node::leaf(*k)).collect())
}

fn sample() -> Node {
    Node::new(
        VNodeType::Column,
        vec![
            Node::leaf(VNodeType::Button).label("inc"),
            Node::new(VNodeType::Row, vec![Node::leaf(VNodeType::Frame).fixed(30), Node::leaf(VNodeType::Input)]),
            Node::leaf(VNodeType::CheckButton).value(Value::Flag(true)),
        ],
    )
}

fn diff(old: &Node, new: Node) -> (Vec<Op>, Node) {
    let mut new = new;
    let mut ops = Vec::new();
    patch_node(old, &mut new, None, &mut ops);
    (ops, new)
}

#[test]
fn next_id_counts_up_and_reset_restarts() {
    let mut ids = IdAssigner::new();
    assert_eq!(next_id(&mut ids), 1);
    assert_eq!(next_id(&mut ids), 2);
    assert_eq!(next_id(&mut ids), 3);
    reset_id(&mut ids);
    assert_eq!(next_id(&mut ids), 1);
}

#[test]
fn ids_are_depth_first_and_distinct() {
    let t = numbered(sample());
    let mut ids = Vec::new();
    preorder_ids(&t, &mut ids);
    assert_eq!(ids, vec![1, 2, 3, 4, 5, 6]);
    assert_eq!(t.children[1].node_id, 3);
    assert_eq!(t.children[1].children[1].node_id, 5);
}

#[test]
fn identity_is_stable_across_renders_of_the_same_shape() {
    let a = numbered(sample());
    let b = numbered(sample().label("other"));
    let mut ia = Vec::new();
    let mut ib = Vec::new();
    preorder_ids(&a, &mut ia);
    preorder_ids(&b, &mut ib);
    assert_eq!(ia, ib);
}

#[test]
fn patching_an_identical_copy_does_nothing() {
    let old = numbered(sample());
    let (ops, _) = diff(&old, numbered(sample()));
    assert!(ops.is_empty());
}

#[test]
fn kind_change_replaces_the_subtree() {
    let old = numbered(Node::new(VNodeType::Column, vec![Node::new(VNodeType::Row, vec![Node::leaf(VNodeType::Button)])]));
    let new = numbered(Node::new(VNodeType::Column, vec![Node::leaf(VNodeType::Frame).label("x")]));
    let (ops, patched) = diff(&old, new);
    assert_eq!(ops.len(), 4);
    assert!(matches!(ops[0], Op::Unmount { id: 3 }));
    assert!(matches!(ops[1], Op::Unmount { id: 2 }));
    assert!(matches!(ops[2], Op::Mount { id: 2, parent: Some(1) }));
    match &ops[3] {
        Op::SetLabel { id: 2, label: Some(l) } => assert_eq!(l, "x"),
        _ => panic!("the new widget should get its label"),
    }
    assert_eq!(patched.node_id, 1);
}

#[test]
fn root_kind_change_mounts_at_the_top() {
    let old = numbered(Node::leaf(VNodeType::Button));
    let (ops, _) = diff(&old, numbered(Node::leaf(VNodeType::Frame)));
    assert_eq!(ops.len(), 2);
    assert!(matches!(ops[0], Op::Unmount { id: 1 }));
    assert!(matches!(ops[1], Op::Mount { id: 1, parent: None }));
}

#[test]
fn growing_three_children_to_five_mounts_two_at_the_end() {
    let k = [VNodeType::Button, VNodeType::Frame, VNodeType::Input, VNodeType::Output, VNodeType::Choice];
    let old = numbered(column_of(&k[..3]));
    let (ops, _) = diff(&old, numbered(column_of(&k)));
    assert_eq!(ops.len(), 2);
    assert!(matches!(ops[0], Op::Mount { id: 5, parent: Some(1) }));
    assert!(matches!(ops[1], Op::Mount { id: 6, parent: Some(1) }));
}

#[test]
fn shrinking_five_children_to_three_unmounts_the_last_two() {
    let k = [VNodeType::Button, VNodeType::Frame, VNodeType::Input, VNodeType::Output, VNodeType::Choice];
    let old = numbered(column_of(&k));
    let (ops, _) = diff(&old, numbered(column_of(&k[..3])));
    assert_eq!(ops.len(), 2);
    assert!(matches!(ops[0], Op::Unmount { id: 5 }));
    assert!(matches!(ops[1], Op::Unmount { id: 6 }));
}

#[test]
fn reorder_patches_each_position() {
    let old = numbered(column_of(&[VNodeType::Button, VNodeType::Frame]));
    let (ops, _) = diff(&old, numbered(column_of(&[VNodeType::Frame, VNodeType::Button])));
    assert_eq!(ops.len(), 4);
    assert!(matches!(ops[0], Op::Unmount { id: 2 }));
    assert!(matches!(ops[1], Op::Mount { id: 2, parent: Some(1) }));
    assert!(matches!(ops[2], Op::Unmount { id: 3 }));
    assert!(matches!(ops[3], Op::Mount { id: 3, parent: Some(1) }));
}

#[test]
fn only_changed_properties_are_set() {
    let old = numbered(Node::leaf(VNodeType::Button).label("a").fixed(10).visible(true));
    let (ops, _) = diff(&old, numbered(Node::leaf(VNodeType::Button).label("b").fixed(10).visible(false)));
    assert_eq!(ops.len(), 2);
    match &ops[0] {
        Op::SetLabel { id: 1, label: Some(l) } => assert_eq!(l, "b"),
        _ => panic!("expected a label change"),
    }
    assert!(matches!(ops[1], Op::SetVisible { id: 1, visible: false }));
}

#[test]
fn removed_label_is_cleared_and_removed_fixed_size_is_left() {
    let old = numbered(Node::leaf(VNodeType::Frame).label("a").fixed(10));
    let (ops, _) = diff(&old, numbered(Node::leaf(VNodeType::Frame)));
    assert_eq!(ops.len(), 1);
    assert!(matches!(ops[0], Op::SetLabel { id: 1, label: None }));
}

#[test]
fn changed_kind_specific_value_is_set() {
    let old = numbered(Node::leaf(VNodeType::Choice).value(Value::Int(1)).value(Value::Text("x".to_string())));
    let new = numbered(Node::leaf(VNodeType::Choice).value(Value::Int(2)).value(Value::Text("x".to_string())));
    let (ops, _) = diff(&old, new);
    assert_eq!(ops.len(), 1);
    assert!(matches!(ops[0], Op::SetValue { id: 1, slot: 0, value: Value::Int(2) }));
}

#[test]
fn geometry_change_resizes_with_zero_defaults() {
    let mut n = Node::leaf(VNodeType::Frame);
    n.props.x = Some(5);
    let old = numbered(Node::leaf(VNodeType::Frame));
    let (ops, _) = diff(&old, numbered(n));
    assert_eq!(ops.len(), 1);
    assert!(matches!(ops[0], Op::Resize { id: 1, x: 5, y: 0, w: 0, h: 0 }));
}

#[test]
fn new_children_inherit_identities_of_kept_nodes() {
    let old = numbered(Node::new(VNodeType::Column, vec![Node::leaf(VNodeType::Button)]));
    let mut new = Node::new(VNodeType::Column, vec![Node::leaf(VNodeType::Button)]);
    new.node_id = 40;
    new.children[0].node_id = 41;
    let (ops, patched) = diff(&old, new);
    assert!(ops.is_empty());
    assert_eq!(patched.node_id, 1);
    assert_eq!(patched.children[0].node_id, 2);
}

#[test]
fn mount_applies_the_properties_that_are_set() {
    let (_, ops): (VirtualDom<fn(&())>, Vec<Op>) =
        VirtualDom::new(numbered(Node::leaf(VNodeType::Button).fixed(20).value(Value::Flag(true)).value(Value::Unset)));
    assert_eq!(ops.len(), 3);
    assert!(matches!(ops[0], Op::Mount { id: 1, parent: None }));
    assert!(matches!(ops[1], Op::SetFixed { id: 1, size: 20 }));
    assert!(matches!(ops[2], Op::SetValue { id: 1, slot: 0, value: Value::Flag(true) }));
}

#[test]
fn store_mounts_patches_and_drops_observers_of_removed_nodes() {
    let seen: Rc<RefCell<Vec<String>>> = Rc::new(RefCell::new(Vec::new()));
    let (mut dom, ops) = VirtualDom::new(numbered(column_of(&[VNodeType::TextEditor, VNodeType::Button])));
    assert_eq!(ops.len(), 3);
    assert!(matches!(ops[0], Op::Mount { id: 1, parent: None }));
    assert!(matches!(ops[2], Op::Mount { id: 3, parent: Some(1) }));
    for (owner, tag) in [(2usize, "editor"), (3, "button"), (2, "editor2")] {
        let seen = seen.clone();
        dom.subscribe_owned(owner, move |m: &i32| seen.borrow_mut().push(format!("{tag}:{m}")));
    }
    dom.dispatch(&7);
    assert_eq!(*seen.borrow(), vec!["editor:7", "button:7", "editor2:7"]);
    let ops = dom.patch(numbered(column_of(&[VNodeType::Frame, VNodeType::Button])));
    assert_eq!(ops.len(), 2);
    assert_eq!(dom.subscriber_count(), 1);
    assert_eq!(dom.subscriber_owner(0), 3);
    seen.borrow_mut().clear();
    dom.dispatch(&8);
    assert_eq!(*seen.borrow(), vec!["button:8"]);
    assert_eq!(dom.current().children[0].kind, VNodeType::Frame);
}

#[test]
fn unsubscribe_owner_keeps_the_others_in_order() {
    let (mut dom, _) = VirtualDom::new(numbered(Node::leaf(VNodeType::Button)));
    for owner in [1usize, 2, 1, 3] {
        dom.subscribe_owned(owner, move |_: &()| {});
    }
    dom.unsubscribe_owner(1);
    assert_eq!(dom.subscriber_count(), 2);
    assert_eq!(dom.subscriber_owner(0), 2);
    assert_eq!(dom.subscriber_owner(1), 3);
}
