use vstd::prelude::*;
use crate::vnode::{lemma_child_smaller, text_of, tree_size, Node, Value, WidgetProps};

verus! {

/// One change to the live widgets, as the reconciler asks for it. The
/// widget of a node is found by the node's identity.
#[derive(Clone, Debug)]
pub enum Op {
    /// Create the widget of node `id` and place it last in the container of
    /// node `parent` (at the top when there is none).
    Mount { id: usize, parent: Option<usize> },
    /// Detach and release the widget of node `id` and forget it. The widgets
    /// below it have been unmounted before.
    Unmount { id: usize },
    Resize { id: usize, x: i32, y: i32, w: i32, h: i32 },
    /// Set the label; an absent one shows as empty.
    SetLabel { id: usize, label: Option<String> },
    /// Give the widget this fixed size in its parent's layout.
    SetFixed { id: usize, size: i32 },
    SetColor { id: usize, color: u32 },
    SetFrame { id: usize, frame: i32 },
    SetSelectionColor { id: usize, color: u32 },
    SetLabelColor { id: usize, color: u32 },
    SetLabelFont { id: usize, font: i32 },
    SetLabelSize { id: usize, size: i32 },
    SetTooltip { id: usize, tooltip: String },
    SetAlign { id: usize, align: i32 },
    SetTrigger { id: usize, when: i32 },
    SetVisible { id: usize, visible: bool },
    SetDeactivated { id: usize, deactivated: bool },
    /// Set kind-specific property number `slot`, and bind the widget's
    /// callback again so that it sees the new value.
    SetValue { id: usize, slot: usize, value: Value },
}

/// The operation if the condition holds, else nothing.
pub open spec fn op_if(c: bool, op: Op) -> Seq<Op> {
    if c {
        seq![op]
    } else {
        Seq::empty()
    }
}

/// The property changed and its new value is present.
pub open spec fn set_to<T>(o: Option<T>, n: Option<T>) -> bool {
    o != n && n is Some
}

pub open spec fn or_zero(v: Option<i32>) -> i32 {
    match v {
        Some(x) => x,
        None => 0,
    }
}

/// The geometry changed and the new one gives at least one coordinate.
pub open spec fn geometry_changed(o: WidgetProps, n: WidgetProps) -> bool {
    (o.x != n.x || o.y != n.y || o.w != n.w || o.h != n.h)
        && (n.x is Some || n.y is Some || n.w is Some || n.h is Some)
}

/// The property setters that turn the widget of node `id`, which shows `o`,
/// into one that shows `n`: one for each property that changed, in a fixed
/// order, where the new value is present (the label is cleared instead).
pub open spec fn prop_ops(id: usize, o: WidgetProps, n: WidgetProps) -> Seq<Op> {
    frame_ops(id, o, n) + style_ops(id, o, n) + behavior_ops(id, o, n)
}

/// Geometry, label and fixed layout size.
pub open spec fn frame_ops(id: usize, o: WidgetProps, n: WidgetProps) -> Seq<Op> {
    op_if(geometry_changed(o, n), Op::Resize { id, x: or_zero(n.x), y: or_zero(n.y), w: or_zero(n.w), h: or_zero(n.h) })
    + op_if(text_of(o.label) != text_of(n.label), Op::SetLabel { id, label: n.label })
    + op_if(set_to(o.fixed, n.fixed), Op::SetFixed { id, size: n.fixed->0 })
}

/// Colors, frame and label font.
pub open spec fn style_ops(id: usize, o: WidgetProps, n: WidgetProps) -> Seq<Op> {
    op_if(set_to(o.color, n.color), Op::SetColor { id, color: n.color->0 })
    + op_if(set_to(o.boxtype, n.boxtype), Op::SetFrame { id, frame: n.boxtype->0 })
    + op_if(set_to(o.selection_color, n.selection_color), Op::SetSelectionColor { id, color: n.selection_color->0 })
    + op_if(set_to(o.label_color, n.label_color), Op::SetLabelColor { id, color: n.label_color->0 })
    + op_if(set_to(o.label_font, n.label_font), Op::SetLabelFont { id, font: n.label_font->0 })
    + op_if(set_to(o.label_size, n.label_size), Op::SetLabelSize { id, size: n.label_size->0 })
}

/// Tooltip, alignment, callback trigger, visibility and activation.
pub open spec fn behavior_ops(id: usize, o: WidgetProps, n: WidgetProps) -> Seq<Op> {
    op_if(set_to(text_of(o.tooltip), text_of(n.tooltip)), Op::SetTooltip { id, tooltip: n.tooltip->0 })
    + op_if(set_to(o.align, n.align), Op::SetAlign { id, align: n.align->0 })
    + op_if(set_to(o.when, n.when), Op::SetTrigger { id, when: n.when->0 })
    + op_if(set_to(o.visible, n.visible), Op::SetVisible { id, visible: n.visible->0 })
    + op_if(set_to(o.deactivate, n.deactivate), Op::SetDeactivated { id, deactivated: n.deactivate->0 })
}

/// The old value of slot `i`: unset where the old list is shorter.
pub open spec fn slot_of(s: Seq<Value>, i: int) -> Value {
    if 0 <= i < s.len() {
        s[i]
    } else {
        Value::Unset
    }
}

/// The setters of the first `k` kind-specific properties of the new node:
/// one for each slot whose value changed to a set one.
pub open spec fn value_ops(id: usize, o: Seq<Value>, n: Seq<Value>, k: nat) -> Seq<Op>
    decreases k,
{
    if k == 0 || k > n.len() {
        Seq::empty()
    } else {
        let i = k - 1;
        value_ops(id, o, n, i as nat)
            + op_if(!slot_of(o, i).same_as(&n[i]) && !(n[i] is Unset), Op::SetValue { id, slot: i as usize, value: n[i] })
    }
}

fn same_text(a: &Option<String>, b: &Option<String>) -> (r: bool)
    ensures
        r == (text_of(*a) == text_of(*b)),
{
    match (a, b) {
        (Some(x), Some(y)) => x.eq(y),
        (None, None) => true,
        _ => false,
    }
}

fn copy_text(a: &Option<String>) -> (r: Option<String>)
    ensures
        r == *a,
{
    match a {
        Some(x) => Some(x.clone()),
        None => None,
    }
}

/// The new text, where it should be applied.
fn new_text(o: &Option<String>, n: &Option<String>) -> (r: Option<String>)
    ensures
        r == (if set_to(text_of(*o), text_of(*n)) { *n } else { None }),
{
    if same_text(o, n) {
        None
    } else {
        copy_text(n)
    }
}

/// The new value, where it should be applied.
fn new_i32(o: Option<i32>, n: Option<i32>) -> (r: Option<i32>)
    ensures
        r == (if set_to(o, n) { n } else { None }),
{
    match (o, n) {
        (Some(a), Some(b)) => if a == b { None } else { n },
        (None, Some(_)) => n,
        _ => None,
    }
}

/// The new value, where it should be applied.
fn new_u32(o: Option<u32>, n: Option<u32>) -> (r: Option<u32>)
    ensures
        r == (if set_to(o, n) { n } else { None }),
{
    match (o, n) {
        (Some(a), Some(b)) => if a == b { None } else { n },
        (None, Some(_)) => n,
        _ => None,
    }
}

/// The new value, where it should be applied.
fn new_bool(o: Option<bool>, n: Option<bool>) -> (r: Option<bool>)
    ensures
        r == (if set_to(o, n) { n } else { None }),
{
    match (o, n) {
        (Some(a), Some(b)) => if a == b { None } else { n },
        (None, Some(_)) => n,
        _ => None,
    }
}

fn same_i32(a: Option<i32>, b: Option<i32>) -> (r: bool)
    ensures
        r == (a == b),
{
    match (a, b) {
        (Some(x), Some(y)) => x == y,
        (None, None) => true,
        _ => false,
    }
}

fn unwrap_or_zero(v: Option<i32>) -> (r: i32)
    ensures
        r == or_zero(v),
{
    match v {
        Some(x) => x,
        None => 0,
    }
}

/// Appends the property setters that bring the widget of node `id` from
/// `o` to `n`.
pub fn push_prop_ops(id: usize, o: &WidgetProps, n: &WidgetProps, ops: &mut Vec<Op>)
    ensures
        final(ops)@ == old(ops)@ + prop_ops(id, *o, *n),
{
    let ghost base = ops@;
    push_frame_ops(id, o, n, ops);
    push_style_ops(id, o, n, ops);
    push_behavior_ops(id, o, n, ops);
    assert(ops@ =~= base + prop_ops(id, *o, *n));
}

#[verifier::rlimit(40)]
fn push_frame_ops(id: usize, o: &WidgetProps, n: &WidgetProps, ops: &mut Vec<Op>)
    ensures
        final(ops)@ == old(ops)@ + frame_ops(id, *o, *n),
{
    let ghost base = ops@;
    let ghost acc: Seq<Op> = Seq::empty();
    assert(ops@ =~= base + acc);

    let moved = !same_i32(o.x, n.x) || !same_i32(o.y, n.y) || !same_i32(o.w, n.w) || !same_i32(o.h, n.h);
    let given = n.x.is_some() || n.y.is_some() || n.w.is_some() || n.h.is_some();
    let op = Op::Resize { id, x: unwrap_or_zero(n.x), y: unwrap_or_zero(n.y), w: unwrap_or_zero(n.w), h: unwrap_or_zero(n.h) };
    proof { acc = acc + op_if(moved && given, op); }
    if moved && given {
        ops.push(op);
    }
    assert(ops@ =~= base + acc);

    let c = !same_text(&o.label, &n.label);
    let op = Op::SetLabel { id, label: copy_text(&n.label) };
    proof { acc = acc + op_if(c, op); }
    if c {
        ops.push(op);
    }
    assert(ops@ =~= base + acc);

    let v = new_i32(o.fixed, n.fixed);
    proof { acc = acc + op_if(set_to(o.fixed, n.fixed), Op::SetFixed { id, size: n.fixed->0 }); }
    if let Some(size) = v {
        ops.push(Op::SetFixed { id, size });
    }
    assert(ops@ =~= base + acc);
}

#[verifier::rlimit(40)]
fn push_style_ops(id: usize, o: &WidgetProps, n: &WidgetProps, ops: &mut Vec<Op>)
    ensures
        final(ops)@ == old(ops)@ + style_ops(id, *o, *n),
{
    let ghost base = ops@;
    let ghost acc: Seq<Op> = Seq::empty();
    assert(ops@ =~= base + acc);

    let v = new_u32(o.color, n.color);
    proof { acc = acc + op_if(set_to(o.color, n.color), Op::SetColor { id, color: n.color->0 }); }
    if let Some(color) = v {
        ops.push(Op::SetColor { id, color });
    }
    assert(ops@ =~= base + acc);

    let v = new_i32(o.boxtype, n.boxtype);
    proof { acc = acc + op_if(set_to(o.boxtype, n.boxtype), Op::SetFrame { id, frame: n.boxtype->0 }); }
    if let Some(frame) = v {
        ops.push(Op::SetFrame { id, frame });
    }
    assert(ops@ =~= base + acc);

    let v = new_u32(o.selection_color, n.selection_color);
    proof { acc = acc + op_if(set_to(o.selection_color, n.selection_color), Op::SetSelectionColor { id, color: n.selection_color->0 }); }
    if let Some(color) = v {
        ops.push(Op::SetSelectionColor { id, color });
    }
    assert(ops@ =~= base + acc);

    let v = new_u32(o.label_color, n.label_color);
    proof { acc = acc + op_if(set_to(o.label_color, n.label_color), Op::SetLabelColor { id, color: n.label_color->0 }); }
    if let Some(color) = v {
        ops.push(Op::SetLabelColor { id, color });
    }
    assert(ops@ =~= base + acc);

    let v = new_i32(o.label_font, n.label_font);
    proof { acc = acc + op_if(set_to(o.label_font, n.label_font), Op::SetLabelFont { id, font: n.label_font->0 }); }
    if let Some(font) = v {
        ops.push(Op::SetLabelFont { id, font });
    }
    assert(ops@ =~= base + acc);

    let v = new_i32(o.label_size, n.label_size);
    proof { acc = acc + op_if(set_to(o.label_size, n.label_size), Op::SetLabelSize { id, size: n.label_size->0 }); }
    if let Some(size) = v {
        ops.push(Op::SetLabelSize { id, size });
    }
    assert(ops@ =~= base + acc);
}

#[verifier::rlimit(40)]
fn push_behavior_ops(id: usize, o: &WidgetProps, n: &WidgetProps, ops: &mut Vec<Op>)
    ensures
        final(ops)@ == old(ops)@ + behavior_ops(id, *o, *n),
{
    let ghost base = ops@;
    let ghost acc: Seq<Op> = Seq::empty();
    assert(ops@ =~= base + acc);

    let v = new_text(&o.tooltip, &n.tooltip);
    proof { acc = acc + op_if(set_to(text_of(o.tooltip), text_of(n.tooltip)), Op::SetTooltip { id, tooltip: n.tooltip->0 }); }
    if let Some(tooltip) = v {
        ops.push(Op::SetTooltip { id, tooltip });
    }
    assert(ops@ =~= base + acc);

    let v = new_i32(o.align, n.align);
    proof { acc = acc + op_if(set_to(o.align, n.align), Op::SetAlign { id, align: n.align->0 }); }
    if let Some(align) = v {
        ops.push(Op::SetAlign { id, align });
    }
    assert(ops@ =~= base + acc);

    let v = new_i32(o.when, n.when);
    proof { acc = acc + op_if(set_to(o.when, n.when), Op::SetTrigger { id, when: n.when->0 }); }
    if let Some(when) = v {
        ops.push(Op::SetTrigger { id, when });
    }
    assert(ops@ =~= base + acc);

    let v = new_bool(o.visible, n.visible);
    proof { acc = acc + op_if(set_to(o.visible, n.visible), Op::SetVisible { id, visible: n.visible->0 }); }
    if let Some(visible) = v {
        ops.push(Op::SetVisible { id, visible });
    }
    assert(ops@ =~= base + acc);

    let v = new_bool(o.deactivate, n.deactivate);
    proof { acc = acc + op_if(set_to(o.deactivate, n.deactivate), Op::SetDeactivated { id, deactivated: n.deactivate->0 }); }
    if let Some(deactivated) = v {
        ops.push(Op::SetDeactivated { id, deactivated });
    }
    assert(ops@ =~= base + acc);
}

fn copy_value(v: &Value) -> (r: Value)
    ensures
        r == *v,
{
    match v {
        Value::Unset => Value::Unset,
        Value::Flag(b) => Value::Flag(*b),
        Value::Int(i) => Value::Int(*i),
        Value::Text(t) => Value::Text(t.clone()),
    }
}

fn same_value(a: &Value, b: &Value) -> (r: bool)
    ensures
        r == a.same_as(b),
{
    match (a, b) {
        (Value::Unset, Value::Unset) => true,
        (Value::Flag(x), Value::Flag(y)) => *x == *y,
        (Value::Int(x), Value::Int(y)) => *x == *y,
        (Value::Text(x), Value::Text(y)) => x.eq(y),
        _ => false,
    }
}

/// Appends the setters of the kind-specific properties that changed from
/// `o` to `n`.
pub fn push_value_ops(id: usize, o: &Vec<Value>, n: &Vec<Value>, ops: &mut Vec<Op>)
    ensures
        final(ops)@ == old(ops)@ + value_ops(id, o@, n@, n@.len()),
{
    let ghost base = ops@;
    let len = n.len();
    let mut k: usize = 0;
    assert(ops@ =~= base + value_ops(id, o@, n@, 0));
    while k < len
        invariant
            k <= len == n@.len(),
            ops@ == base + value_ops(id, o@, n@, k as nat),
        decreases len - k,
    {
        let changed = if k < o.len() {
            !same_value(&o[k], &n[k])
        } else {
            !same_value(&Value::Unset, &n[k])
        };
        let set = match &n[k] {
            Value::Unset => false,
            _ => true,
        };
        let ghost prev = ops@;
        if changed && set {
            ops.push(Op::SetValue { id, slot: k, value: copy_value(&n[k]) });
        }
        assert(value_ops(id, o@, n@, (k + 1) as nat) == value_ops(id, o@, n@, k as nat)
            + op_if(!slot_of(o@, k as int).same_as(&n@[k as int]) && !(n@[k as int] is Unset),
                Op::SetValue { id, slot: k, value: n@[k as int] }));
        assert(ops@ =~= base + value_ops(id, o@, n@, (k + 1) as nat));
        k = k + 1;
    }
}

/// Properties with nothing set: what a widget starts from.
pub open spec fn unset_props() -> WidgetProps {
    WidgetProps {
        label: None,
        fixed: None,
        boxtype: None,
        color: None,
        selection_color: None,
        label_color: None,
        label_font: None,
        label_size: None,
        tooltip: None,
        align: None,
        when: None,
        visible: None,
        deactivate: None,
        x: None,
        y: None,
        w: None,
        h: None,
    }
}

/// The creation of the widget of node `n` inside the container `parent`,
/// followed by the setters of the properties it gives.
pub open spec fn create_ops(n: Node, parent: Option<usize>) -> Seq<Op> {
    seq![Op::Mount { id: n.node_id, parent }]
        + prop_ops(n.node_id, unset_props(), n.props)
        + value_ops(n.node_id, Seq::empty(), n.values@, n.values@.len())
}

/// The mounting of a new subtree: each node's widget created, with its
/// properties, in depth-first order, each inside its parent's.
pub open spec fn mount_ops(n: Node, parent: Option<usize>) -> Seq<Op>
    decreases n, 1nat,
{
    create_ops(n, parent) + mount_all(n.children@, n.node_id)
}

/// The mounting of a list of subtrees, in order, into the container `parent`.
pub open spec fn mount_all(s: Seq<Node>, parent: usize) -> Seq<Op>
    decreases s, 0nat,
{
    if s.len() == 0 {
        Seq::empty()
    } else {
        mount_all(s.subrange(0, s.len() - 1), parent) + mount_ops(s[s.len() - 1], Some(parent))
    }
}

/// The teardown of a subtree: the children's subtrees first, in order, then
/// the node itself.
pub open spec fn unmount_ops(n: Node) -> Seq<Op>
    decreases n, 1nat,
{
    unmount_all(n.children@) + seq![Op::Unmount { id: n.node_id }]
}

/// The teardown of a list of subtrees, in order.
pub open spec fn unmount_all(s: Seq<Node>) -> Seq<Op>
    decreases s, 0nat,
{
    if s.len() == 0 {
        Seq::empty()
    } else {
        unmount_all(s.subrange(0, s.len() - 1)) + unmount_ops(s[s.len() - 1])
    }
}

/// The trees of `s` from position `k` on (none where `s` is not longer).
pub open spec fn tail_from(s: Seq<Node>, k: int) -> Seq<Node> {
    if k < s.len() {
        s.subrange(k, s.len() as int)
    } else {
        Seq::empty()
    }
}

/// What patching the live widgets of `old` into those of `new` takes, at a
/// position whose container is `parent`. Nodes of different kinds: the old
/// subtree is torn down and the new one mounted in its place. Nodes of the
/// same kind: the widget is kept and told of the properties that changed,
/// then the children are reconciled by position: the common positions are
/// patched, extra new children mounted at the end, extra old ones torn down.
pub open spec fn patch_ops(old: Node, new: Node, parent: Option<usize>) -> Seq<Op>
    decreases old, 1nat,
{
    if old.kind != new.kind {
        unmount_ops(old) + mount_ops(new, parent)
    } else {
        let os = old.children@;
        let ns = new.children@;
        let common = if os.len() < ns.len() { os.len() } else { ns.len() };
        prop_ops(old.node_id, old.props, new.props)
            + value_ops(old.node_id, old.values@, new.values@, new.values@.len())
            + paired_ops(os, ns, old.node_id, common)
            + mount_all(tail_from(ns, os.len() as int), old.node_id)
            + unmount_all(tail_from(os, ns.len() as int))
    }
}

/// The patches of the first `k` children, position by position.
pub open spec fn paired_ops(os: Seq<Node>, ns: Seq<Node>, parent: usize, k: nat) -> Seq<Op>
    decreases os, k,
{
    if k == 0 || k > os.len() || k > ns.len() {
        Seq::empty()
    } else {
        paired_ops(os, ns, parent, (k - 1) as nat) + patch_ops(os[k - 1], ns[k - 1], Some(parent))
    }
}

/// `after` is the new tree `before` once patched against `old`: where the
/// kinds agree each node takes the identity of the old node at its place and
/// keeps all else; a replaced subtree, and children past the old ones, keep
/// their own identities.
pub open spec fn adopted(old: Node, before: Node, after: Node) -> bool
    decreases old,
{
    if old.kind != before.kind {
        after == before
    } else {
        &&& after.kind == before.kind
        &&& after.node_id == old.node_id
        &&& after.props == before.props
        &&& after.values == before.values
        &&& after.children@.len() == before.children@.len()
        &&& forall|i: int| 0 <= i < after.children@.len() ==> {
            if i < old.children@.len() {
                adopted(old.children@[i], before.children@[i], #[trigger] after.children@[i])
            } else {
                after.children@[i] == before.children@[i]
            }
        }
    }
}

proof fn lemma_mount_all_step(s: Seq<Node>, a: int, j: int, parent: usize)
    requires
        0 <= a <= j < s.len(),
    ensures
        mount_all(s.subrange(a, j + 1), parent) == mount_all(s.subrange(a, j), parent) + mount_ops(s[j], Some(parent)),
{
    let t = s.subrange(a, j + 1);
    assert(t.subrange(0, t.len() - 1) =~= s.subrange(a, j));
}

proof fn lemma_unmount_all_step(s: Seq<Node>, a: int, j: int)
    requires
        0 <= a <= j < s.len(),
    ensures
        unmount_all(s.subrange(a, j + 1)) == unmount_all(s.subrange(a, j)) + unmount_ops(s[j]),
{
    let t = s.subrange(a, j + 1);
    assert(t.subrange(0, t.len() - 1) =~= s.subrange(a, j));
}

/// Appends the creation of the widgets of the subtree `n`, placed in the
/// container `parent`.
pub fn push_mount_ops(n: &Node, parent: Option<usize>, ops: &mut Vec<Op>)
    ensures
        final(ops)@ == old(ops)@ + mount_ops(*n, parent),
    decreases tree_size(*n),
{
    let ghost base = ops@;
    ops.push(Op::Mount { id: n.node_id, parent });
    let unset = WidgetProps::default();
    assert(unset == unset_props());
    push_prop_ops(n.node_id, &unset, &n.props, ops);
    let no_values: Vec<Value> = Vec::new();
    push_value_ops(n.node_id, &no_values, &n.values, ops);
    assert(no_values@ =~= Seq::<Value>::empty());
    assert(ops@ =~= base + create_ops(*n, parent));
    let len = n.children.len();
    let mut i: usize = 0;
    assert(ops@ =~= base + create_ops(*n, parent) + mount_all(n.children@.subrange(0, 0), n.node_id));
    while i < len
        invariant
            i <= len == n.children@.len(),
            ops@ == base + create_ops(*n, parent) + mount_all(n.children@.subrange(0, i as int), n.node_id),
        decreases len - i,
    {
        proof {
            lemma_child_smaller(*n, i as int);
            lemma_mount_all_step(n.children@, 0, i as int, n.node_id);
        }
        push_mount_ops(&n.children[i], Some(n.node_id), ops);
        assert(ops@ =~= base + create_ops(*n, parent) + mount_all(n.children@.subrange(0, i + 1), n.node_id));
        i = i + 1;
    }
    assert(n.children@.subrange(0, len as int) =~= n.children@);
}

/// Appends the teardown of the widgets of the subtree `n`.
pub fn push_unmount_ops(n: &Node, ops: &mut Vec<Op>)
    ensures
        final(ops)@ == old(ops)@ + unmount_ops(*n),
    decreases tree_size(*n),
{
    let ghost base = ops@;
    let len = n.children.len();
    let mut i: usize = 0;
    assert(ops@ =~= base + unmount_all(n.children@.subrange(0, 0)));
    while i < len
        invariant
            i <= len == n.children@.len(),
            ops@ == base + unmount_all(n.children@.subrange(0, i as int)),
        decreases len - i,
    {
        proof {
            lemma_child_smaller(*n, i as int);
            lemma_unmount_all_step(n.children@, 0, i as int);
        }
        push_unmount_ops(&n.children[i], ops);
        assert(ops@ =~= base + unmount_all(n.children@.subrange(0, i + 1)));
        i = i + 1;
    }
    assert(n.children@.subrange(0, len as int) =~= n.children@);
    ops.push(Op::Unmount { id: n.node_id });
    assert(ops@ =~= base + unmount_ops(*n));
}

/// Reconciles the new tree `new` against the current one `cur`, whose widgets are live, at
/// a position whose container is `parent`: appends to `ops` what the live
/// widgets need, and gives the nodes of `new` that are kept in place the
/// identities of the cur ones.
pub fn patch_node(cur: &Node, new: &mut Node, parent: Option<usize>, ops: &mut Vec<Op>)
    ensures
        final(ops)@ == old(ops)@ + patch_ops(*cur, *old(new), parent),
        adopted(*cur, *old(new), *final(new)),
    decreases tree_size(*cur),
{
    let ghost base = ops@;
    let ghost before = *new;
    if cur.kind != new.kind {
        push_unmount_ops(cur, ops);
        push_mount_ops(new, parent, ops);
        assert(ops@ =~= base + patch_ops(*cur, before, parent));
        return;
    }
    let id = cur.node_id;
    new.node_id = id;
    push_prop_ops(id, &cur.props, &new.props, ops);
    push_value_ops(id, &cur.values, &new.values, ops);
    let ghost head = ops@;
    let ghost os = cur.children@;
    let ghost ns = before.children@;
    let olen = cur.children.len();
    let nlen = new.children.len();
    let common = if olen < nlen { olen } else { nlen };
    let mut i: usize = 0;
    assert(ops@ =~= head + paired_ops(os, ns, id, 0));
    while i < common
        invariant
            i <= common <= olen == os.len(),
            common <= nlen == ns.len() == new.children@.len(),
            common == (if olen < nlen { olen } else { nlen }),
            os == cur.children@,
            ns == before.children@,
            new.kind == before.kind,
            new.node_id == id == cur.node_id,
            new.props == before.props,
            new.values == before.values,
            ops@ == head + paired_ops(os, ns, id, i as nat),
            forall|j: int| 0 <= j < i ==> adopted(#[trigger] os[j], ns[j], new.children@[j]),
            forall|j: int| i <= j < nlen ==> #[trigger] new.children@[j] == ns[j],
        decreases common - i,
    {
        proof {
            lemma_child_smaller(*cur, i as int);
        }
        patch_node(&cur.children[i], &mut new.children[i], Some(id), ops);
        assert(ops@ =~= head + paired_ops(os, ns, id, (i + 1) as nat));
        i = i + 1;
    }
    let ghost mid = ops@;
    let mut j: usize = olen;
    proof {
        if olen < nlen {
            assert(ns.subrange(olen as int, olen as int) =~= Seq::<Node>::empty());
            assert(mid =~= mid + mount_all(ns.subrange(olen as int, olen as int), id));
        }
    }
    while j < nlen
        invariant
            olen <= j <= nlen || nlen <= olen == j,
            nlen == ns.len() == new.children@.len(),
            ns == before.children@,
            forall|k: int| common <= k < nlen ==> #[trigger] new.children@[k] == ns[k],
            common == (if olen < nlen { olen } else { nlen }),
            olen < nlen ==> ops@ == mid + mount_all(ns.subrange(olen as int, j as int), id),
            olen >= nlen ==> ops@ == mid,
        decreases nlen - j,
    {
        proof {
            lemma_mount_all_step(ns, olen as int, j as int, id);
        }
        push_mount_ops(&new.children[j], Some(id), ops);
        j = j + 1;
    }
    let ghost mid2 = ops@;
    let mut k: usize = nlen;
    while k < olen
        invariant
            nlen <= k <= olen || olen <= nlen == k,
            olen == os.len() == cur.children@.len(),
            os == cur.children@,
            nlen < olen ==> ops@ == mid2 + unmount_all(os.subrange(nlen as int, k as int)),
            nlen >= olen ==> ops@ == mid2,
        decreases olen - k,
    {
        proof {
            lemma_unmount_all_step(os, nlen as int, k as int);
            if k == nlen {
                assert(os.subrange(nlen as int, k as int) =~= Seq::<Node>::empty());
            }
        }
        push_unmount_ops(&cur.children[k], ops);
        k = k + 1;
    }
    proof {
        if olen < nlen {
            assert(tail_from(ns, olen as int) == ns.subrange(olen as int, nlen as int));
            assert(tail_from(os, nlen as int) =~= Seq::<Node>::empty());
        } else {
            assert(tail_from(ns, olen as int) =~= Seq::<Node>::empty());
            if nlen < olen {
                assert(tail_from(os, nlen as int) == os.subrange(nlen as int, olen as int));
            } else {
                assert(tail_from(os, nlen as int) =~= Seq::<Node>::empty());
            }
        }
        assert(ops@ =~= base + patch_ops(*cur, before, parent));
    }
}

proof fn lemma_prop_ops_same(id: usize, p: WidgetProps)
    ensures
        prop_ops(id, p, p) == Seq::<Op>::empty(),
{
    assert(frame_ops(id, p, p) =~= Seq::<Op>::empty());
    assert(style_ops(id, p, p) =~= Seq::<Op>::empty());
    assert(behavior_ops(id, p, p) =~= Seq::<Op>::empty());
    assert(prop_ops(id, p, p) =~= Seq::<Op>::empty());
}

proof fn lemma_value_ops_same(id: usize, v: Seq<Value>, k: nat)
    ensures
        value_ops(id, v, v, k) == Seq::<Op>::empty(),
    decreases k,
{
    if k > 0 && k <= v.len() {
        lemma_value_ops_same(id, v, (k - 1) as nat);
        let i = k - 1;
        assert(slot_of(v, i).same_as(&v[i]));
        assert(value_ops(id, v, v, k) =~= Seq::<Op>::empty());
    }
}

proof fn lemma_paired_ops_same(s: Seq<Node>, parent: usize, k: nat)
    ensures
        paired_ops(s, s, parent, k) == Seq::<Op>::empty(),
    decreases s, k,
{
    if k > 0 && k <= s.len() {
        lemma_paired_ops_same(s, parent, (k - 1) as nat);
        lemma_patch_identical(s[k - 1], Some(parent));
        assert(paired_ops(s, s, parent, k) =~= Seq::<Op>::empty());
    }
}

/// Patching a tree against an identical copy of itself asks for nothing: no
/// property setter, no mount, no unmount.
pub proof fn lemma_patch_identical(t: Node, parent: Option<usize>)
    ensures
        patch_ops(t, t, parent) == Seq::<Op>::empty(),
    decreases t, 1nat,
{
    let s = t.children@;
    lemma_prop_ops_same(t.node_id, t.props);
    lemma_value_ops_same(t.node_id, t.values@, t.values@.len());
    lemma_paired_ops_same(s, t.node_id, s.len());
    assert(tail_from(s, s.len() as int) =~= Seq::<Node>::empty());
    assert(mount_all(Seq::<Node>::empty(), t.node_id) =~= Seq::<Op>::empty());
    assert(unmount_all(Seq::<Node>::empty()) =~= Seq::<Op>::empty());
    assert(patch_ops(t, t, parent) =~= Seq::<Op>::empty());
}

proof fn lemma_mount_starts(n: Node, parent: Option<usize>)
    ensures
        mount_ops(n, parent).len() > 0,
        mount_ops(n, parent)[0] == (Op::Mount { id: n.node_id, parent }),
{
}

proof fn lemma_unmount_structural(n: Node)
    ensures
        forall|i: int| 0 <= i < unmount_ops(n).len() ==> (#[trigger] unmount_ops(n)[i]) is Unmount,
    decreases n, 1nat,
{
    lemma_unmount_all_structural(n.children@);
}

proof fn lemma_unmount_all_structural(s: Seq<Node>)
    ensures
        forall|i: int| 0 <= i < unmount_all(s).len() ==> (#[trigger] unmount_all(s)[i]) is Unmount,
    decreases s, 0nat,
{
    if s.len() > 0 {
        lemma_unmount_all_structural(s.subrange(0, s.len() - 1));
        lemma_unmount_structural(s[s.len() - 1]);
    }
}

/// Where the kind at a position changes, the old subtree's widgets are all
/// torn down, the old node's last, before anything else; then the new
/// subtree is mounted, the new node's widget created first. No property of
/// an old widget is set.
pub proof fn lemma_kind_change_replaces(old: Node, new: Node, parent: Option<usize>)
    requires
        old.kind != new.kind,
    ensures
        patch_ops(old, new, parent) == unmount_ops(old) + mount_ops(new, parent),
        unmount_ops(old).last() == (Op::Unmount { id: old.node_id }),
        forall|i: int| 0 <= i < unmount_ops(old).len() ==> (#[trigger] patch_ops(old, new, parent)[i]) is Unmount,
        patch_ops(old, new, parent)[unmount_ops(old).len() as int] == (Op::Mount { id: new.node_id, parent }),
{
    lemma_unmount_structural(old);
    lemma_mount_starts(new, parent);
    let u = unmount_ops(old);
    assert forall|i: int| 0 <= i < u.len() implies (#[trigger] patch_ops(old, new, parent)[i]) is Unmount by {
        assert(patch_ops(old, new, parent)[i] == u[i]);
    }
}

proof fn lemma_paired_ops_agree(os: Seq<Node>, ns: Seq<Node>, parent: usize, k: nat)
    requires
        k <= os.len(),
        k <= ns.len(),
        forall|i: int| 0 <= i < k ==> #[trigger] ns[i] == os[i],
    ensures
        paired_ops(os, ns, parent, k) == Seq::<Op>::empty(),
    decreases k,
{
    if k > 0 {
        lemma_paired_ops_agree(os, ns, parent, (k - 1) as nat);
        lemma_patch_identical(os[k - 1], Some(parent));
        assert(ns[k - 1] == os[k - 1]);
        assert(paired_ops(os, ns, parent, k) =~= Seq::<Op>::empty());
    }
}

/// A node without children, properties or kind-specific values.
pub open spec fn is_leaf(n: Node) -> bool {
    &&& n.children@.len() == 0
    &&& n.props == unset_props()
    &&& n.values@.len() == 0
}

/// Mounting a list of bare leaves is one creation per leaf, in order.
pub proof fn lemma_mount_leaves(s: Seq<Node>, parent: usize)
    requires
        forall|i: int| 0 <= i < s.len() ==> is_leaf(#[trigger] s[i]),
    ensures
        mount_all(s, parent) == Seq::new(s.len(), |i: int| Op::Mount { id: s[i].node_id, parent: Some(parent) }),
    decreases s.len(),
{
    if s.len() > 0 {
        let t = s.subrange(0, s.len() - 1);
        assert forall|i: int| 0 <= i < t.len() implies is_leaf(#[trigger] t[i]) by {
            assert(t[i] == s[i]);
        }
        lemma_mount_leaves(t, parent);
        let last = s[s.len() - 1];
        assert(is_leaf(last));
        assert(last.children@ =~= Seq::<Node>::empty());
        assert(mount_all(last.children@, last.node_id) =~= Seq::<Op>::empty());
        lemma_prop_ops_same(last.node_id, unset_props());
        assert(value_ops(last.node_id, Seq::empty(), last.values@, 0) =~= Seq::<Op>::empty());
        assert(mount_ops(last, Some(parent)) =~= seq![Op::Mount { id: last.node_id, parent: Some(parent) }]);
        assert(mount_all(s, parent) =~= Seq::new(s.len(), |i: int| Op::Mount { id: s[i].node_id, parent: Some(parent) }));
    } else {
        assert(mount_all(s, parent) =~= Seq::new(s.len(), |i: int| Op::Mount { id: s[i].node_id, parent: Some(parent) }));
    }
}

/// Tearing down a list of bare leaves is one removal per leaf, in order.
pub proof fn lemma_unmount_leaves(s: Seq<Node>)
    requires
        forall|i: int| 0 <= i < s.len() ==> is_leaf(#[trigger] s[i]),
    ensures
        unmount_all(s) == Seq::new(s.len(), |i: int| Op::Unmount { id: s[i].node_id }),
    decreases s.len(),
{
    if s.len() > 0 {
        let t = s.subrange(0, s.len() - 1);
        assert forall|i: int| 0 <= i < t.len() implies is_leaf(#[trigger] t[i]) by {
            assert(t[i] == s[i]);
        }
        lemma_unmount_leaves(t);
        let last = s[s.len() - 1];
        assert(is_leaf(last));
        assert(last.children@ =~= Seq::<Node>::empty());
        assert(unmount_all(last.children@) =~= Seq::<Op>::empty());
        assert(unmount_ops(last) =~= seq![Op::Unmount { id: last.node_id }]);
        assert(unmount_all(s) =~= Seq::new(s.len(), |i: int| Op::Unmount { id: s[i].node_id }));
    } else {
        assert(unmount_all(s) =~= Seq::new(s.len(), |i: int| Op::Unmount { id: s[i].node_id }));
    }
}

/// Growing a container: when the new node equals the old one but for more
/// children after copies of the old ones, the patch mounts exactly the
/// extra children, in order, at the end of the container; for leaves that is
/// one creation each.
pub proof fn lemma_children_growth(old: Node, new: Node, parent: Option<usize>)
    requires
        old.kind == new.kind,
        old.props == new.props,
        old.values@ == new.values@,
        old.children@.len() <= new.children@.len(),
        forall|i: int| 0 <= i < old.children@.len() ==> #[trigger] new.children@[i] == old.children@[i],
    ensures
        patch_ops(old, new, parent) == mount_all(new.children@.subrange(old.children@.len() as int, new.children@.len() as int), old.node_id),
        (forall|i: int| old.children@.len() <= i < new.children@.len() ==> is_leaf(#[trigger] new.children@[i]))
            ==> patch_ops(old, new, parent) == Seq::new((new.children@.len() - old.children@.len()) as nat,
                |i: int| Op::Mount { id: new.children@[old.children@.len() + i].node_id, parent: Some(old.node_id) }),
{
    let os = old.children@;
    let ns = new.children@;
    let extra = ns.subrange(os.len() as int, ns.len() as int);
    lemma_prop_ops_same(old.node_id, old.props);
    lemma_value_ops_same(old.node_id, old.values@, old.values@.len());
    lemma_paired_ops_agree(os, ns, old.node_id, os.len());
    assert(tail_from(os, ns.len() as int) =~= Seq::<Node>::empty());
    assert(unmount_all(Seq::<Node>::empty()) =~= Seq::<Op>::empty());
    if os.len() == ns.len() {
        assert(tail_from(ns, os.len() as int) =~= extra);
    }
    assert(patch_ops(old, new, parent) =~= mount_all(extra, old.node_id));
    if forall|i: int| os.len() <= i < ns.len() ==> is_leaf(#[trigger] ns[i]) {
        assert forall|i: int| 0 <= i < extra.len() implies is_leaf(#[trigger] extra[i]) by {
            assert(extra[i] == ns[os.len() + i]);
        }
        lemma_mount_leaves(extra, old.node_id);
        assert(mount_all(extra, old.node_id) =~= Seq::new((ns.len() - os.len()) as nat,
            |i: int| Op::Mount { id: ns[os.len() + i].node_id, parent: Some(old.node_id) }));
    }
}

/// Shrinking a container: when the new node equals the old one but has
/// only copies of its first children, the patch tears down exactly the
/// subtrees of the remaining old children, in order; for leaves that is one
/// removal each.
pub proof fn lemma_children_shrink(old: Node, new: Node, parent: Option<usize>)
    requires
        old.kind == new.kind,
        old.props == new.props,
        old.values@ == new.values@,
        new.children@.len() <= old.children@.len(),
        forall|i: int| 0 <= i < new.children@.len() ==> #[trigger] new.children@[i] == old.children@[i],
    ensures
        patch_ops(old, new, parent) == unmount_all(old.children@.subrange(new.children@.len() as int, old.children@.len() as int)),
        (forall|i: int| new.children@.len() <= i < old.children@.len() ==> is_leaf(#[trigger] old.children@[i]))
            ==> patch_ops(old, new, parent) == Seq::new((old.children@.len() - new.children@.len()) as nat,
                |i: int| Op::Unmount { id: old.children@[new.children@.len() + i].node_id }),
{
    let os = old.children@;
    let ns = new.children@;
    let extra = os.subrange(ns.len() as int, os.len() as int);
    lemma_prop_ops_same(old.node_id, old.props);
    lemma_value_ops_same(old.node_id, old.values@, old.values@.len());
    lemma_paired_ops_agree(os, ns, old.node_id, ns.len());
    assert(tail_from(ns, os.len() as int) =~= Seq::<Node>::empty());
    assert(mount_all(Seq::<Node>::empty(), old.node_id) =~= Seq::<Op>::empty());
    if os.len() == ns.len() {
        assert(tail_from(os, ns.len() as int) =~= extra);
    }
    assert(patch_ops(old, new, parent) =~= unmount_all(extra));
    if forall|i: int| ns.len() <= i < os.len() ==> is_leaf(#[trigger] os[i]) {
        assert forall|i: int| 0 <= i < extra.len() implies is_leaf(#[trigger] extra[i]) by {
            assert(extra[i] == os[ns.len() + i]);
        }
        lemma_unmount_leaves(extra);
        assert(unmount_all(extra) =~= Seq::new((os.len() - ns.len()) as nat,
            |i: int| Op::Unmount { id: os[ns.len() + i].node_id }));
    }
}

} // verus!
