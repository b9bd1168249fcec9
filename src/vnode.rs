use vstd::prelude::*;
use crate::id::{next_id, IdAssigner};

verus! {

/// Which concrete control or container a node stands for. Two nodes of the
/// same kind are reconciled in place; a change of kind replaces the widget.
#[derive(Clone, Copy, Debug, PartialEq, Eq, Structural)]
pub enum VNodeType {
    Column,
    Row,
    Button,
    Frame,
    Input,
    MenuBar,
    RadioButton,
    ToggleButton,
    RoundButton,
    CheckButton,
    LightButton,
    RepeatButton,
    RadioLightButton,
    RadioRoundButton,
    ReturnButton,
    ShortcutButton,
    Group,
    Pack,
    HorPack,
    Tabs,
    Scroll,
    Tile,
    Wizard,
    ColorChooser,
    Grid,
    TextDisplay,
    TextEditor,
    IntInput,
    FloatInput,
    MultilineInput,
    SecretInput,
    FileInput,
    Output,
    MultilineOutput,
    Choice,
    SysMenuBar,
    MenuButton,
    Slider,
    NiceSlider,
    ValueSlider,
    Dial,
    LineDial,
    Counter,
    Scrollbar,
    HorScrollbar,
    Roller,
    Adjuster,
    ValueInput,
    ValueOutput,
    FillSlider,
    FillDial,
    HorSlider,
    HorFillSlider,
    HorNiceSlider,
    HorValueSlider,
    Browser,
    SelectBrowser,
    HoldBrowser,
    MultiBrowser,
    FileBrowser,
    CheckBrowser,
    Spinner,
    Clock,
    Chart,
    Progress,
    InputChoice,
    HelpView,
    Table,
    TableRow,
    SmartTable,
    Tree,
    /// A user-defined control, told apart from others by its tag.
    Other(u64),
}

/// Properties that every widget kind has. Each is optional: an absent one is
/// left as the toolkit chose it. Colors, frame types, fonts, alignments and
/// callback triggers are the toolkit's numeric codes.
#[derive(Clone, Debug)]
pub struct WidgetProps {
    pub label: Option<String>,
    pub fixed: Option<i32>,
    pub boxtype: Option<i32>,
    pub color: Option<u32>,
    pub selection_color: Option<u32>,
    pub label_color: Option<u32>,
    pub label_font: Option<i32>,
    pub label_size: Option<i32>,
    pub tooltip: Option<String>,
    pub align: Option<i32>,
    pub when: Option<i32>,
    pub visible: Option<bool>,
    pub deactivate: Option<bool>,
    pub x: Option<i32>,
    pub y: Option<i32>,
    pub w: Option<i32>,
    pub h: Option<i32>,
}

/// The text of an optional string, as a mathematical value.
pub open spec fn text_of(s: Option<String>) -> Option<Seq<char>> {
    match s {
        Some(t) => Some(t@),
        None => None,
    }
}

impl WidgetProps {
    /// Every property absent.
    pub open spec fn is_unset(&self) -> bool {
        &&& self.label is None
        &&& self.fixed is None
        &&& self.boxtype is None
        &&& self.color is None
        &&& self.selection_color is None
        &&& self.label_color is None
        &&& self.label_font is None
        &&& self.label_size is None
        &&& self.tooltip is None
        &&& self.align is None
        &&& self.when is None
        &&& self.visible is None
        &&& self.deactivate is None
        &&& self.x is None
        &&& self.y is None
        &&& self.w is None
        &&& self.h is None
    }
}

impl Default for WidgetProps {
    fn default() -> (r: WidgetProps)
        ensures
            r.is_unset(),
    {
        WidgetProps {
            label: None,
            fixed: None,
            boxtype: None,
            color: None,
            selection_color: None,
            label_color: None,
            label_font: None,
            label_size: None,
            tooltip: None,
            align: None,
            when: None,
            visible: None,
            deactivate: None,
            x: None,
            y: None,
            w: None,
            h: None,
        }
    }
}

/// One kind-specific property of a widget: a toggle state, a number (a
/// selection index, a range bound in the toolkit's units) or a text value.
#[derive(Clone, Debug)]
pub enum Value {
    Unset,
    Flag(bool),
    Int(i64),
    Text(String),
}

impl Value {
    /// Equality of values, texts compared by their characters.
    pub open spec fn same_as(&self, o: &Value) -> bool {
        match (self, o) {
            (Value::Unset, Value::Unset) => true,
            (Value::Flag(a), Value::Flag(b)) => a == b,
            (Value::Int(a), Value::Int(b)) => a == b,
            (Value::Text(a), Value::Text(b)) => a@ == b@,
            _ => false,
        }
    }
}

/// The description of one UI element: its kind, its identity for this
/// render, its generic and kind-specific properties, and its children, in
/// order (none for a control that is not a container).
#[derive(Debug)]
pub struct Node {
    pub kind: VNodeType,
    pub node_id: usize,
    pub props: WidgetProps,
    pub values: Vec<Value>,
    pub children: Vec<Node>,
}

/// What a depth-first walk sees of a node, apart from its children
/// themselves: everything but the identity, and the number of children.
pub struct Outline {
    pub kind: VNodeType,
    pub props: WidgetProps,
    pub values: Seq<Value>,
    pub arity: nat,
}

pub open spec fn outline_of(n: Node) -> Outline {
    Outline { kind: n.kind, props: n.props, values: n.values@, arity: n.children@.len() }
}

/// The nodes of a tree in depth-first order, each node before its children.
pub open spec fn preorder(n: Node) -> Seq<Node>
    decreases n, 1nat,
{
    seq![n] + preorder_all(n.children@)
}

/// The depth-first walks of a list of trees, one after the other.
pub open spec fn preorder_all(s: Seq<Node>) -> Seq<Node>
    decreases s, 0nat,
{
    if s.len() == 0 {
        Seq::empty()
    } else {
        preorder_all(s.subrange(0, s.len() - 1)) + preorder(s[s.len() - 1])
    }
}

/// The number of nodes in a tree.
pub open spec fn tree_size(n: Node) -> nat {
    preorder(n).len()
}

/// The identities of a tree's nodes, in depth-first order.
pub open spec fn ids_of(n: Node) -> Seq<usize> {
    preorder(n).map_values(|m: Node| m.node_id)
}

/// A tree's shape and content without identities, in depth-first order.
pub open spec fn outlines_of(n: Node) -> Seq<Outline> {
    preorder(n).map_values(|m: Node| outline_of(m))
}

/// The consecutive identities `start`, `start + 1`, ... of `len` nodes.
pub open spec fn id_range(start: nat, len: nat) -> Seq<usize> {
    Seq::new(len, |i: int| (start + i) as usize)
}

/// The walk of two lists of trees placed end to end is the walk of the
/// first followed by that of the second.
pub proof fn lemma_preorder_all_concat(a: Seq<Node>, b: Seq<Node>)
    ensures
        preorder_all(a + b) == preorder_all(a) + preorder_all(b),
    decreases b.len(),
{
    if b.len() == 0 {
        assert(a + b =~= a);
        assert(preorder_all(b) =~= Seq::<Node>::empty());
        assert(preorder_all(a) + preorder_all(b) =~= preorder_all(a));
    } else {
        let ab = a + b;
        let bl = b.subrange(0, b.len() - 1);
        assert(ab.subrange(0, ab.len() - 1) =~= a + bl);
        assert(ab[ab.len() - 1] == b[b.len() - 1]);
        lemma_preorder_all_concat(a, bl);
        assert(preorder_all(ab) =~= preorder_all(a) + preorder_all(b));
    }
}

/// Walking the first `i + 1` trees of a list is walking the first `i` and then
/// the tree at `i`.
pub proof fn lemma_preorder_all_step(s: Seq<Node>, i: int)
    requires
        0 <= i < s.len(),
    ensures
        preorder_all(s.take(i + 1)) == preorder_all(s.take(i)) + preorder(s[i]),
{
    let t = s.take(i + 1);
    assert(t.subrange(0, t.len() - 1) =~= s.take(i));
    assert(t[t.len() - 1] == s[i]);
}

/// A list's walk is its first `i` trees' walk followed by the rest's.
pub proof fn lemma_preorder_all_split(s: Seq<Node>, i: int)
    requires
        0 <= i <= s.len(),
    ensures
        preorder_all(s) == preorder_all(s.take(i)) + preorder_all(s.skip(i)),
{
    assert(s =~= s.take(i) + s.skip(i));
    lemma_preorder_all_concat(s.take(i), s.skip(i));
}

/// Gives each node of the tree an identity from `ids`, in depth-first order,
/// each node before its children: the n-th node visited gets the counter's
/// value plus n. Nothing but the identities changes.
pub fn assign_ids_topdown(n: &mut Node, ids: &mut IdAssigner)
    requires
        old(ids).peek() + tree_size(*old(n)) <= usize::MAX,
    ensures
        ids_of(*final(n)) == id_range(old(ids).peek(), tree_size(*old(n))),
        outlines_of(*final(n)) == outlines_of(*old(n)),
        final(ids).peek() == old(ids).peek() + tree_size(*old(n)),
    decreases tree_size(*old(n)),
{
    let ghost start = ids.peek();
    let ghost orig = *n;
    let ghost kids = orig.children@;
    proof {
        lemma_preorder_all_split(kids, kids.len() as int);
        assert(kids.take(kids.len() as int) =~= kids);
    }
    let id = next_id(ids);
    n.node_id = id;
    let len = n.children.len();
    let mut i: usize = 0;
    assert(kids.take(0) =~= Seq::<Node>::empty());
    assert(n.children@.take(0) =~= Seq::<Node>::empty());
    while i < len
        invariant
            0 <= i <= len == kids.len() == n.children@.len(),
            kids == orig.children@,
            orig == *old(n),
            n.kind == orig.kind,
            n.node_id == start,
            n.props == orig.props,
            n.values@ == orig.values@,
            forall|j: int| i <= j < len ==> n.children@[j] == kids[j],
            preorder_all(n.children@.take(i as int)).map_values(|m: Node| m.node_id)
                == id_range(start + 1, preorder_all(kids.take(i as int)).len()),
            preorder_all(n.children@.take(i as int)).map_values(|m: Node| outline_of(m))
                == preorder_all(kids.take(i as int)).map_values(|m: Node| outline_of(m)),
            ids.peek() == start + 1 + preorder_all(kids.take(i as int)).len(),
            start + 1 + preorder_all(kids).len() <= usize::MAX,
            preorder_all(kids) == preorder_all(kids.take(i as int)) + preorder_all(kids.skip(i as int)),
        decreases len - i,
    {
        let ghost before = n.children@;
        proof {
            lemma_preorder_all_step(kids, i as int);
            lemma_preorder_all_split(kids, i as int + 1);
            assert(preorder(orig) == seq![orig] + preorder_all(kids));
            assert(preorder_all(kids).len() >= preorder(kids[i as int]).len());
            assert(tree_size(kids[i as int]) < tree_size(orig));
            assert(n.children@[i as int] == kids[i as int]);
        }
        assign_ids_topdown(&mut n.children[i], ids);
        proof {
            let after = n.children@;
            lemma_preorder_all_step(after, i as int);
            lemma_preorder_all_step(before, i as int);
            assert(after.take(i as int) =~= before.take(i as int));
            let p = preorder_all(after.take(i as int));
            let q = preorder(after[i as int]);
            assert((p + q).map_values(|m: Node| m.node_id)
                =~= p.map_values(|m: Node| m.node_id) + q.map_values(|m: Node| m.node_id));
            assert((p + q).map_values(|m: Node| outline_of(m))
                =~= p.map_values(|m: Node| outline_of(m)) + q.map_values(|m: Node| outline_of(m)));
            let p0 = preorder_all(kids.take(i as int));
            let q0 = preorder(kids[i as int]);
            assert((p0 + q0).map_values(|m: Node| outline_of(m))
                =~= p0.map_values(|m: Node| outline_of(m)) + q0.map_values(|m: Node| outline_of(m)));
            assert(id_range(start + 1, (p0 + q0).len())
                =~= id_range(start + 1, p0.len()) + id_range(start + 1 + p0.len(), q0.len()));
        }
        i = i + 1;
    }
    proof {
        assert(n.children@.take(len as int) =~= n.children@);
        assert(kids.take(len as int) =~= kids);
        let p = preorder_all(n.children@);
        assert(preorder(*n) == seq![*n] + p);
        assert(preorder(orig) == seq![orig] + preorder_all(kids));
        assert((seq![*n] + p).map_values(|m: Node| m.node_id)
            =~= seq![n.node_id] + p.map_values(|m: Node| m.node_id));
        assert(id_range(start, 1 + p.len()) =~= seq![start as usize] + id_range(start + 1, p.len()));
        assert((seq![*n] + p).map_values(|m: Node| outline_of(m))
            =~= seq![outline_of(*n)] + p.map_values(|m: Node| outline_of(m)));
        assert((seq![orig] + preorder_all(kids)).map_values(|m: Node| outline_of(m))
            =~= seq![outline_of(orig)] + preorder_all(kids).map_values(|m: Node| outline_of(m)));
    }
}

/// A tree's shape: the kind and the number of children of each node, in
/// depth-first order.
pub open spec fn shape_of(n: Node) -> Seq<(VNodeType, nat)> {
    preorder(n).map_values(|m: Node| (m.kind, m.children@.len()))
}

/// Two renders whose trees have the same shape, each numbered by
/// `assign_ids_topdown` from the same counter value, give the n-th node in
/// depth-first order the same identity in both trees.
pub proof fn lemma_identity_stability(a: Node, a_numbered: Node, b: Node, b_numbered: Node, start: nat)
    requires
        shape_of(a) == shape_of(b),
        ids_of(a_numbered) == id_range(start, tree_size(a)),
        ids_of(b_numbered) == id_range(start, tree_size(b)),
    ensures
        ids_of(a_numbered) == ids_of(b_numbered),
        forall|i: int| 0 <= i < tree_size(a_numbered) ==> #[trigger] preorder(a_numbered)[i].node_id == preorder(b_numbered)[i].node_id,
{
    assert(shape_of(a).len() == tree_size(a));
    assert(shape_of(b).len() == tree_size(b));
    assert(ids_of(a_numbered).len() == tree_size(a_numbered));
    assert(ids_of(b_numbered).len() == tree_size(b_numbered));
    assert forall|i: int| 0 <= i < tree_size(a_numbered) implies #[trigger] preorder(a_numbered)[i].node_id == preorder(b_numbered)[i].node_id by {
        assert(ids_of(a_numbered)[i] == preorder(a_numbered)[i].node_id);
        assert(ids_of(b_numbered)[i] == preorder(b_numbered)[i].node_id);
    }
}

/// A child's subtree is smaller than its parent's tree.
pub proof fn lemma_child_smaller(n: Node, i: int)
    requires
        0 <= i < n.children@.len(),
    ensures
        tree_size(n.children@[i]) < tree_size(n),
{
    let kids = n.children@;
    assert(preorder(n) == seq![n] + preorder_all(kids));
    lemma_preorder_all_step(kids, i);
    lemma_preorder_all_split(kids, i + 1);
}

impl Node {
    /// A node of `kind` with the given children, no property set, and the
    /// identity zero until the tree is numbered.
    pub fn new(kind: VNodeType, children: Vec<Node>) -> (r: Node)
        ensures
            r.kind == kind,
            r.node_id == 0,
            r.props.is_unset(),
            r.values@.len() == 0,
            r.children@ == children@,
    {
        Node { kind, node_id: 0, props: WidgetProps::default(), values: Vec::new(), children }
    }

    /// A node of `kind` without children.
    pub fn leaf(kind: VNodeType) -> (r: Node)
        ensures
            r.kind == kind,
            r.node_id == 0,
            r.props.is_unset(),
            r.values@.len() == 0,
            r.children@.len() == 0,
    {
        Node::new(kind, Vec::new())
    }

    pub fn label(self, label: &str) -> (r: Node)
        ensures
            r.props.label is Some,
            r.props.label->0@ == label@,
            r.kind == self.kind,
            r.node_id == self.node_id,
            r.values == self.values,
            r.children == self.children,
    {
        let mut r = self;
        r.props.label = Some(label.to_owned());
        r
    }

    pub fn fixed(self, size: i32) -> (r: Node)
        ensures
            r.props.fixed == Some(size),
            r.props.label == self.props.label,
            r.kind == self.kind,
            r.node_id == self.node_id,
            r.values == self.values,
            r.children == self.children,
    {
        let mut r = self;
        r.props.fixed = Some(size);
        r
    }

    pub fn visible(self, visible: bool) -> (r: Node)
        ensures
            r.props.visible == Some(visible),
            r.props.label == self.props.label,
            r.kind == self.kind,
            r.node_id == self.node_id,
            r.values == self.values,
            r.children == self.children,
    {
        let mut r = self;
        r.props.visible = Some(visible);
        r
    }

    /// Appends a kind-specific property.
    pub fn value(self, v: Value) -> (r: Node)
        ensures
            r.values@ == self.values@.push(v),
            r.props == self.props,
            r.kind == self.kind,
            r.node_id == self.node_id,
            r.children == self.children,
    {
        let mut r = self;
        r.values.push(v);
        r
    }
}

} // verus!
