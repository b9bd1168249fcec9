use vstd::prelude::*;
use crate::diff::{adopted, mount_ops, patch_node, patch_ops, push_mount_ops, Op};
use crate::vnode::Node;

verus! {

/// Whether `ops` tears down the widget of node `id`.
pub open spec fn unmounts(ops: Seq<Op>, id: usize) -> bool {
    exists|i: int| 0 <= i < ops.len() && ops[i] == (Op::Unmount { id })
}

/// The observers `entries` once those owned by the nodes that `ops` tears
/// down are removed, one teardown after the other.
pub open spec fn drop_owners<C>(entries: Seq<(usize, C)>, ops: Seq<Op>) -> Seq<(usize, C)>
    decreases ops.len(),
{
    if ops.len() == 0 {
        entries
    } else {
        let rest = drop_owners(entries, ops.drop_last());
        match ops.last() {
            Op::Unmount { id } => rest.filter(|e: (usize, C)| e.0 != id),
            _ => rest,
        }
    }
}

/// Holds the current tree, whose widgets are live, and the message
/// observers that nodes registered, each under the identity of its owner.
pub struct VirtualDom<C> {
    root: Node,
    subscribers: Vec<(usize, C)>,
}

impl<C> VirtualDom<C> {
    /// The tree whose widgets are live.
    pub closed spec fn root(&self) -> Node {
        self.root
    }

    /// The observers, in the order of registration, with their owners.
    pub closed spec fn entries(&self) -> Seq<(usize, C)> {
        self.subscribers@
    }

    /// Takes `root` as the current tree, with no observer, and returns what
    /// mounting all of it takes.
    pub fn new(root: Node) -> (r: (VirtualDom<C>, Vec<Op>))
        ensures
            r.0.root() == root,
            r.0.entries() == Seq::<(usize, C)>::empty(),
            r.1@ == mount_ops(root, None),
    {
        let mut ops: Vec<Op> = Vec::new();
        push_mount_ops(&root, None, &mut ops);
        assert(ops@ =~= mount_ops(root, None));
        (VirtualDom { root, subscribers: Vec::new() }, ops)
    }

    /// The current tree.
    pub fn current(&self) -> (r: &Node)
        ensures
            *r == self.root(),
    {
        &self.root
    }

    /// The number of observers.
    pub fn subscriber_count(&self) -> (r: usize)
        ensures
            r == self.entries().len(),
    {
        self.subscribers.len()
    }

    /// The owner of observer `i`.
    pub fn subscriber_owner(&self, i: usize) -> (r: usize)
        requires
            i < self.entries().len(),
        ensures
            r == self.entries()[i as int].0,
    {
        self.subscribers[i].0
    }

    /// Registers `callback` as an observer owned by node `owner`, after the
    /// others.
    pub fn subscribe_owned(&mut self, owner: usize, callback: C)
        ensures
            final(self).root() == old(self).root(),
            final(self).entries() == old(self).entries().push((owner, callback)),
    {
        self.subscribers.push((owner, callback));
    }

    /// Removes every observer owned by node `owner`, keeping the order of the
    /// others.
    pub fn unsubscribe_owner(&mut self, owner: usize)
        ensures
            final(self).root() == old(self).root(),
            final(self).entries() == old(self).entries().filter(|e: (usize, C)| e.0 != owner),
    {
        let ghost orig = self.subscribers@;
        let ghost keep = |e: (usize, C)| e.0 != owner;
        let mut rest: Vec<(usize, C)> = Vec::new();
        std::mem::swap(&mut self.subscribers, &mut rest);
        let len = rest.len();
        let mut k: usize = 0;
        proof {
            reveal(Seq::filter);
            assert(orig.take(0) =~= Seq::<(usize, C)>::empty());
            assert(self.subscribers@ =~= orig.take(0).filter(keep));
            assert(rest@ =~= orig.skip(0));
        }
        while k < len
            invariant
                k <= len == orig.len(),
                self.subscribers@ == orig.take(k as int).filter(keep),
                rest@ == orig.skip(k as int),
                self.root == old(self).root,
                keep == (|e: (usize, C)| e.0 != owner),
            decreases len - k,
        {
            let e = rest.remove(0);
            let ghost t = orig.take(k + 1);
            proof {
                reveal(Seq::filter);
                assert(t.drop_last() =~= orig.take(k as int));
                assert(t.last() == e);
                assert(rest@ =~= orig.skip(k + 1));
                assert(t.filter(keep) == (if keep(e) { orig.take(k as int).filter(keep).push(e) } else { orig.take(k as int).filter(keep) }));
            }
            if e.0 != owner {
                self.subscribers.push(e);
            }
            k = k + 1;
        }
        assert(orig.take(len as int) =~= orig);
    }

    /// Hands `message` to every observer, in the order of registration.
    pub fn dispatch<M>(&self, message: &M)
        where
            C: Fn(&M),
        requires
            forall|i: int| 0 <= i < self.entries().len() ==> (#[trigger] self.entries()[i]).1.requires((message,)),
    {
        let len = self.subscribers.len();
        let mut i: usize = 0;
        while i < len
            invariant
                i <= len == self.entries().len(),
                forall|j: int| 0 <= j < self.entries().len() ==> (#[trigger] self.entries()[j]).1.requires((message,)),
            decreases len - i,
        {
            (self.subscribers[i].1)(message);
            i = i + 1;
        }
    }

    /// Reconciles `new` against the current tree, which it then replaces:
    /// returns what the live widgets need, and drops the observers owned by
    /// every node torn down.
    pub fn patch(&mut self, new: Node) -> (ops: Vec<Op>)
        ensures
            ops@ == patch_ops(old(self).root(), new, None),
            adopted(old(self).root(), new, final(self).root()),
            final(self).entries() == drop_owners(old(self).entries(), ops@),
    {
        let mut new = new;
        let mut ops: Vec<Op> = Vec::new();
        patch_node(&self.root, &mut new, None, &mut ops);
        self.root = new;
        let ghost patched = self.root;
        let len = ops.len();
        let mut i: usize = 0;
        let ghost orig = self.subscribers@;
        assert(ops@.take(0) =~= Seq::<Op>::empty());
        while i < len
            invariant
                i <= len == ops@.len(),
                self.subscribers@ == drop_owners(orig, ops@.take(i as int)),
                self.root == patched,
            decreases len - i,
        {
            proof {
                assert(ops@.take(i + 1).drop_last() =~= ops@.take(i as int));
                assert(ops@.take(i + 1).last() == ops@[i as int]);
            }
            match &ops[i] {
                Op::Unmount { id } => self.unsubscribe_owner(*id),
                _ => {},
            }
            i = i + 1;
        }
        assert(ops@.take(len as int) =~= ops@);
        ops
    }
}

/// Once the observers of the nodes that `ops` tears down are dropped, no
/// observer is left whose owner was torn down, and each one left was
/// registered before.
pub proof fn lemma_torn_down_owners_gone<C>(entries: Seq<(usize, C)>, ops: Seq<Op>)
    ensures
        forall|i: int| 0 <= i < drop_owners(entries, ops).len() ==> {
            &&& !unmounts(ops, (#[trigger] drop_owners(entries, ops)[i]).0)
            &&& entries.contains(drop_owners(entries, ops)[i])
        },
    decreases ops.len(),
{
    if ops.len() > 0 {
        let prev_ops = ops.drop_last();
        lemma_torn_down_owners_gone(entries, prev_ops);
        let rest = drop_owners(entries, prev_ops);
        let out = drop_owners(entries, ops);
        assert forall|i: int| 0 <= i < out.len() implies {
            &&& !unmounts(ops, (#[trigger] out[i]).0)
            &&& entries.contains(out[i])
        } by {
            let e = out[i];
            match ops.last() {
                Op::Unmount { id } => {
                    let keep = |x: (usize, C)| x.0 != id;
                    rest.lemma_filter_pred(keep, i);
                    assert(rest.filter(keep).contains(e));
                    rest.lemma_filter_contains_rev(keep, e);
                    let j = choose|j: int| 0 <= j < rest.len() && rest[j] == e;
                    assert(!unmounts(prev_ops, rest[j].0));
                },
                _ => {
                    assert(out[i] == rest[i]);
                },
            }
            assert forall|k: int| 0 <= k < ops.len() implies ops[k] != (Op::Unmount { id: e.0 }) by {
                if k < ops.len() - 1 {
                    assert(ops[k] == prev_ops[k]);
                }
            }
        }
    }
}

} // verus!
