use vstd::prelude::*;
use crate::diff::{adopted, mount_ops, patch_ops, Op};
use crate::id::{reset_id, IdAssigner, FIRST_ID};
use crate::subscription::{cancels, next_slot, spawns, sub_hash, Decision, SlotState, Subscription, SubscriptionSlot};
use crate::vdom::{drop_owners, VirtualDom};
use crate::vnode::{assign_ids_topdown, id_range, ids_of, outlines_of, tree_size, Node};

verus! {

/// `numbered` is `view` with identities given depth-first from the first
/// identifier on.
pub open spec fn numbered_from_start(view: Node, numbered: Node) -> bool {
    &&& ids_of(numbered) == id_range(FIRST_ID as nat, tree_size(view))
    &&& outlines_of(numbered) == outlines_of(view)
}

/// The part of the application loop that decides: it numbers each freshly
/// rendered tree, reconciles it against the live one, and tracks the
/// running subscription. Observers are registered with the store.
pub struct Driver<C> {
    dom: VirtualDom<C>,
    ids: IdAssigner,
    slot: SubscriptionSlot,
}

impl<C> Driver<C> {
    pub closed spec fn root(&self) -> Node {
        self.dom.root()
    }

    pub closed spec fn entries(&self) -> Seq<(usize, C)> {
        self.dom.entries()
    }

    pub closed spec fn slot(&self) -> SlotState {
        self.slot.state()
    }

    /// Numbers the first rendered tree and mounts it; no subscription runs
    /// yet.
    pub fn start(view: Node) -> (r: (Driver<C>, Vec<Op>))
        requires
            FIRST_ID + tree_size(view) <= usize::MAX,
        ensures
            numbered_from_start(view, r.0.root()),
            r.1@ == mount_ops(r.0.root(), None),
            r.0.entries() == Seq::<(usize, C)>::empty(),
            r.0.slot() == (SlotState { hash: 0, running: false }),
    {
        let mut ids = IdAssigner::new();
        let mut view = view;
        assign_ids_topdown(&mut view, &mut ids);
        let (dom, ops) = VirtualDom::new(view);
        (Driver { dom, ids, slot: SubscriptionSlot::new() }, ops)
    }

    /// The store, to dispatch a message to its observers.
    pub fn dom(&self) -> (r: &VirtualDom<C>)
        ensures
            r.root() == self.root(),
            r.entries() == self.entries(),
    {
        &self.dom
    }

    /// Registers an observer owned by node `owner`.
    pub fn subscribe_owned(&mut self, owner: usize, callback: C)
        ensures
            final(self).root() == old(self).root(),
            final(self).slot() == old(self).slot(),
            final(self).entries() == old(self).entries().push((owner, callback)),
    {
        self.dom.subscribe_owned(owner, callback);
    }

    /// Takes the tree that the view function rendered after an update:
    /// numbers it from the first identifier on and patches the live tree
    /// with it. Returns what the live widgets need.
    pub fn render(&mut self, view: Node) -> (ops: Vec<Op>)
        requires
            FIRST_ID + tree_size(view) <= usize::MAX,
        ensures
            final(self).slot() == old(self).slot(),
            exists|numbered: Node| {
                &&& numbered_from_start(view, numbered)
                &&& ops@ == patch_ops(old(self).root(), numbered, None)
                &&& adopted(old(self).root(), numbered, final(self).root())
                &&& final(self).entries() == drop_owners(old(self).entries(), ops@)
            },
    {
        reset_id(&mut self.ids);
        let mut view = view;
        let ghost before = view;
        assign_ids_topdown(&mut view, &mut self.ids);
        let ghost numbered = view;
        let ops = self.dom.patch(view);
        assert(numbered_from_start(before, numbered));
        ops
    }

    /// Runs the subscription runtime on the subscription of this render.
    pub fn resubscribe<P>(&mut self, sub: Subscription<P>) -> (d: Decision<P>)
        ensures
            final(self).root() == old(self).root(),
            final(self).entries() == old(self).entries(),
            final(self).slot() == next_slot(old(self).slot(), sub_hash(sub), sub is Recipe),
            (d is Keep) == (sub_hash(sub) == old(self).slot().hash),
            d is Replace ==> d->cancel_running == cancels(old(self).slot(), sub_hash(sub)),
            d is Replace ==> d->spawn == sub,
            spawns(old(self).slot(), sub_hash(sub), sub is Recipe) == (d is Replace && d->spawn is Recipe),
    {
        self.slot.render_cycle(sub)
    }
}

} // verus!
