use vstd::prelude::*;
use std::marker::PhantomData;
use std::sync::atomic::AtomicBool;
use std::sync::Arc;

verus! {

/// The hash that fxhash's 64-bit hasher gives a list of words.
pub uninterp spec fn fx_hash_of(words: Seq<u64>) -> u64;

/// Relies on `fxhash::hash64`: a deterministic hash of the slice's
/// contents, the same for the same words in every process.
#[verifier::external_body]
fn fx_hash_words(words: &Vec<u64>) -> (r: u64)
    ensures
        r == fx_hash_of(words@),
{
    fxhash::hash64(words.as_slice())
}

/// Tags that keep the configurations of different recipes apart.
pub const EVERY_TAG: u64 = 1;
pub const EVENTS_TAG: u64 = 2;
pub const CUSTOM_TAG: u64 = 3;

/// The static configuration of a long-running message source: what its
/// content hash is made of. Its running state is not part of it.
#[derive(Debug)]
pub enum Recipe {
    /// A timer that yields a timestamp once per period.
    Every { period_nanos: u64 },
    /// A tap on native events, sampled once per interval, that yields an
    /// event only when it differs from the one it yielded before.
    Events { interval_nanos: u64 },
    /// A source of the user's, told apart by its tag.
    Custom { tag: u64 },
    /// Another recipe whose outputs go through a mapper, told apart by its
    /// tag.
    Mapped { inner: Box<Recipe>, mapper: u64 },
}

/// The words that a recipe's hash is taken over: its own configuration,
/// after that of the recipe it maps.
pub open spec fn recipe_words(r: Recipe) -> Seq<u64>
    decreases r,
{
    match r {
        Recipe::Every { period_nanos } => seq![EVERY_TAG, period_nanos],
        Recipe::Events { interval_nanos } => seq![EVENTS_TAG, interval_nanos],
        Recipe::Custom { tag } => seq![CUSTOM_TAG, tag],
        Recipe::Mapped { inner, mapper } => recipe_words(*inner).push(mapper),
    }
}

/// The content hash of a recipe.
pub open spec fn recipe_hash_of(r: Recipe) -> u64 {
    fx_hash_of(recipe_words(r))
}

fn push_recipe_words(r: &Recipe, words: &mut Vec<u64>)
    ensures
        final(words)@ == old(words)@ + recipe_words(*r),
    decreases r,
{
    match r {
        Recipe::Every { period_nanos } => {
            words.push(EVERY_TAG);
            words.push(*period_nanos);
        },
        Recipe::Events { interval_nanos } => {
            words.push(EVENTS_TAG);
            words.push(*interval_nanos);
        },
        Recipe::Custom { tag } => {
            words.push(CUSTOM_TAG);
            words.push(*tag);
        },
        Recipe::Mapped { inner, mapper } => {
            push_recipe_words(inner, words);
            words.push(*mapper);
        },
    }
    assert(words@ =~= old(words)@ + recipe_words(*r));
}

impl Recipe {
    /// A timer recipe with the given period.
    pub fn every(period_nanos: u64) -> (r: Recipe)
        ensures
            r == (Recipe::Every { period_nanos }),
    {
        Recipe::Every { period_nanos }
    }

    /// Wraps the recipe so that its outputs go through the mapper with tag
    /// `mapper`; the hash still follows the inner recipe's configuration.
    pub fn map(self, mapper: u64) -> (r: Recipe)
        ensures
            r == (Recipe::Mapped { inner: Box::new(self), mapper }),
            recipe_words(r) == recipe_words(self).push(mapper),
    {
        Recipe::Mapped { inner: Box::new(self), mapper }
    }

    /// The content hash over the recipe's static configuration.
    pub fn hash(&self) -> (h: u64)
        ensures
            h == recipe_hash_of(*self),
    {
        let mut words: Vec<u64> = Vec::new();
        push_recipe_words(self, &mut words);
        assert(words@ =~= recipe_words(*self));
        fx_hash_words(&words)
    }
}

/// A subscription as the user's subscription function describes it: none,
/// or a recipe with the source that produces its messages (of a type that
/// the runtime around the library picks), and optionally a cancellation flag
/// of the user's that the producer polls.
pub enum Subscription<P> {
    Idle,
    Recipe { recipe: Recipe, source: P, cancel_flag: Option<Arc<AtomicBool>> },
}

/// The content hash of a subscription: zero for none.
pub open spec fn sub_hash<P>(s: Subscription<P>) -> u64 {
    match s {
        Subscription::Idle => 0,
        Subscription::Recipe { recipe, .. } => recipe_hash_of(recipe),
    }
}

impl<P> Subscription<P> {
    pub fn none() -> (r: Subscription<P>)
        ensures
            r is Idle,
    {
        Subscription::Idle
    }

    pub fn from_recipe(recipe: Recipe, source: P) -> (r: Subscription<P>)
        ensures
            r == (Subscription::Recipe { recipe, source, cancel_flag: None }),
    {
        Subscription::Recipe { recipe, source, cancel_flag: None }
    }

    /// Attaches a cancellation flag to a recipe; none stays none.
    pub fn cancelable(self, flag: Arc<AtomicBool>) -> (r: Subscription<P>)
        ensures
            match self {
                Subscription::Idle => r is Idle,
                Subscription::Recipe { recipe, source, .. } =>
                    r == (Subscription::Recipe { recipe, source, cancel_flag: Some(flag) }),
            },
    {
        match self {
            Subscription::Idle => Subscription::Idle,
            Subscription::Recipe { recipe, source, .. } => Subscription::Recipe { recipe, source, cancel_flag: Some(flag) },
        }
    }

    /// Routes the outputs through the mapper with tag `mapper`, wrapping the
    /// recipe and the source alike; none stays none.
    pub fn map<Q>(self, mapper: u64, wrap: impl FnOnce(P) -> Q) -> (r: Subscription<Q>)
        requires
            match self {
                Subscription::Idle => true,
                Subscription::Recipe { source, .. } => call_requires(wrap, (source,)),
            },
        ensures
            match (self, r) {
                (Subscription::Idle, Subscription::Idle) => true,
                (Subscription::Recipe { recipe: r0, source: s0, cancel_flag: c0 }, Subscription::Recipe { recipe: r1, source: s1, cancel_flag: c1 }) =>
                    r1 == (Recipe::Mapped { inner: Box::new(r0), mapper }) && c1 == c0 && call_ensures(wrap, (s0,), s1),
                _ => false,
            },
    {
        match self {
            Subscription::Idle => Subscription::Idle,
            Subscription::Recipe { recipe, source, cancel_flag } => {
                let source = wrap(source);
                Subscription::Recipe { recipe: recipe.map(mapper), source, cancel_flag }
            },
        }
    }

    /// The content hash of the subscription: zero for none.
    pub fn hash(&self) -> (h: u64)
        ensures
            h == sub_hash(*self),
    {
        match self {
            Subscription::Idle => 0,
            Subscription::Recipe { recipe, .. } => recipe.hash(),
        }
    }
}

/// What the runtime does with the subscription of one render.
pub enum Decision<P> {
    /// The subscription did not change: the running producer, if any, goes
    /// on and the new description is dropped.
    Keep,
    /// It changed: set the running producer's cancellation flag if one runs,
    /// then start a producer for `spawn` unless it is none.
    Replace { cancel_running: bool, spawn: Subscription<P> },
}

/// The state of one subscription slot: the hash of the subscription it
/// last took, and whether a producer was started for it.
pub struct SlotState {
    pub hash: u64,
    pub running: bool,
}

/// The slot after a render whose subscription has hash `new_hash`.
pub open spec fn next_slot(s: SlotState, new_hash: u64, is_recipe: bool) -> SlotState {
    if new_hash == s.hash {
        s
    } else {
        SlotState { hash: new_hash, running: is_recipe }
    }
}

/// The render with hash `new_hash` stops the running producer.
pub open spec fn cancels(s: SlotState, new_hash: u64) -> bool {
    new_hash != s.hash && s.running
}

/// The render with hash `new_hash` starts a new producer.
pub open spec fn spawns(s: SlotState, new_hash: u64, is_recipe: bool) -> bool {
    new_hash != s.hash && is_recipe
}

/// Tracks the subscription that is running across renders.
pub struct SubscriptionSlot {
    hash: u64,
    running: bool,
}

impl SubscriptionSlot {
    pub closed spec fn state(&self) -> SlotState {
        SlotState { hash: self.hash, running: self.running }
    }

    /// A slot where nothing runs, with the hash of no subscription.
    pub fn new() -> (r: SubscriptionSlot)
        ensures
            r.state() == (SlotState { hash: 0, running: false }),
    {
        SubscriptionSlot { hash: 0, running: false }
    }

    /// The hash of the subscription that the slot took last.
    pub fn current_hash(&self) -> (r: u64)
        ensures
            r == self.state().hash,
    {
        self.hash
    }

    /// Whether a producer was started for it.
    pub fn is_running(&self) -> (r: bool)
        ensures
            r == self.state().running,
    {
        self.running
    }

    /// Decides on the subscription `sub` of a render, whose hash is
    /// `new_hash`: kept where the hash is the one the slot holds, else the
    /// running producer is cancelled and one for `sub` started.
    pub fn decide<P>(&mut self, new_hash: u64, sub: Subscription<P>) -> (d: Decision<P>)
        ensures
            final(self).state() == next_slot(old(self).state(), new_hash, sub is Recipe),
            (d is Keep) == (new_hash == old(self).state().hash),
            d is Replace ==> d->cancel_running == cancels(old(self).state(), new_hash),
            d is Replace ==> d->spawn == sub,
            spawns(old(self).state(), new_hash, sub is Recipe) == (d is Replace && d->spawn is Recipe),
    {
        if new_hash == self.hash {
            Decision::Keep
        } else {
            let cancel_running = self.running;
            self.hash = new_hash;
            self.running = match &sub {
                Subscription::Idle => false,
                Subscription::Recipe { .. } => true,
            };
            Decision::Replace { cancel_running, spawn: sub }
        }
    }

    /// Runs one render cycle of the subscription runtime on `sub`: hashes it
    /// and decides.
    pub fn render_cycle<P>(&mut self, sub: Subscription<P>) -> (d: Decision<P>)
        ensures
            final(self).state() == next_slot(old(self).state(), sub_hash(sub), sub is Recipe),
            (d is Keep) == (sub_hash(sub) == old(self).state().hash),
            d is Replace ==> d->cancel_running == cancels(old(self).state(), sub_hash(sub)),
            d is Replace ==> d->spawn == sub,
            spawns(old(self).state(), sub_hash(sub), sub is Recipe) == (d is Replace && d->spawn is Recipe),
    {
        let h = sub.hash();
        self.decide(h, sub)
    }
}

/// Two recipes with the same static configuration hash alike; and once a
/// slot has taken the first, a render with the second keeps it: nothing is
/// cancelled, nothing started, the slot stays as it is.
pub proof fn lemma_subscription_dedup(a: Recipe, b: Recipe, s: SlotState)
    requires
        recipe_words(a) == recipe_words(b),
    ensures
        recipe_hash_of(a) == recipe_hash_of(b),
        ({
            let s1 = next_slot(s, recipe_hash_of(a), true);
            &&& !cancels(s1, recipe_hash_of(b))
            &&& !spawns(s1, recipe_hash_of(b), true)
            &&& next_slot(s1, recipe_hash_of(b), true) == s1
        }),
{
}

/// A slot running a timer: a render with a timer of another period, whose
/// hash differs, cancels the running producer and starts exactly one, and
/// the slot then holds the new timer's hash.
pub proof fn lemma_subscription_replace(p1: u64, p2: u64, s: SlotState)
    requires
        s.hash == recipe_hash_of(Recipe::Every { period_nanos: p1 }),
        s.running,
        recipe_hash_of(Recipe::Every { period_nanos: p1 }) != recipe_hash_of(Recipe::Every { period_nanos: p2 }),
    ensures
        ({
            let h2 = recipe_hash_of(Recipe::Every { period_nanos: p2 });
            &&& cancels(s, h2)
            &&& spawns(s, h2, true)
            &&& next_slot(s, h2, true) == (SlotState { hash: h2, running: true })
        }),
{
}

/// The source of a subscription that runs a synchronous producer function
/// once, on a worker, handing it the sending end of a channel.
pub struct GenericSyncRecipe<M, F> {
    f: Option<F>,
    _marker: PhantomData<M>,
}

impl<M, F> GenericSyncRecipe<M, F> {
    /// The producer function not yet taken.
    pub closed spec fn pending(&self) -> Option<F> {
        self.f
    }

    pub fn new(f: F) -> (r: GenericSyncRecipe<M, F>)
        ensures
            r.pending() == Some(f),
    {
        GenericSyncRecipe { f: Some(f), _marker: PhantomData }
    }

    /// Hands out the producer function, once.
    pub fn take(&mut self) -> (r: Option<F>)
        ensures
            r == old(self).pending(),
            final(self).pending() is None,
    {
        self.f.take()
    }
}

/// The source of a subscription that runs an asynchronous producer once,
/// handing it the sending end of a channel.
pub struct GenericAsyncRecipe<M, F> {
    f: Option<F>,
    _marker: PhantomData<M>,
}

impl<M, F> GenericAsyncRecipe<M, F> {
    /// The producer function not yet taken.
    pub closed spec fn pending(&self) -> Option<F> {
        self.f
    }

    pub fn new(f: F) -> (r: GenericAsyncRecipe<M, F>)
        ensures
            r.pending() == Some(f),
    {
        GenericAsyncRecipe { f: Some(f), _marker: PhantomData }
    }

    /// Hands out the producer function, once.
    pub fn take(&mut self) -> (r: Option<F>)
        ensures
            r == old(self).pending(),
            final(self).pending() is None,
    {
        self.f.take()
    }
}

/// The code of the native "no event".
pub const NO_EVENT: i32 = 0;

/// One sampling step of the native-event tap: `last` holds the event seen
/// at the previous step, `current` the one seen now. An event is yielded
/// only when it differs from the previous one and is a real event, so the
/// same event instance is not delivered twice; the current one is recorded.
pub fn sample_event(last: &mut i32, current: i32) -> (r: Option<i32>)
    ensures
        *final(last) == current,
        r == (if current != *old(last) && current != NO_EVENT { Some(current) } else { None }),
{
    if current != *last {
        *last = current;
        if current != NO_EVENT {
            Some(current)
        } else {
            None
        }
    } else {
        None
    }
}

} // verus!
