use flemish::subscription::{Decision, GenericAsyncRecipe, GenericSyncRecipe, Recipe, Subscription, SubscriptionSlot, sample_event, EVERY_TAG, NO_EVENT};
use flemish::task::{deliver, join, Perform, Task};
use std::sync::atomic::{AtomicBool, Ordering};
use std::sync::Arc;

fn timer(period_nanos: u64) -> Subscription<&'static str> {
    Subscription::from_recipe(Recipe::every(period_nanos), "timer")
}

#[test]
fn equal_parameters_hash_alike() {
    assert_eq!(Recipe::every(1_000).hash(), Recipe::every(1_000).hash());
    assert_eq!(Recipe::every(1_000).map(7).hash(), Recipe::every(1_000).map(7).hash());
    assert_ne!(Recipe::every(1_000).hash(), Recipe::every(2_000).hash());
}

#[test]
fn recipe_hash_is_fxhash_of_its_configuration() {
    let words: Vec<u64> = vec![EVERY_TAG, 250];
    assert_eq!(Recipe::every(250).hash(), fxhash::hash64(&words[..]));
    let mapped: Vec<u64> = vec![EVERY_TAG, 250, 9];
    assert_eq!(Recipe::every(250).map(9).hash(), fxhash::hash64(&mapped[..]));
}

#[test]
fn none_subscription_hashes_to_zero() {
    assert_eq!(Subscription::<()>::none().hash(), 0);
}

#[test]
fn unchanged_subscription_is_kept() {
    let mut slot = SubscriptionSlot::new();
    let first = slot.render_cycle(timer(1_000));
    match first {
        Decision::Replace { cancel_running, spawn: Subscription::Recipe { .. } } => assert!(!cancel_running),
        _ => panic!("the first timer should start"),
    }
    assert!(slot.is_running());
    assert!(matches!(slot.render_cycle(timer(1_000)), Decision::Keep));
    assert!(matches!(slot.render_cycle(timer(1_000)), Decision::Keep));
    assert!(slot.is_running());
}

#[test]
fn changed_period_cancels_and_starts_one() {
    let mut slot = SubscriptionSlot::new();
    slot.render_cycle(timer(1_000));
    match slot.render_cycle(timer(2_000)) {
        Decision::Replace { cancel_running, spawn: Subscription::Recipe { recipe, .. } } => {
            assert!(cancel_running);
            assert!(matches!(recipe, Recipe::Every { period_nanos: 2_000 }));
        }
        _ => panic!("the new timer should replace the old one"),
    }
    assert_eq!(slot.current_hash(), Recipe::every(2_000).hash());
}

#[test]
fn switching_to_none_cancels_without_starting() {
    let mut slot = SubscriptionSlot::new();
    slot.render_cycle(timer(1_000));
    match slot.render_cycle(Subscription::<&'static str>::none()) {
        Decision::Replace { cancel_running, spawn: Subscription::Idle } => assert!(cancel_running),
        _ => panic!("dropping the subscription should cancel it"),
    }
    assert!(!slot.is_running());
    assert_eq!(slot.current_hash(), 0);
}

#[test]
fn initial_none_is_kept() {
    let mut slot = SubscriptionSlot::new();
    assert!(matches!(slot.render_cycle(Subscription::<()>::none()), Decision::Keep));
}

#[test]
fn cancelable_and_map_keep_the_flag_and_wrap_the_recipe() {
    let flag = Arc::new(AtomicBool::new(false));
    let s = timer(5).cancelable(flag.clone()).map(3, |src| src.len());
    match s {
        Subscription::Recipe { recipe, source, cancel_flag } => {
            assert_eq!(source, 5);
            assert!(cancel_flag.is_some());
            assert_eq!(recipe.hash(), Recipe::every(5).map(3).hash());
        }
        Subscription::Idle => panic!("a recipe stays a recipe"),
    }
}

#[test]
fn generic_recipes_hand_out_their_producer_once() {
    let mut r: GenericSyncRecipe<u8, fn() -> u8> = GenericSyncRecipe::new(|| 3);
    assert_eq!(r.take().map(|f| f()), Some(3));
    assert!(r.take().is_none());
    let mut a: GenericAsyncRecipe<u8, fn() -> u8> = GenericAsyncRecipe::new(|| 4);
    assert_eq!(a.take().map(|f| f()), Some(4));
    assert!(a.take().is_none());
}

#[test]
fn mapped_task_delivers_forty() {
    let t = Task::perform(|| 2 + 2).map(|x| x * 10);
    assert_eq!(t.complete(), Some(40));
}

#[test]
fn none_task_mapped_sends_nothing() {
    let t: Task<Perform<i32, fn() -> i32>> = Task::none();
    assert_eq!(t.map(|x: i32| x * 10).complete(), None);
    let e: Task<Perform<i32, fn() -> i32>> = Task::exit();
    assert_eq!(e.map(|x: i32| x + 1).complete(), None);
}

#[test]
fn cancelled_task_runs_but_delivers_nothing() {
    let ran = Arc::new(AtomicBool::new(false));
    let flag = Arc::new(AtomicBool::new(false));
    let r2 = ran.clone();
    let t = Task::perform(move || {
        r2.store(true, Ordering::SeqCst);
        5
    })
    .cancelable(flag.clone());
    flag.store(true, Ordering::SeqCst);
    assert_eq!(t.complete(), None);
    assert!(ran.load(Ordering::SeqCst));
}

#[test]
fn uncancelled_flag_lets_the_result_through() {
    let flag = Arc::new(AtomicBool::new(false));
    let t = Task::perform(|| "done").cancelable(flag);
    assert_eq!(t.complete(), Some("done"));
}

#[test]
fn deliver_drops_cancelled_results() {
    assert_eq!(deliver(3, false), Some(3));
    assert_eq!(deliver(3, true), None);
}

#[test]
fn event_tap_yields_each_new_event_once() {
    let mut last = NO_EVENT;
    assert_eq!(sample_event(&mut last, NO_EVENT), None);
    assert_eq!(sample_event(&mut last, 5), Some(5));
    assert_eq!(last, 5);
    assert_eq!(sample_event(&mut last, 5), None);
    assert_eq!(sample_event(&mut last, 9), Some(9));
    assert_eq!(sample_event(&mut last, NO_EVENT), None);
    assert_eq!(last, NO_EVENT);
}

fn one() -> i32 {
    1
}

fn two() -> i32 {
    2
}

#[test]
fn join_collects_results_in_order_and_skips_cancelled_ones() {
    let flag = Arc::new(AtomicBool::new(true));
    let tasks: Vec<Task<Perform<i32, fn() -> i32>>> = vec![
        Task::perform(one as fn() -> i32),
        Task::perform(two as fn() -> i32).cancelable(flag),
        Task::perform(two as fn() -> i32),
    ];
    assert_eq!(join(tasks).complete(), Some(vec![1, 2]));
}
