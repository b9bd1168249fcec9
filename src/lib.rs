//! A declarative UI-update core: identity assignment for rendered node trees,
//! a positional reconciler that turns two trees into a list of widget
//! operations, a store that keeps the current tree and its message observers,
//! and the decision rules of the subscription and task runtimes.

pub mod id;
pub mod vnode;
pub mod diff;
pub mod vdom;
pub mod subscription;
pub mod task;
pub mod application;
