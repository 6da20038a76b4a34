//! Rewrites the declaration of a recursively self-referential asynchronous
//! function into an equivalent declaration whose result is a single
//! heap-allocated, pinned, dynamically dispatched future.
//!
//! The crate works on a plain-value model of a function item: [`model`] holds
//! the signature and body model, [`parse`] parses the attribute arguments and
//! validates the target item, and [`expand`] performs the signature and body
//! rewriting, threading every borrow region the signature depends on so that
//! the boxed return type stays valid for as long as its borrowed inputs.
//! [`laws`] states and proves the general properties of the rewrite: what is
//! added when nothing is borrowed, how synthesized regions correspond to the
//! parameters that needed them, that a shared region is bound exactly once,
//! and that the thread-capability bounds follow the argument tokens.

pub mod expand;
pub mod laws;
pub mod model;
pub mod parse;
