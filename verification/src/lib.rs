//! A fixed-size worker pool, stated as a verified state machine.
//!
//! The pool owns a FIFO channel of task tokens and a fixed set of workers.
//! Every operation is a transition of that machine with an exact contract;
//! the thread that carries a worker only performs what a transition tells it.
//!
//! - `error`: what an operation can report instead of succeeding.
//! - `worker`: one worker and its lifecycle.
//! - `model`: the pool as a mathematical value, its invariant and transitions.
//! - `pool`: the pool itself, one operation for each transition.
//! - `laws`: what is proved of every state and every course of transitions.

pub mod error;
pub mod worker;
pub mod model;
pub mod pool;
pub mod laws;
