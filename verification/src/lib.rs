//! A bounded worker pool, verified as a state machine.
//!
//! A fixed set of long-lived workers consumes units of deferred work from one
//! shared FIFO queue. Shutdown is a sentinel message mixed into the same
//! queue: disposal sends one sentinel per worker, lets every worker drain the
//! queue, and then joins each worker exactly once.
//!
//! The pool here is the model that carries the proofs: jobs are identifiers,
//! the queue is explicit, and every worker's loop is a pair of transitions
//! (dequeue one message, finish the job in hand). A program that runs the
//! pool on real threads drives the same transitions and keeps the callables
//! keyed by their identifiers.

pub mod message;
pub mod pool;
pub mod worker;
