//! Jobs for the entities of a simulation: each job is a graph of tasks with a cursor on the
//! task under way, and a small engine decides, handler run by handler run, which task is
//! attached to an entity and what happens when it completes, fails, loops or branches.
//!
//! The engine never touches the host's entities itself: it queues `HostCommand`s (attach,
//! detach, spawn, despawn, pause) in a `Commands` value that the host drains and applies.

pub mod task;
pub mod graph;
pub mod commands;
pub mod job;
pub mod ids;
pub mod catalog;
pub mod store;
pub mod random;
pub mod loader;
pub mod scheduler;
pub mod laws;
