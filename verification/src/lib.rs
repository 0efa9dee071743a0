//! A last-in-first-out container built as a chain of owned nodes, together with
//! the deterministic push/pop workload that many workers run against one shared
//! stack and one shared line log.
//!
//! Everything here is sequential: a caller that shares a [`worker::SharedState`]
//! between threads guards the whole value with a single lock and holds it for a
//! worker's entire run, so that the runs compose as the laws in [`worker`] say.

pub mod stack;
pub mod decimal;
pub mod logger;
pub mod worker;
