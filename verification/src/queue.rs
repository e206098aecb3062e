//! The generation queue's decisions.
pub mod worker;
pub mod worker_loop;
