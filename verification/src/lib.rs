//! A key/value cache whose entries expire a fixed time after they were inserted.
//!
//! [`cache::Cache`] couples a lookup table with a time-ordered queue of pending
//! deadlines. The queue is `tokio_util`'s `DelayQueue`; [`expiration`] states what the
//! cache relies on from it, and everything else is proved against those statements.

pub mod cache;
pub mod expiration;
pub mod theorems;
