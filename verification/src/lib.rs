//! A persistent store of secret messages.
//!
//! A message is created from a payload, gets the next identifier of a persisted counter and
//! is kept, in a bounded stored form, in a persisted ordered map. It is read back by its
//! identifier, by a reader who presents its secret key. Every call passes an access gate and,
//! where it creates, a validation gate before anything is changed.

pub mod access;
pub mod codec;
pub mod error;
pub mod guarantees;
pub mod message;
pub mod policy;
pub mod service;
pub mod stable;
pub mod store;
