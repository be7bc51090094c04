//! One-time-password lifecycle engine.
//!
//! The engine issues short-lived one-time codes to a subject and later
//! validates a claimed code, with at-most-one successful validation per
//! issued code. The backing store is modelled as a keyed in-memory table
//! with conditional writes; network transports and remote stores live
//! outside this crate and hand the engine plain values.

pub mod codes;
pub mod errors;
pub mod issuer;
pub mod laws;
pub mod record;
pub mod store;
pub mod validator;
