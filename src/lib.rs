//! A credential store that keeps secrets in a Secret Service collection.
//!
//! The library holds the rules by which a logical identity (service, user,
//! optional target, optional label) is turned into the attributes, collection
//! and label of a stored item, how the items that a search finds are resolved
//! to one location, which attributes a caller may change, and how the
//! service's errors are reported. Each rule is a function from plain values to
//! plain values; the program that talks to the service performs the calls
//! those functions ask for and hands back what came back.
use vstd::prelude::*;

pub mod attrs;
pub mod cred;
pub mod errors;
pub mod service;
pub mod store;
