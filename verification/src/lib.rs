//! Reflection data model and the debugging tools built on it.
use vstd::prelude::*;

pub mod data;
pub mod data_debug;
pub mod data_order;
pub mod debugger;
pub mod index;
pub mod layout;
pub mod path;
pub mod pong;
pub mod sandbox;
pub mod serializer;
pub mod trace;
pub mod trace_tree;

verus! {

} // verus!
