//! A typed model of continuous-integration workflow definitions, with
//! order-keeping builders and a document form that leaves out every empty
//! or default field.
use vstd::prelude::*;

pub mod value;
pub mod keyed;
pub mod permissions;
pub mod text;
pub mod doc;
pub mod triggers;
pub mod settings;
pub mod job;
pub mod workflow;
pub mod laws;

verus! {

} // verus!
