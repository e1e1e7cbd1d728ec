use vstd::prelude::*;

pub mod error;
pub mod kind;
pub mod scan;
pub mod summary;
pub mod text;
pub mod walk;

verus! {

} // verus!
