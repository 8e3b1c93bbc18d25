use vstd::prelude::*;

pub mod parse;
pub mod search;
pub mod shiny;
pub mod timeline;
pub mod xorshift;

verus! {

} // verus!
