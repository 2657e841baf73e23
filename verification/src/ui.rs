use vstd::prelude::*;

pub mod help_bar;
pub mod status_bar;

verus! {

} // verus!
