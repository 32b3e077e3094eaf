use vstd::prelude::*;

pub mod cpu;
pub mod default;
pub mod error;
pub mod machine;
pub mod traits;

verus! {

} // verus!
