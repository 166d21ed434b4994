use vstd::prelude::*;

pub mod host;
pub mod types;
pub mod oracle;
pub mod interest;

verus! {

} // verus!
