//! Hand-built containers with explicit slot ownership: a growable vector over a
//! buffer of possibly-empty slots, its two consuming iterators, and two linked
//! lists.
use vstd::prelude::*;

mod raw_vec;
pub mod doubly_linked_list;
pub mod singly_linked_list;
pub mod vector;

verus! {

} // verus!
