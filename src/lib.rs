//! A growable contiguous array whose capacity follows a fixed doubling policy.
use vstd::prelude::*;

pub mod growth;
pub mod my_vec;

pub use my_vec::MyVec;
