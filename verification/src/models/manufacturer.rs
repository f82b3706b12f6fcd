//! Manufacturer model.

use vstd::prelude::*;

verus! {

/// A hardware manufacturer.
#[derive(Debug, Clone)]
pub struct Manufacturer {
    pub id: Option<i32>,
    pub name: Option<String>,
}

} // verus!
