//! OUI (vendor MAC prefix) model.

use vstd::prelude::*;

verus! {

/// A vendor MAC prefix and the company it is registered to.
#[derive(Debug, Clone)]
pub struct Oui {
    pub oui: String,
    pub company: Option<String>,
}

} // verus!
