//! Math module.

use vstd::prelude::*;

verus! {

/// Some math function.
pub fn some_math_function() {
}

} // verus!
