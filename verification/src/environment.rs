//! The environment of a run: the scope stack, under its other name.

use vstd::prelude::*;
use crate::context::Context;

verus! {

pub type Environment = Context;

} // verus!
