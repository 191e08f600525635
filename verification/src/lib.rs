//! Policy core of a WASI sandbox host: path, network and environment rules,
//! resource accounting, and the decisions that set up a guest's run.

use vstd::prelude::*;

pub mod text;
pub mod config;
pub mod sandbox_fs;
pub mod launch;

verus! {
} // verus!
