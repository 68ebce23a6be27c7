use vstd::prelude::*;

pub mod abi;
pub mod text;
pub mod handles;
pub mod names;
pub mod error;
pub mod wire;
pub mod host_api;
pub mod batch;
pub mod mod_loader;
pub mod runtime;
pub mod sdk;
pub mod signature;
pub mod exports;
pub mod cli;

verus! {

} // verus!
