use vstd::prelude::*;

pub mod external;
pub mod fibre;
pub mod function;
pub mod http;
pub mod inline;
pub mod jit;
pub mod instance;
pub mod iteration;
pub mod laws;
pub mod access;
pub mod args;
pub mod autoload;
pub mod cache;
pub mod classes;
pub mod compare;
pub mod enums;
pub mod names;
pub mod objects;
pub mod pad;
pub mod resolve;
pub mod sapi;
pub mod server;
pub mod step;
pub mod sync;
pub mod throw;
pub mod value;
pub mod vm;

verus! {
} // verus!
