//! Execution core of a smart-contract runtime: routes an incoming binary
//! call to the correct contract method through a selector-keyed dispatch
//! table, and backs the contract with one of two environment backends (an
//! in-memory simulator for tests, and the pure decision logic of the
//! on-chain host bridge).

use vstd::prelude::*;

pub mod buffer;
pub mod calldata;
pub mod codec;
pub mod dispatch;
pub mod env_access;
pub mod hash;
pub mod hello;
pub mod off_chain;
pub mod on_chain;
pub mod selector;
pub mod tokenizer;
pub mod types;

verus! {

/// The two invocation kinds: deploying a contract runs its constructor,
/// calling it routes to an external method by selector.
#[derive(PartialEq, Eq, Structural, Clone, Copy, Debug)]
pub enum CallMode {
    Deploy,
    Call,
}

} // verus!
