//! Contract-side access to the environment.
//!
//! Generated contract methods reach chain state through this façade. The
//! environment is an explicit handle threaded through every call — one
//! handle per invocation — rather than a hidden process-wide instance.

use vstd::prelude::*;
use crate::off_chain::EnvInstance;
use crate::types::Address;

verus! {

/// The façade a contract method sees.
pub struct EnvAccess;

impl EnvAccess {
    /// The caller of the innermost execution context of `env`, which must
    /// hold at least one context.
    pub fn get_caller(self, env: &EnvInstance) -> (r: Address)
        requires
            env.exec_contexts@.len() > 0,
        ensures
            r == env.exec_contexts@.last().caller,
    {
        env.get_caller()
    }
}

} // verus!
