//! One invocation's raw bytes, split per mode.
//!
//! Call mode's wire shape is a 4-byte selector followed by the argument
//! tuple's encoded bytes; deploy mode is the constructor argument tuple's
//! bytes with no selector prefix, so the selector field is synthesized as
//! zero and never consulted.

use vstd::prelude::*;
use crate::CallMode;
use crate::dispatch::{read_selector, tail_from};
use crate::selector::selector_pack;
use crate::types::EnvError;

verus! {

/// The decoded shape of one invocation's input.
pub struct CallData {
    pub selector: u32,
    pub data: Vec<u8>,
}

/// Splits raw invocation bytes into [`CallData`].
///
/// In call mode the input must hold at least the four selector bytes —
/// shorter input is refused before any handler can run. In deploy mode the
/// whole input is the payload, whatever its content, and the selector is
/// zero.
pub fn build_call_data(mode: CallMode, raw: &Vec<u8>) -> (r: Result<CallData, EnvError>)
    ensures
        mode == CallMode::Deploy ==> (r matches Ok(cd) && cd.selector == 0 && cd.data@ == raw@),
        mode == CallMode::Call && raw@.len() < 4 ==> r == Err::<CallData, EnvError>(
            EnvError::UnableToReadCallData,
        ),
        mode == CallMode::Call && raw@.len() >= 4 ==> (r matches Ok(cd) && cd.selector
            == selector_pack(raw@) && cd.data@ == raw@.skip(4)),
{
    match mode {
        CallMode::Deploy => {
            let data = tail_from(raw, 0);
            proof {
                assert(raw@.skip(0) =~= raw@);
            }
            Ok(CallData { selector: 0, data })
        },
        CallMode::Call => {
            if raw.len() < 4 {
                return Err(EnvError::UnableToReadCallData);
            }
            let selector = read_selector(raw);
            let data = tail_from(raw, 4);
            Ok(CallData { selector, data })
        },
    }
}

} // verus!
