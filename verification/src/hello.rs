//! A small contract wired through the whole core, end to end.
//!
//! The contract holds one string. Its dispatch table registers the
//! constructor, the read-only method `get()` and the mutable method
//! `set(string)`; [`dispatch_hello`] then runs one invocation exactly as
//! the dispatcher state machine prescribes: read the mode, route, decode,
//! invoke, and terminate through the backend with `finish` or `revert`.

use vstd::prelude::*;
use crate::CallMode;
use crate::codec::{
    decode_string, encode_string, scale_dec_str, scale_enc_str, MAX_ENCODABLE_CHARS,
};
use crate::dispatch::{
    distinct_selectors, find_selector, lemma_find_selector, route, BuildError, Decision,
    DispatchError, DispatchResult, DispatchRetInfo, DispatchTable, DispatchTableBuilder,
};
use crate::hash::HashFamily;
use crate::off_chain::{EnvInstance, Terminal};
use crate::selector::{selector_of, selector_pack, signature_of};

verus! {

/// The contract state: one stored greeting.
pub struct HelloWorld {
    pub name: String,
}

impl HelloWorld {
    /// The constructor: the greeting starts as `Hello, World!`.
    pub fn new() -> (r: Self)
        ensures
            r.name@ == "Hello, World!"@,
    {
        HelloWorld { name: String::from_str("Hello, World!") }
    }

    /// The read-only external method: the current greeting.
    pub fn get(&self) -> (r: String)
        ensures
            r@ == self.name@,
    {
        self.name.clone()
    }

    /// The mutable external method: replaces the greeting.
    pub fn set(&mut self, name: String)
        ensures
            final(self).name@ == name@,
    {
        self.name = name;
    }
}

/// The shape [`hello_table`] freezes: `get()` at index 0 read-only, and
/// `set(string)` at index 1 mutable.
pub open spec fn is_hello_table(t: DispatchTable, family: HashFamily) -> bool {
    &&& t.wf()
    &&& t.family == family
    &&& t.entries@.len() == 2
    &&& t.entries@[0].name@ == "get"@
    &&& t.entries@[0].arg_types.deep_view() == Seq::<Seq<char>>::empty()
    &&& !t.entries@[0].mutable
    &&& t.entries@[1].name@ == "set"@
    &&& t.entries@[1].arg_types.deep_view() == seq!["string"@]
    &&& t.entries@[1].mutable
}

/// Builds and freezes the contract's dispatch table under the chosen hash
/// family. Freezing succeeds exactly when the two method selectors differ
/// under that family; a collision fails fast, before any dispatch.
pub fn hello_table(family: HashFamily) -> (r: Result<DispatchTable, BuildError>)
    ensures
        (r matches Ok(t) ==> is_hello_table(t, family)),
        (r matches Err(e) ==> e == BuildError::DuplicateSelector),
        r is Ok <==> selector_of(family, signature_of("get"@, Seq::<Seq<char>>::empty()))
            != selector_of(family, signature_of("set"@, seq!["string"@])),
{
    let mut builder = DispatchTableBuilder::new(family);
    let constructor_state = builder.register_constructor();
    proof {
        assert(constructor_state is Ok);
    }
    let no_args: Vec<String> = Vec::new();
    let get_idx = builder.register_external("get", no_args, false);
    let mut set_args: Vec<String> = Vec::new();
    set_args.push(String::from_str("string"));
    let set_idx = builder.register_external("set", set_args, true);
    let ghost sel_get = selector_of(family, signature_of("get"@, Seq::<Seq<char>>::empty()));
    let ghost sel_set = selector_of(family, signature_of("set"@, seq!["string"@]));
    proof {
        assert(builder.entries@[0].arg_types.deep_view() =~= Seq::<Seq<char>>::empty());
        assert(builder.entries@[1].arg_types.deep_view() =~= seq!["string"@]);
        assert(builder.entries@[0].selector == sel_get);
        assert(builder.entries@[1].selector == sel_set);
        if sel_get != sel_set {
            assert forall|i: int, j: int|
                0 <= i < j < builder.entries@.len() implies builder.entries@[i].selector
                != builder.entries@[j].selector by {
                assert(i == 0 && j == 1);
            }
            assert(distinct_selectors(builder.entries@));
        } else {
            assert(!distinct_selectors(builder.entries@)) by {
                assert(builder.entries@[0].selector == builder.entries@[1].selector);
            }
        }
    }
    match builder.done() {
        Ok(table) => Ok(table),
        Err(e) => Err(e),
    }
}

/// The backend recorded success with exactly the payload `v`.
pub open spec fn finished_with(env: EnvInstance, v: Seq<u8>) -> bool {
    env.terminal matches Some(t) && t matches Terminal::Finished(p) && p@ == v
}

/// The backend recorded failure with exactly the payload `v`.
pub open spec fn reverted_with(env: EnvInstance, v: Seq<u8>) -> bool {
    env.terminal matches Some(t) && t matches Terminal::Reverted(p) && p@ == v
}

/// Runs one whole invocation of the contract against the simulated
/// backend: reads the mode, routes the raw input, decodes the argument
/// tuple, invokes the handler, and terminates through the backend.
///
/// Deploy mode always invokes exactly the constructor, whatever the input
/// bytes hold. Call-mode input shorter than the four selector bytes is
/// refused before any handler can run or any state change, as is an
/// unmatched selector or an argument tuple that does not decode; each
/// failure reverts with its diagnostic string, SCALE-encoded. Success
/// finishes with the handler's encoded output. Exactly one terminal is
/// reached either way.
///
/// The greeting held before the call and the raw input are bounded by
/// [`MAX_ENCODABLE_CHARS`], so that every string this dispatch encodes —
/// the stored greeting and any greeting decoded from the payload — stays
/// within the codec's length limit; the bound is preserved for the next
/// invocation.
pub fn dispatch_hello(
    contract: &mut HelloWorld,
    env: &mut EnvInstance,
    table: &DispatchTable,
    mode: CallMode,
    input: &Vec<u8>,
) -> (r: DispatchResult)
    requires
        is_hello_table(*table, table.family),
        old(env).terminal is None,
        old(contract).name@.len() <= MAX_ENCODABLE_CHARS,
        input@.len() <= MAX_ENCODABLE_CHARS,
    ensures
        final(contract).name@.len() <= MAX_ENCODABLE_CHARS,
        final(env).storage@ == old(env).storage@,
        final(env).blocks@ == old(env).blocks@,
        final(env).exec_contexts@ == old(env).exec_contexts@,
        final(env).events@ == old(env).events@,
        final(env).calls@ == old(env).calls@,
        final(env).terminal is Some,
        r is Ok <==> (final(env).terminal matches Some(t) && t is Finished),
        mode == CallMode::Deploy ==> r is Ok && final(contract).name@ == "Hello, World!"@
            && finished_with(*final(env), Seq::<u8>::empty()),
        mode == CallMode::Call && input@.len() < 4 ==> r == Err::<(), DispatchError>(
            DispatchError::CouldNotReadInput,
        ) && *final(contract) == *old(contract) && reverted_with(
            *final(env),
            scale_enc_str("could not read input"@),
        ),
        mode == CallMode::Call && input@.len() >= 4 ==> (match find_selector(
            table.entries@,
            selector_pack(input@),
        ) {
            Some(k) => (if k == 0 {
                r is Ok && *final(contract) == *old(contract) && finished_with(
                    *final(env),
                    scale_enc_str(old(contract).name@),
                )
            } else {
                match scale_dec_str(input@.skip(4)) {
                    Some(s) => r is Ok && final(contract).name@ == s && finished_with(
                        *final(env),
                        Seq::<u8>::empty(),
                    ),
                    None => r == Err::<(), DispatchError>(DispatchError::InvalidParams)
                        && *final(contract) == *old(contract) && reverted_with(
                        *final(env),
                        scale_enc_str("invalid params"@),
                    ),
                }
            }),
            None => r == Err::<(), DispatchError>(DispatchError::UnknownSelector)
                && *final(contract) == *old(contract) && reverted_with(
                *final(env),
                scale_enc_str("unknown selector"@),
            ),
        }),
{
    let decision = route(table, mode, input);
    proof {
        if mode == CallMode::Call && input@.len() >= 4 {
            lemma_find_selector(table.entries@, selector_pack(input@));
        }
    }
    match decision {
        Ok(d) => match d {
            Decision::Deploy { payload: _ } => {
                // The constructor's input tuple is empty, so any payload
                // decodes to it; its unit output encodes to no bytes.
                *contract = HelloWorld::new();
                proof {
                    reveal_strlit("Hello, World!");
                }
                let out: Vec<u8> = Vec::new();
                env.finish(&out);
                Ok(())
            },
            Decision::Invoke { index, mutable: _, payload } => {
                if index == 0 {
                    // get(): empty input tuple, string output.
                    let ret = contract.get();
                    let encoded = encode_string(&ret);
                    env.finish(&encoded);
                    Ok(())
                } else {
                    // set(string): one string argument, unit output.
                    match decode_string(&payload) {
                        Some(arg) => {
                            contract.set(arg);
                            let out: Vec<u8> = Vec::new();
                            env.finish(&out);
                            Ok(())
                        },
                        None => {
                            let info = DispatchRetInfo::from(DispatchError::InvalidParams);
                            let msg = info.get_info_string();
                            proof {
                                reveal_strlit("invalid params");
                            }
                            let encoded = encode_string(&msg);
                            env.revert(&encoded);
                            Err(DispatchError::InvalidParams)
                        },
                    }
                }
            },
        },
        Err(e) => {
            let info = DispatchRetInfo::from(e);
            let msg = info.get_info_string();
            proof {
                reveal_strlit("unknown selector");
                reveal_strlit("could not read input");
            }
            let encoded = encode_string(&msg);
            env.revert(&encoded);
            Err(e)
        },
    }
}

} // verus!
