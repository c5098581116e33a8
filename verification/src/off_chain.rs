//! The simulated environment backend.
//!
//! An in-memory realization of the environment interface for deterministic
//! tests: storage is a key-to-bytes mapping, the caller is read from a
//! stack of execution contexts, block data from an append-only block
//! ledger, and the two terminal primitives record the terminal payload
//! instead of leaving the process. Test code drives the contexts and
//! inspects the records; nothing is reset implicitly.

use vstd::prelude::*;
use crate::dispatch::tail_from;
use crate::types::{Address, EnvError, ADDRESS_LENGTH};

verus! {

/// One frame of a (possibly nested) call: who calls whom.
#[derive(Clone, Copy)]
pub struct ExecContext {
    pub caller: Address,
    pub callee: Address,
}

impl ExecContext {
    pub fn new(caller: Address, callee: Address) -> (r: Self)
        ensures
            r.caller == caller,
            r.callee == callee,
    {
        ExecContext { caller, callee }
    }
}

/// One block of the simulated ledger.
#[derive(Clone, Copy)]
pub struct Block {
    pub number: u64,
    pub timestamp: u64,
}

impl Block {
    pub fn new(number: u64, timestamp: u64) -> (r: Self)
        ensures
            r.number == number,
            r.timestamp == timestamp,
    {
        Block { number, timestamp }
    }

    pub fn block_number(&self) -> (r: u64)
        ensures
            r == self.number,
    {
        self.number
    }

    pub fn timestamp(&self) -> (r: u64)
        ensures
            r == self.timestamp,
    {
        self.timestamp
    }
}

/// One recorded event: its payload and its indexed topic hashes.
pub struct Event {
    pub data: Vec<u8>,
    pub topics: Vec<Vec<u8>>,
}

/// One recorded cross-contract call.
pub struct RecordedCall {
    pub callee: Address,
    pub data: Vec<u8>,
}

/// How the current invocation ended, with the encoded terminal payload.
pub enum Terminal {
    Finished(Vec<u8>),
    Reverted(Vec<u8>),
}

/// The mapping a write log presents: later writes win.
pub open spec fn assoc_map(s: Seq<(Vec<u8>, Vec<u8>)>) -> Map<Seq<u8>, Seq<u8>>
    decreases s.len(),
{
    if s.len() == 0 {
        Map::empty()
    } else {
        assoc_map(s.drop_last()).insert(s.last().0@, s.last().1@)
    }
}

proof fn lemma_assoc_found(s: Seq<(Vec<u8>, Vec<u8>)>, k: Seq<u8>, i: int)
    requires
        0 <= i < s.len(),
        s[i].0@ == k,
        forall|j: int| i < j < s.len() ==> s[j].0@ != k,
    ensures
        assoc_map(s).contains_key(k),
        assoc_map(s)[k] == s[i].1@,
    decreases s.len(),
{
    if i < s.len() - 1 {
        assert(s.last().0@ != k);
        assert(s.drop_last()[i] == s[i]);
        lemma_assoc_found(s.drop_last(), k, i);
    }
}

proof fn lemma_assoc_absent(s: Seq<(Vec<u8>, Vec<u8>)>, k: Seq<u8>)
    requires
        forall|j: int| 0 <= j < s.len() ==> s[j].0@ != k,
    ensures
        !assoc_map(s).contains_key(k),
    decreases s.len(),
{
    if s.len() > 0 {
        assert(forall|j: int|
            0 <= j < s.drop_last().len() ==> s.drop_last()[j] == s[j] && s[j].0@ != k);
        lemma_assoc_absent(s.drop_last(), k);
    }
}

/// The simulated environment instance, to be threaded explicitly through
/// the code under test.
pub struct EnvInstance {
    pub storage: Vec<(Vec<u8>, Vec<u8>)>,
    pub blocks: Vec<Block>,
    pub exec_contexts: Vec<ExecContext>,
    pub events: Vec<Event>,
    pub calls: Vec<RecordedCall>,
    pub terminal: Option<Terminal>,
}

impl EnvInstance {
    /// What the storage log currently maps each key to.
    pub open spec fn storage_map(&self) -> Map<Seq<u8>, Seq<u8>> {
        assoc_map(self.storage@)
    }

    /// At least one block exists from initialization on.
    pub open spec fn wf(&self) -> bool {
        self.blocks@.len() >= 1
    }

    /// A fresh environment: empty storage, no execution context, block 0,
    /// nothing recorded, not terminated.
    pub fn new() -> (r: Self)
        ensures
            r.wf(),
            r.storage_map() == Map::<Seq<u8>, Seq<u8>>::empty(),
            r.blocks@.len() == 1,
            r.blocks@[0].number == 0,
            r.blocks@[0].timestamp == 0,
            r.exec_contexts@.len() == 0,
            r.events@.len() == 0,
            r.calls@.len() == 0,
            r.terminal is None,
    {
        let mut blocks: Vec<Block> = Vec::new();
        blocks.push(Block::new(0, 0));
        EnvInstance {
            storage: Vec::new(),
            blocks,
            exec_contexts: Vec::new(),
            events: Vec::new(),
            calls: Vec::new(),
            terminal: None,
        }
    }

    /// The context of the innermost call in flight. There must be at least
    /// one execution context whenever this is queried.
    pub fn current_exec_context(&self) -> (r: &ExecContext)
        requires
            self.exec_contexts@.len() > 0,
        ensures
            *r == self.exec_contexts@.last(),
    {
        let n = self.exec_contexts.len();
        &self.exec_contexts[n - 1]
    }

    /// The latest block. At least one block exists in a well-formed
    /// environment.
    pub fn current_block(&self) -> (r: &Block)
        requires
            self.wf(),
        ensures
            *r == self.blocks@.last(),
    {
        let n = self.blocks.len();
        &self.blocks[n - 1]
    }

    /// The context of the innermost call in flight, or `None` when no
    /// context has been pushed — the query fails loudly, it never invents
    /// a default context.
    pub fn try_current_exec_context(&self) -> (r: Option<&ExecContext>)
        ensures
            self.exec_contexts@.len() > 0 ==> (r matches Some(c) && *c
                == self.exec_contexts@.last()),
            self.exec_contexts@.len() == 0 ==> r is None,
    {
        if self.exec_contexts.len() > 0 {
            Some(self.current_exec_context())
        } else {
            None
        }
    }

    /// Whether any execution context has been pushed.
    pub fn has_exec_context(&self) -> (r: bool)
        ensures
            r == (self.exec_contexts@.len() > 0),
    {
        self.exec_contexts.len() > 0
    }

    /// Maps `key` to `value`. Everything else is untouched.
    pub fn set_storage(&mut self, key: &Vec<u8>, value: &Vec<u8>)
        ensures
            final(self).storage_map() == old(self).storage_map().insert(key@, value@),
            final(self).blocks@ == old(self).blocks@,
            final(self).exec_contexts@ == old(self).exec_contexts@,
            final(self).events@ == old(self).events@,
            final(self).calls@ == old(self).calls@,
            final(self).terminal == old(self).terminal,
            final(self).wf() == old(self).wf(),
    {
        let k = tail_from(key, 0);
        let v = tail_from(value, 0);
        proof {
            assert(key@.skip(0) =~= key@);
            assert(value@.skip(0) =~= value@);
        }
        self.storage.push((k, v));
        proof {
            assert(self.storage@.drop_last() =~= old(self).storage@);
        }
    }

    /// The bytes stored at `key`: `Ok` exactly when the key maps to a
    /// non-empty value (removal stores the empty value, and the host's
    /// probe likewise reports absent keys as size zero).
    pub fn get_storage(&self, key: &Vec<u8>) -> (r: Result<Vec<u8>, EnvError>)
        ensures
            (self.storage_map().contains_key(key@) && self.storage_map()[key@].len() > 0) ==> (
            r matches Ok(v) && v@ == self.storage_map()[key@]),
            !(self.storage_map().contains_key(key@) && self.storage_map()[key@].len() > 0) ==> r
                == Err::<Vec<u8>, EnvError>(EnvError::UnableToReadFromStorage),
    {
        let n = self.storage.len();
        let mut i: usize = n;
        while i > 0
            invariant
                i <= n,
                n == self.storage@.len(),
                forall|j: int| i <= j < n ==> self.storage@[j].0@ != key@,
            decreases i,
        {
            i = i - 1;
            if self.storage[i].0 == *key {
                proof {
                    assert(self.storage@[i as int].0@ =~= key@);
                    lemma_assoc_found(self.storage@, key@, i as int);
                }
                let v = &self.storage[i].1;
                if v.len() == 0 {
                    return Err(EnvError::UnableToReadFromStorage);
                }
                let out = tail_from(v, 0);
                proof {
                    assert(v@.skip(0) =~= v@);
                }
                return Ok(out);
            }
            proof {
                if self.storage@[i as int].0@ == key@ {
                    assert(self.storage@[i as int].0@ =~= key@);
                }
            }
        }
        proof {
            lemma_assoc_absent(self.storage@, key@);
        }
        Err(EnvError::UnableToReadFromStorage)
    }

    /// Removal is realized as setting the empty value, matching the host
    /// backend, whose storage probe cannot tell "absent" from "empty".
    pub fn remove_storage(&mut self, key: &Vec<u8>)
        ensures
            final(self).storage_map() == old(self).storage_map().insert(key@, Seq::<u8>::empty()),
            final(self).blocks@ == old(self).blocks@,
            final(self).exec_contexts@ == old(self).exec_contexts@,
            final(self).events@ == old(self).events@,
            final(self).calls@ == old(self).calls@,
            final(self).terminal == old(self).terminal,
            final(self).wf() == old(self).wf(),
    {
        let empty: Vec<u8> = Vec::new();
        self.set_storage(key, &empty);
    }

    /// The success terminal: records the encoded return value. Only one
    /// terminal is ever reached in one invocation, and dispatch activity
    /// stops there.
    pub fn finish(&mut self, return_value: &Vec<u8>)
        requires
            old(self).terminal is None,
        ensures
            (final(self).terminal matches Some(t) && t matches Terminal::Finished(v) && v@
                == return_value@),
            final(self).storage@ == old(self).storage@,
            final(self).blocks@ == old(self).blocks@,
            final(self).exec_contexts@ == old(self).exec_contexts@,
            final(self).events@ == old(self).events@,
            final(self).calls@ == old(self).calls@,
            final(self).wf() == old(self).wf(),
    {
        let payload = tail_from(return_value, 0);
        proof {
            assert(return_value@.skip(0) =~= return_value@);
        }
        self.terminal = Some(Terminal::Finished(payload));
    }

    /// The failure terminal: records the encoded revert reason. Only one
    /// terminal is ever reached in one invocation, and dispatch activity
    /// stops there.
    pub fn revert(&mut self, revert_info: &Vec<u8>)
        requires
            old(self).terminal is None,
        ensures
            (final(self).terminal matches Some(t) && t matches Terminal::Reverted(v) && v@
                == revert_info@),
            final(self).storage@ == old(self).storage@,
            final(self).blocks@ == old(self).blocks@,
            final(self).exec_contexts@ == old(self).exec_contexts@,
            final(self).events@ == old(self).events@,
            final(self).calls@ == old(self).calls@,
            final(self).wf() == old(self).wf(),
    {
        let payload = tail_from(revert_info, 0);
        proof {
            assert(revert_info@.skip(0) =~= revert_info@);
        }
        self.terminal = Some(Terminal::Reverted(payload));
    }

    /// Appends one structured event with its indexed topic hashes.
    pub fn emit(&mut self, data: &Vec<u8>, topics: Vec<Vec<u8>>)
        ensures
            final(self).events@.len() == old(self).events@.len() + 1,
            final(self).events@.last().data@ == data@,
            final(self).events@.last().topics.deep_view() == topics.deep_view(),
            forall|i: int|
                0 <= i < old(self).events@.len() ==> final(self).events@[i] == old(
                    self,
                ).events@[i],
            final(self).storage@ == old(self).storage@,
            final(self).blocks@ == old(self).blocks@,
            final(self).exec_contexts@ == old(self).exec_contexts@,
            final(self).calls@ == old(self).calls@,
            final(self).terminal == old(self).terminal,
            final(self).wf() == old(self).wf(),
    {
        let payload = tail_from(data, 0);
        proof {
            assert(data@.skip(0) =~= data@);
        }
        self.events.push(Event { data: payload, topics });
    }

    /// Records one synchronous cross-contract call for test inspection.
    /// The simulator runs no remote code, so the decoded result is empty;
    /// a non-zero status never arises here.
    pub fn call(&mut self, callee: &Address, data: &Vec<u8>) -> (r: Result<Vec<u8>, EnvError>)
        ensures
            final(self).calls@.len() == old(self).calls@.len() + 1,
            final(self).calls@.last().callee == *callee,
            final(self).calls@.last().data@ == data@,
            forall|i: int|
                0 <= i < old(self).calls@.len() ==> final(self).calls@[i] == old(self).calls@[i],
            (r matches Ok(v) && v@.len() == 0),
            final(self).storage@ == old(self).storage@,
            final(self).blocks@ == old(self).blocks@,
            final(self).exec_contexts@ == old(self).exec_contexts@,
            final(self).events@ == old(self).events@,
            final(self).terminal == old(self).terminal,
            final(self).wf() == old(self).wf(),
    {
        let payload = tail_from(data, 0);
        proof {
            assert(data@.skip(0) =~= data@);
        }
        self.calls.push(RecordedCall { callee: *callee, data: payload });
        Ok(Vec::new())
    }

    /// The caller of the innermost context. Querying with no context in
    /// flight is a caller error; [`EnvInstance::try_get_caller`] is the
    /// checked form.
    pub fn get_caller(&self) -> (r: Address)
        requires
            self.exec_contexts@.len() > 0,
        ensures
            r == self.exec_contexts@.last().caller,
    {
        let ctx = self.current_exec_context();
        ctx.caller
    }

    /// The caller of the innermost context, or `None` when no context has
    /// been pushed — never a default address.
    pub fn try_get_caller(&self) -> (r: Option<Address>)
        ensures
            self.exec_contexts@.len() > 0 ==> r == Some(self.exec_contexts@.last().caller),
            self.exec_contexts@.len() == 0 ==> r is None,
    {
        if self.exec_contexts.len() > 0 {
            Some(self.get_caller())
        } else {
            None
        }
    }

    /// The latest block's timestamp.
    pub fn now(&self) -> (r: u64)
        requires
            self.wf(),
        ensures
            r == self.blocks@.last().timestamp,
    {
        self.current_block().timestamp()
    }

    /// The latest block's number.
    pub fn get_block_number(&self) -> (r: u64)
        requires
            self.wf(),
        ensures
            r == self.blocks@.last().number,
    {
        self.current_block().block_number()
    }

    /// Pushes an execution context with the given caller and a zero
    /// callee, emulating the entry of a call in tests.
    pub fn set_caller(&mut self, caller: Address)
        ensures
            final(self).exec_contexts@.len() == old(self).exec_contexts@.len() + 1,
            final(self).exec_contexts@.drop_last() == old(self).exec_contexts@,
            final(self).exec_contexts@.last().caller == caller,
            final(self).exec_contexts@.last().callee.0@ == Seq::new(
                ADDRESS_LENGTH as nat,
                |i: int| 0u8,
            ),
            final(self).storage@ == old(self).storage@,
            final(self).blocks@ == old(self).blocks@,
            final(self).events@ == old(self).events@,
            final(self).calls@ == old(self).calls@,
            final(self).terminal == old(self).terminal,
            final(self).wf() == old(self).wf(),
    {
        let callee = Address::repeat(0);
        self.exec_contexts.push(ExecContext::new(caller, callee));
        proof {
            assert(self.exec_contexts@.drop_last() =~= old(self).exec_contexts@);
        }
    }

    /// Pushes an execution context, emulating one frame of a nested call.
    /// Popping it emulates the return.
    pub fn set_caller_callee(&mut self, caller: Address, callee: Address)
        ensures
            final(self).exec_contexts@ == old(self).exec_contexts@.push(
                (ExecContext { caller, callee }),
            ),
            final(self).storage@ == old(self).storage@,
            final(self).blocks@ == old(self).blocks@,
            final(self).events@ == old(self).events@,
            final(self).calls@ == old(self).calls@,
            final(self).terminal == old(self).terminal,
            final(self).wf() == old(self).wf(),
    {
        self.exec_contexts.push(ExecContext::new(caller, callee));
    }

    /// Pops the innermost execution context, if any.
    pub fn pop_execution_context(&mut self)
        ensures
            old(self).exec_contexts@.len() > 0 ==> final(self).exec_contexts@ == old(
                self,
            ).exec_contexts@.drop_last(),
            old(self).exec_contexts@.len() == 0 ==> final(self).exec_contexts@ == old(
                self,
            ).exec_contexts@,
            final(self).storage@ == old(self).storage@,
            final(self).blocks@ == old(self).blocks@,
            final(self).events@ == old(self).events@,
            final(self).calls@ == old(self).calls@,
            final(self).terminal == old(self).terminal,
            final(self).wf() == old(self).wf(),
    {
        let _ = self.exec_contexts.pop();
    }

    /// The recorded events, in emission order.
    pub fn get_events(&self) -> (r: &Vec<Event>)
        ensures
            r == &self.events,
    {
        &self.events
    }
}

/// The named accounts test code conventionally uses.
pub struct DefaultAccounts {
    pub alice: Address,
    pub bob: Address,
    pub charlie: Address,
    pub david: Address,
    pub eve: Address,
    pub frank: Address,
}

/// The default accounts for testing purposes: Alice, Bob, Charlie, David,
/// Eve and Frank, each a repeated-byte address.
pub fn default_accounts() -> (r: DefaultAccounts)
    ensures
        r.alice.0@ == Seq::new(ADDRESS_LENGTH as nat, |i: int| 0xffu8),
        r.bob.0@ == Seq::new(ADDRESS_LENGTH as nat, |i: int| 0x01u8),
        r.charlie.0@ == Seq::new(ADDRESS_LENGTH as nat, |i: int| 0x02u8),
        r.david.0@ == Seq::new(ADDRESS_LENGTH as nat, |i: int| 0x03u8),
        r.eve.0@ == Seq::new(ADDRESS_LENGTH as nat, |i: int| 0x04u8),
        r.frank.0@ == Seq::new(ADDRESS_LENGTH as nat, |i: int| 0x05u8),
{
    DefaultAccounts {
        alice: Address::repeat(0xff),
        bob: Address::repeat(0x01),
        charlie: Address::repeat(0x02),
        david: Address::repeat(0x03),
        eve: Address::repeat(0x04),
        frank: Address::repeat(0x05),
    }
}

/// Law: the execution contexts form a LIFO stack. Pushing two contexts and
/// popping once leaves the first pushed context innermost, so its caller is
/// what `get_caller` then reports. The other half of the law — a query on
/// an empty stack fails loudly rather than returning a default — is the
/// `None` clause of [`EnvInstance::try_get_caller`] and
/// [`EnvInstance::try_current_exec_context`], stated for every state.
pub proof fn lemma_context_stack_lifo(
    s: Seq<ExecContext>,
    first: ExecContext,
    second: ExecContext,
)
    ensures
        s.push(first).push(second).drop_last() == s.push(first),
        s.push(first).push(second).drop_last().last() == first,
        s.push(first).push(second).drop_last().last().caller == first.caller,
{
    assert(s.push(first).push(second).drop_last() =~= s.push(first));
}

/// Law: storage round-trip. After mapping `k` to a non-empty `v`, the
/// storage model holds exactly `v` at `k`, which is what
/// [`EnvInstance::get_storage`] then returns. (An empty value cannot be
/// read back: removal stores the empty value, and the host's size probe
/// reports it as absent.)
pub proof fn lemma_storage_roundtrip(m: Map<Seq<u8>, Seq<u8>>, k: Seq<u8>, v: Seq<u8>)
    requires
        v.len() > 0,
    ensures
        m.insert(k, v).contains_key(k),
        m.insert(k, v)[k] == v,
{
}

} // verus!
