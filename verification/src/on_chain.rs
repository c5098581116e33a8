//! The host environment backend's verified core.
//!
//! The sandbox realizes every environment operation as a host-function
//! call addressing the scratch buffer's memory region; those calls are the
//! unverified rim around this module. What stands here is everything the
//! backend decides and computes from plain values: the scratch-buffer
//! bookkeeping, the interpretation of host return codes, and the choice
//! between the in-place buffer and the explicit heap path. The rim hands
//! bytes in and takes bytes out; one instance is constructed at invocation
//! entry and threaded through, never duplicated.

use vstd::prelude::*;
use crate::buffer::{StaticBuffer, SCRATCH_CAPACITY};
use crate::types::{Address, EnvError, ADDRESS_LENGTH};

verus! {

/// The host environment: the one scratch buffer of the invocation.
pub struct EnvInstance {
    pub buffer: StaticBuffer,
}

impl EnvInstance {
    pub open spec fn wf(&self) -> bool {
        self.buffer.wf()
    }

    /// A fresh instance with an empty scratch buffer, built once at
    /// invocation entry.
    pub fn new() -> (r: Self)
        ensures
            r.wf(),
            r.buffer@ == Seq::<u8>::empty(),
    {
        EnvInstance { buffer: StaticBuffer::new() }
    }

    /// Empties the scratch buffer, as every encode operation does first.
    pub fn reset_buffer(&mut self)
        requires
            old(self).wf(),
        ensures
            final(self).wf(),
            final(self).buffer@ == Seq::<u8>::empty(),
    {
        self.buffer.clear();
    }

    /// Accepts the bytes a host operation reported as available, making
    /// them the buffer's exact contents; the reported length then equals
    /// their count — never stale data from a prior call. Bytes over
    /// capacity are refused unchanged: the caller must use its heap path.
    pub fn load_host_bytes(&mut self, payload: &Vec<u8>) -> (ok: bool)
        requires
            old(self).wf(),
        ensures
            final(self).wf(),
            ok == (payload@.len() <= SCRATCH_CAPACITY),
            ok ==> final(self).buffer@ == payload@,
            !ok ==> final(self).buffer@ == old(self).buffer@,
    {
        self.buffer.load(payload)
    }

    /// The buffer's live bytes, the source every decode reads.
    pub fn buffer_bytes(&self) -> (r: Vec<u8>)
        requires
            self.wf(),
        ensures
            r@ == self.buffer@,
    {
        self.buffer.to_vec()
    }
}

/// Interprets the host's storage size probe: zero size means the key
/// cannot be read (absent, or removed by storing the empty value); any
/// other size is how many bytes the host wrote.
pub fn interpret_storage_probe(size: u32) -> (r: Result<u32, EnvError>)
    ensures
        size == 0 ==> r == Err::<u32, EnvError>(EnvError::UnableToReadFromStorage),
        size != 0 ==> r == Ok::<u32, EnvError>(size),
{
    if size == 0 {
        Err(EnvError::UnableToReadFromStorage)
    } else {
        Ok(size)
    }
}

/// Interprets the status of a cross-contract host call: non-zero surfaces
/// as a recoverable error, never a crash.
pub fn check_call_status(status: u32) -> (r: Result<(), EnvError>)
    ensures
        status == 0 ==> r == Ok::<(), EnvError>(()),
        status != 0 ==> r == Err::<(), EnvError>(EnvError::FailToCallRemoteContract),
{
    if status == 0 {
        Ok(())
    } else {
        Err(EnvError::FailToCallRemoteContract)
    }
}

/// Whether return data of the reported size takes the in-place scratch
/// buffer; anything larger must take the caller's heap-allocated path.
pub fn use_scratch_path(size: u32) -> (r: bool)
    ensures
        r == (size as nat <= SCRATCH_CAPACITY as nat),
{
    size as usize <= SCRATCH_CAPACITY
}

/// The address the host wrote, read back from its exact byte image.
pub fn address_from_bytes(bytes: &Vec<u8>) -> (r: Option<Address>)
    ensures
        bytes@.len() == ADDRESS_LENGTH ==> (r matches Some(a) && a.0@ == bytes@),
        bytes@.len() != ADDRESS_LENGTH ==> r is None,
{
    if bytes.len() != ADDRESS_LENGTH {
        return None;
    }
    let mut raw = [0u8; ADDRESS_LENGTH];
    let mut i: usize = 0;
    while i < ADDRESS_LENGTH
        invariant
            i <= ADDRESS_LENGTH,
            bytes@.len() == ADDRESS_LENGTH,
            forall|j: int| 0 <= j < i ==> raw@[j] == bytes@[j],
        decreases ADDRESS_LENGTH - i,
    {
        raw[i] = bytes[i];
        i = i + 1;
    }
    proof {
        assert(raw@ =~= bytes@);
    }
    Some(Address(raw))
}

} // verus!
