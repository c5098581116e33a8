//! The fixed-capacity scratch buffer of the sandboxed execution path.
//!
//! One buffer is reused by every encode/decode operation within one
//! invocation. Its capacity is fixed at construction (the sandboxed path
//! avoids dynamic allocation); a payload larger than the capacity must be
//! routed by the caller through an ordinary heap-allocated `Vec`, never by
//! growing the buffer — the loading operations refuse, they do not
//! truncate.

use vstd::prelude::*;

verus! {

/// How many bytes the scratch buffer can hold.
pub const SCRATCH_CAPACITY: usize = 16384;

/// A fixed backing region and the count of live bytes in it.
pub struct StaticBuffer {
    data: [u8; SCRATCH_CAPACITY],
    len: usize,
}

impl View for StaticBuffer {
    type V = Seq<u8>;

    /// The live contents: the first `len` bytes of the backing region.
    closed spec fn view(&self) -> Seq<u8> {
        self.data@.take(self.len as int)
    }
}

impl StaticBuffer {
    /// The live region never exceeds the backing region.
    pub closed spec fn wf(&self) -> bool {
        self.len <= SCRATCH_CAPACITY
    }

    /// An empty buffer.
    pub fn new() -> (r: Self)
        ensures
            r.wf(),
            r@ == Seq::<u8>::empty(),
    {
        let r = StaticBuffer { data: [0u8; SCRATCH_CAPACITY], len: 0 };
        proof {
            assert(r@ =~= Seq::<u8>::empty());
        }
        r
    }

    /// How many live bytes the buffer reports.
    pub fn len(&self) -> (r: usize)
        requires
            self.wf(),
        ensures
            r == self@.len(),
    {
        self.len
    }

    /// Whether a payload of `n` bytes can live in the buffer at all.
    pub fn fits(n: usize) -> (r: bool)
        ensures
            r == (n <= SCRATCH_CAPACITY),
    {
        n <= SCRATCH_CAPACITY
    }

    /// Drops all live bytes, as at the start of every encode operation.
    pub fn clear(&mut self)
        requires
            old(self).wf(),
        ensures
            final(self).wf(),
            final(self)@ == Seq::<u8>::empty(),
    {
        self.len = 0;
        proof {
            assert(self@ =~= Seq::<u8>::empty());
        }
    }

    /// Sets the reported length. Bytes the new length has in common with
    /// the old contents are kept; bytes beyond the old length are whatever
    /// the backing region holds, which is why decoding goes through
    /// [`StaticBuffer::load`] instead.
    pub fn resize(&mut self, new_len: usize)
        requires
            old(self).wf(),
            new_len <= SCRATCH_CAPACITY,
        ensures
            final(self).wf(),
            final(self)@.len() == new_len,
            forall|i: int| 0 <= i < new_len && i < old(self)@.len() ==> final(self)@[i] == old(
                self,
            )@[i],
    {
        self.len = new_len;
    }

    /// One live byte.
    pub fn read(&self, i: usize) -> (r: u8)
        requires
            self.wf(),
            i < self@.len(),
        ensures
            r == self@[i as int],
    {
        self.data[i]
    }

    /// Overwrites one live byte.
    pub fn set(&mut self, i: usize, b: u8)
        requires
            old(self).wf(),
            i < old(self)@.len(),
        ensures
            final(self).wf(),
            final(self)@ == old(self)@.update(i as int, b),
    {
        self.data[i] = b;
        proof {
            assert(self@ =~= old(self)@.update(i as int, b));
        }
    }

    /// Fills the buffer with exactly the bytes the backend reported as
    /// available. On success the reported length equals the payload's
    /// length and the contents equal the payload — never stale bytes from
    /// a prior call. A payload over capacity is refused, leaving the
    /// buffer unchanged, and must take the caller's heap path.
    pub fn load(&mut self, payload: &Vec<u8>) -> (ok: bool)
        requires
            old(self).wf(),
        ensures
            final(self).wf(),
            ok == (payload@.len() <= SCRATCH_CAPACITY),
            ok ==> final(self)@ == payload@,
            !ok ==> final(self)@ == old(self)@,
    {
        let n = payload.len();
        if n > SCRATCH_CAPACITY {
            return false;
        }
        let mut i: usize = 0;
        while i < n
            invariant
                i <= n,
                n <= SCRATCH_CAPACITY,
                n == payload@.len(),
                self.wf(),
                self@.len() == old(self)@.len(),
                forall|j: int| 0 <= j < i ==> self.backing()[j] == payload@[j],
            decreases n - i,
        {
            self.data[i] = payload[i];
            i = i + 1;
        }
        self.len = n;
        proof {
            assert(self@ =~= payload@);
        }
        true
    }

    /// Appends encoded bytes, as an encode destination growing from zero.
    /// Refuses (leaving the buffer unchanged) when the result would exceed
    /// the capacity: the caller must then take the heap path.
    pub fn append(&mut self, bytes: &Vec<u8>) -> (ok: bool)
        requires
            old(self).wf(),
        ensures
            final(self).wf(),
            ok == (old(self)@.len() + bytes@.len() <= SCRATCH_CAPACITY),
            ok ==> final(self)@ == old(self)@ + bytes@,
            !ok ==> final(self)@ == old(self)@,
    {
        let n = bytes.len();
        if n > SCRATCH_CAPACITY - self.len {
            return false;
        }
        let start = self.len;
        let mut i: usize = 0;
        while i < n
            invariant
                i <= n,
                start == self@.len(),
                start + n <= SCRATCH_CAPACITY,
                n == bytes@.len(),
                self.wf(),
                forall|j: int| 0 <= j < start ==> self.backing()[j] == old(self)@[j],
                forall|j: int| 0 <= j < i ==> self.backing()[start + j] == bytes@[j],
            decreases n - i,
        {
            self.data[start + i] = bytes[i];
            i = i + 1;
        }
        self.len = start + n;
        proof {
            assert(self@ =~= old(self)@ + bytes@);
        }
        true
    }

    /// The live bytes as an owned heap value.
    pub fn to_vec(&self) -> (r: Vec<u8>)
        requires
            self.wf(),
        ensures
            r@ == self@,
    {
        let n = self.len;
        let mut out: Vec<u8> = Vec::new();
        let mut i: usize = 0;
        while i < n
            invariant
                i <= n,
                self.wf(),
                n == self@.len(),
                out@ == self@.take(i as int),
            decreases n - i,
        {
            out.push(self.data[i]);
            proof {
                assert(out@ =~= self@.take(i + 1 as int));
            }
            i = i + 1;
        }
        proof {
            assert(self@.take(n as int) =~= self@);
        }
        out
    }

    /// The whole backing region, for the loop invariants above.
    closed spec fn backing(&self) -> Seq<u8> {
        self.data@
    }
}

} // verus!
