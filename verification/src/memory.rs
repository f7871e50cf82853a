//! A model of the host memory that the inspection protocol may read.
//!
//! The live server hands out raw bytes of the host's address space; the
//! verified model services reads only inside one described region, the
//! `MemoryImage`. An address outside the image stands for a memory-access
//! fault, which in the live host ends the whole process; in the model it
//! ends the session that issued the read.

use vstd::prelude::*;

verus! {

/// True when `[addr, addr + len)` lies inside the region of `size` bytes
/// that starts at `base`.
pub open spec fn span_in_bounds(base: u64, size: nat, addr: u64, len: u64) -> bool {
    &&& base <= addr
    &&& addr + len <= base + size
}

/// The bytes of `[addr, addr + len)` in the region `data` that starts at `base`.
pub open spec fn span_bytes(base: u64, data: Seq<u8>, addr: u64, len: u64) -> Seq<u8>
    recommends
        span_in_bounds(base, data.len(), addr, len),
{
    data.subrange(addr - base, addr - base + len)
}

/// A contiguous region of host memory, described by its starting address
/// and a copy of its content.
pub struct MemoryImage {
    base: u64,
    data: Vec<u8>,
}

impl MemoryImage {
    /// The address of the region's first byte.
    pub closed spec fn base(&self) -> u64 {
        self.base
    }

    /// The region's content.
    pub closed spec fn bytes(&self) -> Seq<u8> {
        self.data@
    }

    /// Describe the region of `data.len()` bytes that starts at `base`.
    pub fn new(base: u64, data: Vec<u8>) -> (r: Self)
        ensures
            r.base() == base,
            r.bytes() == data@,
    {
        MemoryImage { base, data }
    }

    /// Serve a read request: the bytes of `[addr, addr + len)` when the span
    /// lies inside the image, and nothing at all otherwise.
    pub fn read_span(&self, addr: u64, len: u64) -> (r: Option<Vec<u8>>)
        ensures
            r is Some <==> span_in_bounds(self.base(), self.bytes().len(), addr, len),
            r matches Some(v) ==> v@ == span_bytes(self.base(), self.bytes(), addr, len),
            r matches Some(v) ==> v@.len() == len,
    {
        let size: u64 = self.data.len() as u64;
        if addr < self.base {
            return None;
        }
        let off: u64 = addr - self.base;
        if off > size || len > size - off {
            return None;
        }
        let start: usize = off as usize;
        let n: usize = len as usize;
        let dlen: usize = self.data.len();
        let mut out: Vec<u8> = Vec::new();
        let mut i: usize = 0;
        while i < n
            invariant
                i <= n,
                n == len,
                start == addr - self.base,
                dlen == self.data@.len(),
                start + n <= dlen,
                out@.len() == i,
                forall|j: int| 0 <= j < i ==> out@[j] == self.data@[start + j],
            decreases n - i,
        {
            out.push(self.data[start + i]);
            i = i + 1;
        }
        proof {
            assert(out@ =~= span_bytes(self.base(), self.bytes(), addr, len));
        }
        Some(out)
    }
}

} // verus!
