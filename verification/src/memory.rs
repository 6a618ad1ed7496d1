//! The guest's linear memory, as the verified core sees it: a byte-addressed
//! region with bounds-checked reads and writes. Every transfer across the
//! sandbox boundary validates offset and length against the region's size;
//! an out-of-bounds access fails, it never truncates or wraps.

use vstd::prelude::*;

verus! {

/// A guest's private linear memory region.
pub struct GuestMemory {
    /// The bytes of the region.
    pub data: Vec<u8>,
}

/// The region `data` after `bytes` were written at `offset`, assuming the
/// window is in bounds.
pub open spec fn written(data: Seq<u8>, offset: u32, bytes: Seq<u8>) -> Seq<u8> {
    data.subrange(0, offset as int) + bytes + data.subrange(
        offset + bytes.len(),
        data.len() as int,
    )
}

impl GuestMemory {
    /// True when the window `[offset, offset + len)` lies inside the region.
    pub open spec fn spec_in_bounds(self, offset: u32, len: u32) -> bool {
        offset + len <= self.data@.len()
    }

    /// True when `count` more bytes fit at `offset` inside the region.
    pub open spec fn spec_fits(self, offset: u32, count: nat) -> bool {
        offset + count <= self.data@.len()
    }

    /// A fresh zero-filled region of `size` bytes.
    pub fn new(size: usize) -> (r: Self)
        ensures
            r.data@ =~= Seq::new(size as nat, |i: int| 0u8),
    {
        GuestMemory { data: vec![0u8; size] }
    }

    /// The size of the region in bytes.
    pub fn size(&self) -> (r: usize)
        ensures
            r == self.data@.len(),
    {
        self.data.len()
    }

    /// True when the window `[offset, offset + len)` lies inside the region.
    pub fn in_bounds(&self, offset: u32, len: u32) -> (r: bool)
        ensures
            r == self.spec_in_bounds(offset, len),
    {
        let offset: usize = offset as usize;
        let len: usize = len as usize;
        offset <= self.data.len() && len <= self.data.len() - offset
    }

    /// Copies `len` bytes starting at `offset` out of the region, or refuses
    /// when the window is out of bounds.
    pub fn read(&self, offset: u32, len: u32) -> (r: Option<Vec<u8>>)
        ensures
            self.spec_in_bounds(offset, len) ==> (r matches Some(b) && b@ =~= self.data@.subrange(
                offset as int,
                offset + len,
            )),
            !self.spec_in_bounds(offset, len) ==> r is None,
    {
        if !self.in_bounds(offset, len) {
            return None;
        }
        let start: usize = offset as usize;
        let count: usize = len as usize;
        let mem_len: usize = self.data.len();
        let mut out: Vec<u8> = Vec::new();
        let mut i: usize = 0;
        while i < count
            invariant
                start + count <= mem_len,
                mem_len == self.data@.len(),
                i <= count,
                out@ =~= self.data@.subrange(start as int, start + i),
            decreases count - i,
        {
            out.push(self.data[start + i]);
            i = i + 1;
        }
        Some(out)
    }

    /// Writes `bytes` verbatim at `offset`, or refuses without changing
    /// anything when the window is out of bounds.
    pub fn write(&mut self, offset: u32, bytes: &[u8]) -> (ok: bool)
        ensures
            ok == old(self).spec_fits(offset, bytes@.len()),
            ok ==> final(self).data@ =~= written(old(self).data@, offset, bytes@),
            !ok ==> final(self).data@ == old(self).data@,
    {
        let len: usize = bytes.len();
        let start: usize = offset as usize;
        if start > self.data.len() || len > self.data.len() - start {
            return false;
        }
        let mem_len: usize = self.data.len();
        let mut i: usize = 0;
        while i < len
            invariant
                start + len <= mem_len,
                mem_len == self.data@.len(),
                i <= len,
                len == bytes@.len(),
                self.data@.len() == old(self).data@.len(),
                self.data@.subrange(0, start as int) =~= old(self).data@.subrange(
                    0,
                    start as int,
                ),
                self.data@.subrange(start as int, start + i) =~= bytes@.subrange(0, i as int),
                self.data@.subrange(start + len, self.data@.len() as int) =~= old(self).data@.subrange(start + len, old(self).data@.len() as int),
            decreases len - i,
        {
            self.data[start + i] = bytes[i];
            i = i + 1;
        }
        proof {
            assert(bytes@.subrange(0, len as int) =~= bytes@);
            assert(self.data@.subrange(start as int, start + len) =~= bytes@);
            assert forall|k: int| 0 <= k < self.data@.len() implies self.data@[k] == written(
                old(self).data@,
                offset,
                bytes@,
            )[k] by {
                if k < start {
                    assert(self.data@.subrange(0, start as int)[k] == self.data@[k]);
                    assert(old(self).data@.subrange(0, start as int)[k] == old(self).data@[k]);
                } else if k < start + len {
                    assert(self.data@.subrange(start as int, start + len)[k - start]
                        == self.data@[k]);
                } else {
                    assert(self.data@.subrange(start + len, self.data@.len() as int)[k - start
                        - len] == self.data@[k]);
                    assert(old(self).data@.subrange(start + len, old(self).data@.len() as int)[k
                        - start - len] == old(self).data@[k]);
                }
            }
            assert(self.data@ =~= written(old(self).data@, offset, bytes@));
        }
        true
    }
}

} // verus!
