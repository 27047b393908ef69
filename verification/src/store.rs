//! A reference in-memory positional byte store.
//!
//! [`MemStore`] holds its bytes in a `Vec<u8>` and is the simplest honest
//! implementation of the capability contracts: reads go through a shared
//! handle and never touch any cursor (there is none), writes go through an
//! exclusive handle, and every in-bounds operation succeeds with maximal
//! progress.

use vstd::prelude::*;

use crate::bufops::copy_into;
use crate::errors::IoError;
use crate::model::StoreModel;
use crate::model::write_effect;
use crate::positional::ReadAt;
use crate::positional::WriteAtMut;

verus! {

/// An in-memory positional byte store.
pub struct MemStore {
    bytes: Vec<u8>,
}

impl StoreModel for MemStore {
    closed spec fn data(&self) -> Seq<u8> {
        self.bytes@
    }

    open spec fn transparent(&self) -> bool {
        true
    }

    open spec fn infallible(&self) -> bool {
        true
    }

    open spec fn interruption_budget(&self) -> nat {
        0
    }
}

impl MemStore {
    /// A store holding exactly `bytes`, at offsets from zero.
    pub fn new(bytes: Vec<u8>) -> (s: Self)
        ensures
            s.data() == bytes@,
            s.transparent(),
            s.infallible(),
            s.interruption_budget() == 0,
    {
        MemStore { bytes }
    }

    /// Hands the stored bytes back.
    pub fn into_bytes(self) -> (v: Vec<u8>)
        ensures
            v@ == self.data(),
    {
        self.bytes
    }

    /// How many bytes the store holds.
    pub fn len(&self) -> (n: usize)
        ensures
            n == self.data().len(),
    {
        self.bytes.len()
    }
}

impl ReadAt for MemStore {
    fn read_at(&self, buf: &mut Vec<u8>, offset: u64) -> (r: Result<usize, IoError>) {
        let len = self.bytes.len();
        if offset >= len as u64 {
            return Ok(0);
        }
        let off = offset as usize;
        let avail = len - off;
        let n = if avail < buf.len() {
            avail
        } else {
            buf.len()
        };
        copy_into(buf, 0, &self.bytes, off, n);
        proof {
            if n > 0 {
                assert(buf@ =~= self.data().subrange(offset as int, offset as int + n as int)
                    + old(buf)@.skip(n as int));
            } else {
                assert(buf@ =~= old(buf)@);
            }
        }
        Ok(n)
    }
}

impl WriteAtMut for MemStore {
    fn write_at(&mut self, buf: &[u8], offset: u64) -> (r: Result<usize, IoError>) {
        if buf.len() == 0 {
            return Ok(0);
        }
        if offset > usize::MAX as u64 || buf.len() as u64 > usize::MAX as u64 - offset {
            // The write cannot be addressed in memory; nothing was touched.
            return Err(IoError::Other);
        }
        let off = offset as usize;
        let ghost base = self.bytes@;
        let ghost target = write_effect(base, off as int, buf@);
        while self.bytes.len() < off
            invariant
                self.bytes@.len() <= off || self.bytes@.len() == base.len(),
                base.len() <= self.bytes@.len(),
                forall|j: int| 0 <= j < base.len() ==> self.bytes@[j] == base[j],
                forall|j: int| base.len() <= j < self.bytes@.len() ==> self.bytes@[j] == 0u8,
            decreases off - self.bytes@.len(),
        {
            self.bytes.push(0);
        }
        let mut i: usize = 0;
        while i < buf.len()
            invariant
                i <= buf@.len(),
                off + buf@.len() <= usize::MAX,
                self.bytes@.len() == if base.len() >= off + i {
                    base.len() as int
                } else {
                    off + i
                },
                forall|j: int| 0 <= j < base.len() && j < off ==> self.bytes@[j] == base[j],
                forall|j: int| base.len() <= j < off ==> self.bytes@[j] == 0u8,
                forall|j: int| off <= j < off + i ==> self.bytes@[j] == buf@[j - off],
                forall|j: int|
                    off + i <= j < self.bytes@.len() ==> self.bytes@[j] == base[j],
            decreases buf@.len() - i,
        {
            let j = off + i;
            if j < self.bytes.len() {
                self.bytes[j] = buf[i];
            } else {
                self.bytes.push(buf[i]);
            }
            i += 1;
        }
        proof {
            assert(self.bytes@ =~= target);
            assert(buf@.take(buf@.len() as int) =~= buf@);
        }
        Ok(buf.len())
    }
}

} // verus!
