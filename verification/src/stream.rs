//! Cursor-based streams and the adapter that gives them positional
//! semantics.
//!
//! A [`CursorStream`] is a resource with a current position: sequential reads
//! and writes start at the cursor and advance it, and the cursor can be moved
//! to an absolute offset. [`ReadWriteSeek`] wraps such a stream and turns
//! each positional call into "seek, verify the landing, transfer" — which is
//! exactly why it only ever satisfies the exclusive-handle contracts: every
//! call moves shared cursor state.

use vstd::prelude::*;

use crate::bufops::copy_into;
use crate::bufops::zeroed;
use crate::errors::IoError;
use crate::model::StoreModel;
use crate::model::full_read_len;
use crate::model::lemma_write_effect_append;
use crate::model::write_effect;
use crate::positional::ReadAtMut;
use crate::positional::WriteAtMut;
use crate::positional::ExactStep;
use crate::positional::decide_read_step;
use crate::positional::decide_write_step;
use crate::store::MemStore;
use crate::positional::ReadAt;

verus! {

/// A seek-capable sequential stream, the interface the positional adapter
/// consumes. Reads and writes start at the cursor and
/// advance it by the bytes transferred; a failed call leaves both the cursor
/// and the content where they were.
pub trait CursorStream: StoreModel {
    /// The stream's current position.
    spec fn pos(&self) -> u64;

    /// Moves the cursor to the absolute offset `offset` and returns the
    /// position actually landed on. Callers are expected to verify the
    /// landing; a stream need not land where it was asked to.
    fn seek_to(&mut self, offset: u64) -> (r: Result<u64, IoError>)
        ensures
            final(self).data() == old(self).data(),
            final(self).transparent() == old(self).transparent(),
            final(self).infallible() == old(self).infallible(),
            final(self).interruption_budget() <= old(self).interruption_budget(),
            match r {
                Ok(p) => final(self).pos() == p,
                Err(e) => {
                    &&& final(self).pos() == old(self).pos()
                    &&& (e == IoError::Interrupted ==> final(self).interruption_budget() < old(
                        self,
                    ).interruption_budget())
                },
            },
            old(self).infallible() ==> r == Ok::<u64, IoError>(offset),
    ;

    /// Reads up to `buf.len()` bytes at the cursor into the front of `buf`,
    /// advancing the cursor by the bytes read. Reading zero bytes into a
    /// non-empty buffer signals that the data ends at or before the cursor.
    fn read(&mut self, buf: &mut Vec<u8>) -> (r: Result<usize, IoError>)
        ensures
            final(buf)@.len() == old(buf)@.len(),
            final(self).data() == old(self).data(),
            final(self).transparent() == old(self).transparent(),
            final(self).infallible() == old(self).infallible(),
            final(self).interruption_budget() <= old(self).interruption_budget(),
            match r {
                Ok(n) => {
                    &&& n <= old(buf)@.len()
                    &&& old(self).pos() as int + n as int <= u64::MAX as int
                    &&& final(self).pos() == old(self).pos() + n
                    &&& (old(self).transparent() ==> {
                        &&& (n > 0 ==> old(self).pos() as int + n as int <= old(
                            self,
                        ).data().len() && final(buf)@ == old(self).data().subrange(
                            old(self).pos() as int,
                            old(self).pos() as int + n as int,
                        ) + old(buf)@.skip(n as int))
                        &&& (n == 0 ==> final(buf)@ == old(buf)@ && (old(buf)@.len() > 0 ==> old(
                            self,
                        ).data().len() <= old(self).pos() as int))
                    })
                },
                Err(e) => {
                    &&& final(buf)@ == old(buf)@
                    &&& final(self).pos() == old(self).pos()
                    &&& (e == IoError::Interrupted ==> final(self).interruption_budget() < old(
                        self,
                    ).interruption_budget())
                },
            },
            old(self).infallible() ==> r is Ok && r->Ok_0 == full_read_len(
                old(self).data().len() as int,
                old(self).pos() as int,
                old(buf)@.len() as int,
            ),
    ;

    /// Writes up to `buf.len()` bytes at the cursor, advancing the cursor by
    /// the bytes written. Writing past the end of the data pads the gap with
    /// zero bytes.
    fn write(&mut self, buf: &[u8]) -> (r: Result<usize, IoError>)
        ensures
            final(self).transparent() == old(self).transparent(),
            final(self).infallible() == old(self).infallible(),
            final(self).interruption_budget() <= old(self).interruption_budget(),
            match r {
                Ok(n) => {
                    &&& n <= buf@.len()
                    &&& old(self).pos() as int + n as int <= u64::MAX as int
                    &&& final(self).pos() == old(self).pos() + n
                    &&& (old(self).transparent() ==> final(self).data() == write_effect(
                        old(self).data(),
                        old(self).pos() as int,
                        buf@.take(n as int),
                    ))
                },
                Err(e) => {
                    &&& final(self).data() == old(self).data()
                    &&& final(self).pos() == old(self).pos()
                    &&& (e == IoError::Interrupted ==> final(self).interruption_budget() < old(
                        self,
                    ).interruption_budget())
                },
            },
            old(self).infallible() && old(self).pos() as int + buf@.len() <= usize::MAX as int
                ==> r is Ok && r->Ok_0 == buf@.len(),
    ;

    /// Fills `buf` completely from the cursor, or fails; `Interrupted` single
    /// calls are retried in place. On success the cursor has advanced by
    /// exactly `buf.len()`.
    fn read_exact(&mut self, buf: &mut Vec<u8>) -> (r: Result<(), IoError>)
        ensures
            final(buf)@.len() == old(buf)@.len(),
            final(self).data() == old(self).data(),
            final(self).transparent() == old(self).transparent(),
            final(self).infallible() == old(self).infallible(),
            final(self).interruption_budget() <= old(self).interruption_budget(),
            match r {
                Ok(()) => {
                    &&& old(self).pos() as int + old(buf)@.len() <= u64::MAX as int
                    &&& final(self).pos() == old(self).pos() + old(buf)@.len()
                    &&& (old(self).transparent() && old(buf)@.len() > 0 ==> {
                        &&& old(self).pos() as int + old(buf)@.len() <= old(self).data().len()
                        &&& final(buf)@ == old(self).data().subrange(
                            old(self).pos() as int,
                            old(self).pos() as int + old(buf)@.len() as int,
                        )
                    })
                },
                Err(e) => e != IoError::Interrupted,
            },
            old(self).infallible() ==> {
                &&& (r is Ok <==> (old(buf)@.len() == 0 || old(self).pos() as int + old(
                    buf,
                )@.len() <= old(self).data().len()))
                &&& (r is Err ==> r == Err::<(), IoError>(IoError::UnexpectedEndOfData))
            },
    {
        let ghost pos0 = self.pos();
        let mut pos: usize = 0;
        while pos < buf.len()
            invariant
                pos <= buf@.len(),
                buf@.len() == old(buf)@.len(),
                self.data() == old(self).data(),
                self.transparent() == old(self).transparent(),
                self.infallible() == old(self).infallible(),
                self.interruption_budget() <= old(self).interruption_budget(),
                pos0 == old(self).pos(),
                pos0 as int + pos as int <= u64::MAX as int,
                self.pos() == pos0 + pos,
                old(self).transparent() ==> {
                    &&& (pos > 0 ==> pos0 as int + pos as int <= old(self).data().len())
                    &&& (forall|j: int| 0 <= j < pos ==> buf@[j] == old(self).data()[pos0 + j])
                    &&& (forall|j: int| pos <= j < buf@.len() ==> buf@[j] == old(buf)@[j])
                },
                old(self).infallible() && pos > 0 ==> pos0 as int + pos as int <= old(
                    self,
                ).data().len(),
            decreases buf@.len() - pos, self.interruption_budget(),
        {
            let want = buf.len() - pos;
            let mut tmp = zeroed(want);
            let outcome = self.read(&mut tmp);
            match decide_read_step(outcome, want) {
                ExactStep::Advance(n) => {
                    let ghost data = old(self).data();
                    let ghost chunk = data.subrange(
                        pos0 as int + pos as int,
                        pos0 as int + pos as int + n as int,
                    );
                    copy_into(buf, pos, &tmp, 0, n);
                    proof {
                        if old(self).transparent() {
                            assert forall|j: int| pos <= j < pos + n implies buf@[j]
                                == data[pos0 + j] by {
                                assert(tmp@[j - pos] == chunk[j - pos]);
                            }
                        }
                    }
                    pos = pos + n;
                },
                ExactStep::RetryInPlace => {
                },
                ExactStep::SourceExhausted => {
                    return Err(IoError::UnexpectedEndOfData);
                },
                ExactStep::Abort(e) => {
                    return Err(e);
                },
            }
        }
        proof {
            if old(self).transparent() && old(buf)@.len() > 0 {
                assert(buf@ =~= old(self).data().subrange(
                    pos0 as int,
                    pos0 as int + old(buf)@.len() as int,
                ));
            }
        }
        Ok(())
    }

    /// Writes all of `buf` at the cursor, or fails; `Interrupted` single
    /// calls are retried in place, and a single call that makes no progress
    /// while bytes remain fails with `WriteZero`. On success the cursor has
    /// advanced by exactly `buf.len()`; on failure the data holds some prefix
    /// of `buf`, written where it belongs.
    fn write_all(&mut self, buf: &[u8]) -> (r: Result<(), IoError>)
        ensures
            final(self).transparent() == old(self).transparent(),
            final(self).infallible() == old(self).infallible(),
            final(self).interruption_budget() <= old(self).interruption_budget(),
            match r {
                Ok(()) => {
                    &&& old(self).pos() as int + buf@.len() <= u64::MAX as int
                    &&& final(self).pos() == old(self).pos() + buf@.len()
                    &&& (old(self).transparent() ==> final(self).data() == write_effect(
                        old(self).data(),
                        old(self).pos() as int,
                        buf@,
                    ))
                },
                Err(e) => {
                    &&& e != IoError::Interrupted
                    &&& (old(self).transparent() ==> exists|k: int|
                        0 <= k <= buf@.len() && final(self).data() == write_effect(
                            old(self).data(),
                            old(self).pos() as int,
                            buf@.take(k),
                        ))
                },
            },
            old(self).infallible() && old(self).pos() as int + buf@.len() <= usize::MAX as int
                ==> r is Ok,
    {
        let ghost pos0 = self.pos();
        let mut pos: usize = 0;
        proof {
            assert(buf@.take(0) =~= Seq::<u8>::empty());
        }
        while pos < buf.len()
            invariant
                pos <= buf@.len(),
                self.transparent() == old(self).transparent(),
                self.infallible() == old(self).infallible(),
                self.interruption_budget() <= old(self).interruption_budget(),
                pos0 == old(self).pos(),
                pos0 as int + pos as int <= u64::MAX as int,
                self.pos() == pos0 + pos,
                old(self).transparent() ==> self.data() == write_effect(
                    old(self).data(),
                    pos0 as int,
                    buf@.take(pos as int),
                ),
            decreases buf@.len() - pos, self.interruption_budget(),
        {
            let remaining = buf.len() - pos;
            let ghost pre = self.data();
            let outcome = self.write(&buf[pos..buf.len()]);
            match decide_write_step(outcome, remaining) {
                ExactStep::Advance(n) => {
                    proof {
                        if old(self).transparent() {
                            let chunk = buf@.subrange(pos as int, buf@.len() as int).take(n as int);
                            lemma_write_effect_append(
                                old(self).data(),
                                pos0 as int,
                                buf@.take(pos as int),
                                chunk,
                            );
                            assert(buf@.take(pos as int) + chunk =~= buf@.take(pos + n));
                        }
                    }
                    pos = pos + n;
                },
                ExactStep::RetryInPlace => {
                },
                ExactStep::SourceExhausted => {
                    // The write decision never takes this arm: a zero-progress
                    // write aborts instead.
                    return Err(IoError::WriteZero);
                },
                ExactStep::Abort(e) => {
                    proof {
                        if old(self).transparent() {
                            assert(self.data() == write_effect(
                                old(self).data(),
                                pos0 as int,
                                buf@.take(pos as int),
                            ));
                        }
                    }
                    return Err(e);
                },
            }
        }
        proof {
            assert(buf@.take(buf@.len() as int) =~= buf@);
        }
        Ok(())
    }
}

/// An in-memory cursor stream: a [`MemStore`] together with a position.
pub struct MemStream {
    store: MemStore,
    pos: u64,
}

impl StoreModel for MemStream {
    closed spec fn data(&self) -> Seq<u8> {
        self.store.data()
    }

    open spec fn transparent(&self) -> bool {
        true
    }

    open spec fn infallible(&self) -> bool {
        true
    }

    open spec fn interruption_budget(&self) -> nat {
        0
    }
}

impl MemStream {
    /// A stream over exactly `bytes`, with the cursor at the start.
    pub fn new(bytes: Vec<u8>) -> (s: Self)
        ensures
            s.data() == bytes@,
            s.pos() == 0,
            s.transparent(),
            s.infallible(),
            s.interruption_budget() == 0,
    {
        MemStream { store: MemStore::new(bytes), pos: 0 }
    }

    /// Hands the stored bytes back.
    pub fn into_bytes(self) -> (v: Vec<u8>)
        ensures
            v@ == self.data(),
    {
        self.store.into_bytes()
    }
}

impl CursorStream for MemStream {
    closed spec fn pos(&self) -> u64 {
        self.pos
    }

    fn seek_to(&mut self, offset: u64) -> (r: Result<u64, IoError>) {
        self.pos = offset;
        Ok(offset)
    }

    fn read(&mut self, buf: &mut Vec<u8>) -> (r: Result<usize, IoError>) {
        match ReadAt::read_at(&self.store, buf, self.pos) {
            Ok(n) => {
                self.pos = self.pos + n as u64;
                Ok(n)
            },
            Err(e) => Err(e),
        }
    }

    fn write(&mut self, buf: &[u8]) -> (r: Result<usize, IoError>) {
        match WriteAtMut::write_at(&mut self.store, buf, self.pos) {
            Ok(n) => {
                self.pos = self.pos + n as u64;
                Ok(n)
            },
            Err(e) => Err(e),
        }
    }
}

/// The seek-based positional adapter: wraps a cursor stream and turns each
/// positional call into "seek to the offset, verify the landing, transfer
/// sequentially". It only ever satisfies the exclusive-handle contracts,
/// because every call repositions the shared cursor; a seek that lands on the
/// wrong offset fails with `SeekMismatch` before anything is transferred.
pub struct ReadWriteSeek<T: CursorStream>(pub T);

impl<T: CursorStream> StoreModel for ReadWriteSeek<T> {
    open spec fn data(&self) -> Seq<u8> {
        self.0.data()
    }

    open spec fn transparent(&self) -> bool {
        self.0.transparent()
    }

    open spec fn infallible(&self) -> bool {
        self.0.infallible()
    }

    open spec fn interruption_budget(&self) -> nat {
        self.0.interruption_budget()
    }
}

impl<T: CursorStream> ReadWriteSeek<T> {
    /// Repositions the cursor exactly on `offset` for an exact transfer,
    /// retrying interrupted seeks in place; a seek that lands elsewhere fails
    /// with `SeekMismatch`.
    fn seek_exact(&mut self, offset: u64) -> (r: Result<(), IoError>)
        ensures
            final(self).data() == old(self).data(),
            final(self).transparent() == old(self).transparent(),
            final(self).infallible() == old(self).infallible(),
            final(self).interruption_budget() <= old(self).interruption_budget(),
            match r {
                Ok(()) => final(self).0.pos() == offset,
                Err(e) => e != IoError::Interrupted,
            },
            old(self).infallible() ==> r is Ok,
    {
        loop
            invariant
                self.data() == old(self).data(),
                self.transparent() == old(self).transparent(),
                self.infallible() == old(self).infallible(),
                self.interruption_budget() <= old(self).interruption_budget(),
            decreases self.0.interruption_budget(),
        {
            match self.0.seek_to(offset) {
                Ok(p) => {
                    if p == offset {
                        return Ok(());
                    }
                    return Err(IoError::SeekMismatch);
                },
                Err(e) => {
                    if e != IoError::Interrupted {
                        return Err(e);
                    }
                },
            }
        }
    }
}

impl<T: CursorStream> ReadAtMut for ReadWriteSeek<T> {
    fn read_at(&mut self, buf: &mut Vec<u8>, offset: u64) -> (r: Result<usize, IoError>) {
        let p = match self.0.seek_to(offset) {
            Ok(p) => p,
            Err(e) => {
                return Err(e);
            },
        };
        if p != offset {
            return Err(IoError::SeekMismatch);
        }
        self.0.read(buf)
    }

    fn read_exact_at(&mut self, buf: &mut Vec<u8>, offset: u64) -> (r: Result<(), IoError>) {
        match self.seek_exact(offset) {
            Ok(()) => {
            },
            Err(e) => {
                return Err(e);
            },
        }
        self.0.read_exact(buf)
    }
}

impl<T: CursorStream> WriteAtMut for ReadWriteSeek<T> {
    fn write_at(&mut self, buf: &[u8], offset: u64) -> (r: Result<usize, IoError>) {
        let p = match self.0.seek_to(offset) {
            Ok(p) => p,
            Err(e) => {
                return Err(e);
            },
        };
        if p != offset {
            return Err(IoError::SeekMismatch);
        }
        self.0.write(buf)
    }

    fn write_all_at(&mut self, buf: &[u8], offset: u64) -> (r: Result<(), IoError>) {
        proof {
            assert(buf@.take(0) =~= Seq::<u8>::empty());
        }
        match self.seek_exact(offset) {
            Ok(()) => {
            },
            Err(e) => {
                return Err(e);
            },
        }
        self.0.write_all(buf)
    }
}

} // verus!
