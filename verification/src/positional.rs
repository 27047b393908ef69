//! The positional capability traits and the exact-transfer loops.
//!
//! The traits come in two families. Shared-handle traits ([`ReadAt`],
//! [`WriteAt`]) take `&self`: a call must not rely on or disturb any state a
//! concurrent caller could observe, such as a cursor. Exclusive-handle traits
//! ([`ReadAtMut`], [`WriteAtMut`]) take `&mut self` and may move internal
//! state around. Every shared-handle implementation also satisfies the
//! exclusive-handle contract, by a blanket forwarding impl: taking exclusive
//! access is always sufficient where shared access would do.

use vstd::prelude::*;

use crate::bufops::copy_into;
use crate::bufops::zeroed;
use crate::errors::IoError;
use crate::model::StoreModel;
use crate::model::full_read_len;
use crate::model::lemma_write_effect_append;
use crate::model::write_effect;

verus! {

/// What an exact-transfer loop does with the outcome of one single call.
#[derive(Clone, Copy, Debug, PartialEq, Eq, Structural)]
pub enum ExactStep {
    /// Consume `n` transferred bytes: the offset moves forward by `n` and the
    /// remaining buffer shrinks by `n`.
    Advance(usize),
    /// Retry the same call with the offset and the remaining buffer exactly
    /// as they were.
    RetryInPlace,
    /// The source reported end-of-data while bytes remained to be read.
    SourceExhausted,
    /// Stop and surface this error.
    Abort(IoError),
}

/// The exact-read loop's decision for one single-call outcome, given how many
/// bytes were still missing.
pub open spec fn read_step_decision(outcome: Result<usize, IoError>, remaining: nat) -> ExactStep {
    match outcome {
        Ok(n) => if n == 0 && remaining > 0 {
            ExactStep::SourceExhausted
        } else {
            ExactStep::Advance(n)
        },
        Err(e) => if e == IoError::Interrupted {
            ExactStep::RetryInPlace
        } else {
            ExactStep::Abort(e)
        },
    }
}

/// The exact-write loop's decision for one single-call outcome. It differs
/// from the read loop in one point: a writer that reports zero progress while
/// bytes remain is an error, never a quiet end-of-data.
pub open spec fn write_step_decision(outcome: Result<usize, IoError>, remaining: nat) -> ExactStep {
    match outcome {
        Ok(n) => if n == 0 && remaining > 0 {
            ExactStep::Abort(IoError::WriteZero)
        } else {
            ExactStep::Advance(n)
        },
        Err(e) => if e == IoError::Interrupted {
            ExactStep::RetryInPlace
        } else {
            ExactStep::Abort(e)
        },
    }
}

/// Takes the exact-read loop's decision for one single-call outcome.
pub fn decide_read_step(outcome: Result<usize, IoError>, remaining: usize) -> (d: ExactStep)
    ensures
        d == read_step_decision(outcome, remaining as nat),
{
    match outcome {
        Ok(n) => if n == 0 && remaining > 0 {
            ExactStep::SourceExhausted
        } else {
            ExactStep::Advance(n)
        },
        Err(e) => if e == IoError::Interrupted {
            ExactStep::RetryInPlace
        } else {
            ExactStep::Abort(e)
        },
    }
}

/// Takes the exact-write loop's decision for one single-call outcome.
pub fn decide_write_step(outcome: Result<usize, IoError>, remaining: usize) -> (d: ExactStep)
    ensures
        d == write_step_decision(outcome, remaining as nat),
{
    match outcome {
        Ok(n) => if n == 0 && remaining > 0 {
            ExactStep::Abort(IoError::WriteZero)
        } else {
            ExactStep::Advance(n)
        },
        Err(e) => if e == IoError::Interrupted {
            ExactStep::RetryInPlace
        } else {
            ExactStep::Abort(e)
        },
    }
}

/// A transient interruption never advances the exact-transfer loops: the
/// decision for an `Interrupted` single call is to retry with the offset and
/// the remaining buffer exactly as they were, for reads and writes alike.
pub proof fn lemma_interrupted_keeps_position(remaining: nat)
    ensures
        read_step_decision(Err(IoError::Interrupted), remaining) == ExactStep::RetryInPlace,
        write_step_decision(Err(IoError::Interrupted), remaining) == ExactStep::RetryInPlace,
{
}

/// Shared-handle positional reading.
///
/// Calls go through `&self`, so they must leave every observable part of the
/// handle alone; in particular, a cursor the resource separately exposes may
/// not move. A shared-handle single call never reports `Interrupted`: with no
/// exclusive state to spend retry budget against, transient interruptions are
/// the implementation's own to absorb.
pub trait ReadAt: StoreModel {
    /// Reads up to `buf.len()` bytes starting at `offset` into the front of
    /// `buf`, and returns how many bytes were read. A short read is not an
    /// error; reading zero bytes into a non-empty buffer signals that the
    /// data ends at or before `offset`.
    fn read_at(&self, buf: &mut Vec<u8>, offset: u64) -> (r: Result<usize, IoError>)
        ensures
            final(buf)@.len() == old(buf)@.len(),
            match r {
                Ok(n) => {
                    &&& n <= old(buf)@.len()
                    &&& offset as int + n as int <= u64::MAX as int
                    &&& (self.transparent() ==> {
                        &&& (n > 0 ==> offset as int + n as int <= self.data().len()
                            && final(buf)@ == self.data().subrange(
                                offset as int,
                                offset as int + n as int,
                            ) + old(buf)@.skip(n as int))
                        &&& (n == 0 ==> final(buf)@ == old(buf)@
                            && (old(buf)@.len() > 0 ==> self.data().len() <= offset as int))
                    })
                },
                Err(e) => {
                    &&& e != IoError::Interrupted
                    &&& final(buf)@ == old(buf)@
                },
            },
            self.infallible() ==> r is Ok && r->Ok_0 == full_read_len(
                self.data().len() as int,
                offset as int,
                old(buf)@.len() as int,
            ),
    ;

    /// Fills `buf` completely from `offset`, or fails: a successful return
    /// never leaves the buffer partially filled. When the data runs out
    /// first, the failure is `UnexpectedEndOfData`.
    fn read_exact_at(&self, buf: &mut Vec<u8>, offset: u64) -> (r: Result<(), IoError>)
        ensures
            final(buf)@.len() == old(buf)@.len(),
            match r {
                Ok(()) => self.transparent() && old(buf)@.len() > 0 ==> {
                    &&& offset as int + old(buf)@.len() <= self.data().len()
                    &&& final(buf)@ == self.data().subrange(
                        offset as int,
                        offset as int + old(buf)@.len() as int,
                    )
                },
                Err(e) => e != IoError::Interrupted,
            },
            self.infallible() ==> {
                &&& (r is Ok <==> (old(buf)@.len() == 0 || offset as int + old(buf)@.len()
                    <= self.data().len()))
                &&& (r is Err ==> r == Err::<(), IoError>(IoError::UnexpectedEndOfData))
            },
    {
        let mut pos: usize = 0;
        while pos < buf.len()
            invariant
                pos <= buf@.len(),
                buf@.len() == old(buf)@.len(),
                offset as int + pos as int <= u64::MAX as int,
                self.transparent() ==> {
                    &&& (pos > 0 ==> offset as int + pos as int <= self.data().len())
                    &&& (forall|j: int| 0 <= j < pos ==> buf@[j] == self.data()[offset + j])
                    &&& (forall|j: int| pos <= j < buf@.len() ==> buf@[j] == old(buf)@[j])
                },
                self.infallible() && pos > 0 ==> offset as int + pos as int <= self.data().len(),
            decreases buf@.len() - pos,
        {
            let want = buf.len() - pos;
            let mut tmp = zeroed(want);
            let cur = offset + pos as u64;
            // A shared-handle single call never reports `Interrupted` (see
            // the contract of `read_at`), so there is no retry arm here.
            match self.read_at(&mut tmp, cur) {
                Ok(n) => {
                    if n == 0 {
                        return Err(IoError::UnexpectedEndOfData);
                    }
                    let ghost data = self.data();
                    let ghost chunk = data.subrange(cur as int, cur as int + n as int);
                    copy_into(buf, pos, &tmp, 0, n);
                    proof {
                        if self.transparent() {
                            assert forall|j: int| pos <= j < pos + n implies buf@[j]
                                == data[offset + j] by {
                                assert(tmp@[j - pos] == chunk[j - pos]);
                            }
                        }
                    }
                    pos = pos + n;
                },
                Err(e) => {
                    return Err(e);
                },
            }
        }
        proof {
            if self.transparent() && old(buf)@.len() > 0 {
                assert(buf@ =~= self.data().subrange(
                    offset as int,
                    offset as int + old(buf)@.len() as int,
                ));
            }
        }
        Ok(())
    }
}

/// Exclusive-handle positional reading.
///
/// Calls go through `&mut self` and may rearrange internal state, such as a
/// cursor, but the content itself is left as it was. A call may report
/// `Interrupted`, as long as it spends interruption budget doing so; the
/// exact-transfer loop retries such a call in place.
pub trait ReadAtMut: StoreModel {
    /// Reads up to `buf.len()` bytes starting at `offset` into the front of
    /// `buf`, and returns how many bytes were read. A short read is not an
    /// error; reading zero bytes into a non-empty buffer signals that the
    /// data ends at or before `offset`.
    fn read_at(&mut self, buf: &mut Vec<u8>, offset: u64) -> (r: Result<usize, IoError>)
        ensures
            final(buf)@.len() == old(buf)@.len(),
            final(self).data() == old(self).data(),
            final(self).transparent() == old(self).transparent(),
            final(self).infallible() == old(self).infallible(),
            final(self).interruption_budget() <= old(self).interruption_budget(),
            match r {
                Ok(n) => {
                    &&& n <= old(buf)@.len()
                    &&& offset as int + n as int <= u64::MAX as int
                    &&& (old(self).transparent() ==> {
                        &&& (n > 0 ==> offset as int + n as int <= old(self).data().len()
                            && final(buf)@ == old(self).data().subrange(
                                offset as int,
                                offset as int + n as int,
                            ) + old(buf)@.skip(n as int))
                        &&& (n == 0 ==> final(buf)@ == old(buf)@
                            && (old(buf)@.len() > 0 ==> old(self).data().len() <= offset as int))
                    })
                },
                Err(e) => {
                    &&& final(buf)@ == old(buf)@
                    &&& (e == IoError::Interrupted ==> final(self).interruption_budget()
                        < old(self).interruption_budget())
                },
            },
            old(self).infallible() ==> r is Ok && r->Ok_0 == full_read_len(
                old(self).data().len() as int,
                offset as int,
                old(buf)@.len() as int,
            ),
    ;

    /// Fills `buf` completely from `offset`, or fails: a successful return
    /// never leaves the buffer partially filled. `Interrupted` single calls
    /// are retried in place and never surface; when the data runs out first,
    /// the failure is `UnexpectedEndOfData`.
    fn read_exact_at(&mut self, buf: &mut Vec<u8>, offset: u64) -> (r: Result<(), IoError>)
        ensures
            final(buf)@.len() == old(buf)@.len(),
            final(self).data() == old(self).data(),
            final(self).transparent() == old(self).transparent(),
            final(self).infallible() == old(self).infallible(),
            final(self).interruption_budget() <= old(self).interruption_budget(),
            match r {
                Ok(()) => old(self).transparent() && old(buf)@.len() > 0 ==> {
                    &&& offset as int + old(buf)@.len() <= old(self).data().len()
                    &&& final(buf)@ == old(self).data().subrange(
                        offset as int,
                        offset as int + old(buf)@.len() as int,
                    )
                },
                Err(e) => e != IoError::Interrupted,
            },
            old(self).infallible() ==> {
                &&& (r is Ok <==> (old(buf)@.len() == 0 || offset as int + old(buf)@.len()
                    <= old(self).data().len()))
                &&& (r is Err ==> r == Err::<(), IoError>(IoError::UnexpectedEndOfData))
            },
    {
        let mut pos: usize = 0;
        while pos < buf.len()
            invariant
                pos <= buf@.len(),
                buf@.len() == old(buf)@.len(),
                self.data() == old(self).data(),
                self.transparent() == old(self).transparent(),
                self.infallible() == old(self).infallible(),
                self.interruption_budget() <= old(self).interruption_budget(),
                offset as int + pos as int <= u64::MAX as int,
                old(self).transparent() ==> {
                    &&& (pos > 0 ==> offset as int + pos as int <= old(self).data().len())
                    &&& (forall|j: int| 0 <= j < pos ==> buf@[j] == old(self).data()[offset + j])
                    &&& (forall|j: int| pos <= j < buf@.len() ==> buf@[j] == old(buf)@[j])
                },
                old(self).infallible() && pos > 0 ==> offset as int + pos as int <= old(
                    self,
                ).data().len(),
            decreases buf@.len() - pos, self.interruption_budget(),
        {
            let want = buf.len() - pos;
            let mut tmp = zeroed(want);
            let cur = offset + pos as u64;
            let outcome = self.read_at(&mut tmp, cur);
            match decide_read_step(outcome, want) {
                ExactStep::Advance(n) => {
                    let ghost data = old(self).data();
                    let ghost chunk = data.subrange(cur as int, cur as int + n as int);
                    copy_into(buf, pos, &tmp, 0, n);
                    proof {
                        if old(self).transparent() {
                            assert forall|j: int| pos <= j < pos + n implies buf@[j]
                                == data[offset + j] by {
                                assert(tmp@[j - pos] == chunk[j - pos]);
                            }
                        }
                    }
                    pos = pos + n;
                },
                ExactStep::RetryInPlace => {
                },
                ExactStep::SourceExhausted => {
                    return Err(IoError::UnexpectedEndOfData);
                },
                ExactStep::Abort(e) => {
                    return Err(e);
                },
            }
        }
        proof {
            if old(self).transparent() && old(buf)@.len() > 0 {
                assert(buf@ =~= old(self).data().subrange(
                    offset as int,
                    offset as int + old(buf)@.len() as int,
                ));
            }
        }
        Ok(())
    }
}

/// Shared-handle positional writing.
///
/// Calls go through `&self`: they must not disturb any state a concurrent
/// caller could observe, such as a cursor, even though the stored bytes
/// themselves change underneath. For that very reason a shared-handle writer
/// can never be `transparent()`: its content is not a function of the handle,
/// and the contracts record that fact. A shared-handle single call never
/// reports `Interrupted`.
pub trait WriteAt: StoreModel {
    /// Writes up to `buf.len()` bytes starting at `offset`, and returns how
    /// many bytes were written. A short write is not an error.
    fn write_at(&self, buf: &[u8], offset: u64) -> (r: Result<usize, IoError>)
        ensures
            !self.transparent(),
            match r {
                Ok(n) => {
                    &&& n <= buf@.len()
                    &&& offset as int + n as int <= u64::MAX as int
                },
                Err(e) => e != IoError::Interrupted,
            },
            self.infallible() && offset as int + buf@.len() <= usize::MAX as int ==> r is Ok
                && r->Ok_0 == buf@.len(),
    ;

    /// Writes all of `buf` at `offset`, or fails: success is never reported
    /// with fewer than `buf.len()` bytes written. A single call that makes no
    /// progress while bytes remain fails with `WriteZero`.
    fn write_all_at(&self, buf: &[u8], offset: u64) -> (r: Result<(), IoError>)
        ensures
            buf@.len() > 0 ==> !self.transparent(),
            match r {
                Ok(()) => buf@.len() > 0 ==> offset as int + buf@.len() <= u64::MAX as int,
                Err(e) => e != IoError::Interrupted,
            },
            self.infallible() && offset as int + buf@.len() <= usize::MAX as int ==> r is Ok,
    {
        let mut pos: usize = 0;
        while pos < buf.len()
            invariant
                pos <= buf@.len(),
                offset as int + pos as int <= u64::MAX as int,
                pos > 0 ==> !self.transparent(),
            decreases buf@.len() - pos,
        {
            let cur = offset + pos as u64;
            // A shared-handle single call never reports `Interrupted` (see
            // the contract of `write_at`), so there is no retry arm here.
            match self.write_at(&buf[pos..buf.len()], cur) {
                Ok(n) => {
                    if n == 0 {
                        return Err(IoError::WriteZero);
                    }
                    pos = pos + n;
                },
                Err(e) => {
                    return Err(e);
                },
            }
        }
        Ok(())
    }
}

/// Exclusive-handle positional writing.
///
/// Calls go through `&mut self` and may rearrange internal state, such as a
/// cursor. A call may report `Interrupted`, as long as it spends interruption
/// budget doing so; the exact-transfer loop retries such a call in place.
pub trait WriteAtMut: StoreModel {
    /// Writes up to `buf.len()` bytes starting at `offset`, and returns how
    /// many bytes were written. A short write is not an error. Writing past
    /// the current end of the data pads the gap with zero bytes.
    fn write_at(&mut self, buf: &[u8], offset: u64) -> (r: Result<usize, IoError>)
        ensures
            final(self).transparent() == old(self).transparent(),
            final(self).infallible() == old(self).infallible(),
            final(self).interruption_budget() <= old(self).interruption_budget(),
            match r {
                Ok(n) => {
                    &&& n <= buf@.len()
                    &&& offset as int + n as int <= u64::MAX as int
                    &&& (old(self).transparent() ==> final(self).data() == write_effect(
                        old(self).data(),
                        offset as int,
                        buf@.take(n as int),
                    ))
                },
                Err(e) => {
                    &&& final(self).data() == old(self).data()
                    &&& (e == IoError::Interrupted ==> final(self).interruption_budget()
                        < old(self).interruption_budget())
                },
            },
            old(self).infallible() && offset as int + buf@.len() <= usize::MAX as int ==> r is Ok
                && r->Ok_0 == buf@.len(),
    ;

    /// Writes all of `buf` at `offset`, or fails: success is never reported
    /// with fewer than `buf.len()` bytes written. `Interrupted` single calls
    /// are retried in place and never surface; a single call that makes no
    /// progress while bytes remain fails with `WriteZero`. On failure the
    /// data holds some prefix of `buf`, written where it belongs.
    fn write_all_at(&mut self, buf: &[u8], offset: u64) -> (r: Result<(), IoError>)
        ensures
            final(self).transparent() == old(self).transparent(),
            final(self).infallible() == old(self).infallible(),
            final(self).interruption_budget() <= old(self).interruption_budget(),
            match r {
                Ok(()) => {
                    &&& (buf@.len() > 0 ==> offset as int + buf@.len() <= u64::MAX as int)
                    &&& (old(self).transparent() ==> final(self).data() == write_effect(
                        old(self).data(),
                        offset as int,
                        buf@,
                    ))
                },
                Err(e) => {
                    &&& e != IoError::Interrupted
                    &&& (old(self).transparent() ==> exists|k: int|
                        0 <= k <= buf@.len() && final(self).data() == write_effect(
                            old(self).data(),
                            offset as int,
                            buf@.take(k),
                        ))
                },
            },
            old(self).infallible() && offset as int + buf@.len() <= usize::MAX as int ==> r is Ok,
    {
        let mut pos: usize = 0;
        proof {
            assert(buf@.take(0) =~= Seq::<u8>::empty());
        }
        while pos < buf.len()
            invariant
                pos <= buf@.len(),
                self.transparent() == old(self).transparent(),
                self.infallible() == old(self).infallible(),
                self.interruption_budget() <= old(self).interruption_budget(),
                offset as int + pos as int <= u64::MAX as int,
                old(self).transparent() ==> self.data() == write_effect(
                    old(self).data(),
                    offset as int,
                    buf@.take(pos as int),
                ),
            decreases buf@.len() - pos, self.interruption_budget(),
        {
            let cur = offset + pos as u64;
            let remaining = buf.len() - pos;
            let ghost pre = self.data();
            let outcome = self.write_at(&buf[pos..buf.len()], cur);
            match decide_write_step(outcome, remaining) {
                ExactStep::Advance(n) => {
                    proof {
                        if old(self).transparent() {
                            let chunk = buf@.subrange(pos as int, buf@.len() as int).take(n as int);
                            lemma_write_effect_append(
                                old(self).data(),
                                offset as int,
                                buf@.take(pos as int),
                                chunk,
                            );
                            assert(buf@.take(pos as int) + chunk =~= buf@.take(pos + n));
                        }
                    }
                    pos = pos + n;
                },
                ExactStep::RetryInPlace => {
                },
                ExactStep::SourceExhausted => {
                    // The write decision never takes this arm: a zero-progress
                    // write aborts instead.
                    return Err(IoError::WriteZero);
                },
                ExactStep::Abort(e) => {
                    proof {
                        if old(self).transparent() {
                            assert(self.data() == write_effect(
                                old(self).data(),
                                offset as int,
                                buf@.take(pos as int),
                            ));
                        }
                    }
                    return Err(e);
                },
            }
        }
        proof {
            assert(buf@.take(buf@.len() as int) =~= buf@);
        }
        Ok(())
    }
}

/// Shared-handle reading and writing combined, so that one bound or one
/// trait object can ask for both capabilities at once.
pub trait ReadWriteAt: ReadAt + WriteAt {

}

impl<T: ReadAt + WriteAt + ?Sized> ReadWriteAt for T {

}

/// Exclusive-handle reading and writing combined, so that one bound or one
/// trait object can ask for both capabilities at once.
pub trait ReadWriteAtMut: ReadAtMut + WriteAtMut {

}

impl<T: ReadAtMut + WriteAtMut + ?Sized> ReadWriteAtMut for T {

}

/// Capability widening for reads: anything readable through a shared handle
/// is also readable through an exclusive one, by forwarding each call
/// unchanged.
impl<T: ReadAt + ?Sized> ReadAtMut for T {
    fn read_at(&mut self, buf: &mut Vec<u8>, offset: u64) -> (r: Result<usize, IoError>) {
        ReadAt::read_at(self, buf, offset)
    }

    fn read_exact_at(&mut self, buf: &mut Vec<u8>, offset: u64) -> (r: Result<(), IoError>) {
        ReadAt::read_exact_at(self, buf, offset)
    }
}

/// Capability widening for writes: anything writable through a shared handle
/// is also writable through an exclusive one, by forwarding each call
/// unchanged.
impl<T: WriteAt + ?Sized> WriteAtMut for T {
    fn write_at(&mut self, buf: &[u8], offset: u64) -> (r: Result<usize, IoError>) {
        WriteAt::write_at(self, buf, offset)
    }

    fn write_all_at(&mut self, buf: &[u8], offset: u64) -> (r: Result<(), IoError>) {
        let r = WriteAt::write_all_at(self, buf, offset);
        proof {
            // A shared-handle writer leaves `self` unchanged, which is the
            // empty-prefix outcome of the exclusive contract.
            assert(buf@.take(0) =~= Seq::<u8>::empty());
        }
        r
    }
}

} // verus!
