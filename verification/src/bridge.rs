//! The exclusive-access bridge: a lock-backed wrapper that exposes a
//! shared-handle contract over a resource that only satisfies the
//! exclusive-handle one.
//!
//! The state machine lives in [`BridgeCore`]: a wrapped resource plus a
//! permanent taint flag. A call on a tainted core fails with
//! `LockUnavailable` without touching the resource, and nothing ever clears
//! the taint. [`ShareBridge`] puts a core behind a verified reader-writer
//! lock, acquired exclusively for the full duration of each call — an exact
//! transfer holds the lock across its whole retry loop, so concurrent
//! callers never interleave inside one exact operation.

use vstd::prelude::*;
use vstd::rwlock::RwLock;
use vstd::rwlock::RwLockPredicate;

use crate::errors::IoError;
use crate::model::StoreModel;
use crate::model::full_read_len;
use crate::model::write_effect;
use crate::positional::ReadAt;
use crate::positional::ReadAtMut;
use crate::positional::WriteAt;
use crate::positional::WriteAtMut;

verus! {

/// An exclusive-handle resource together with the bridge's taint flag.
///
/// The flag models lock poisoning generically: it is set by
/// [`BridgeCore::mark_tainted`] (an abnormal release leaves the resource's
/// consistency unverifiable) and never cleared, and every operation on a
/// tainted core fails with `LockUnavailable` with no effect on the resource.
pub struct BridgeCore<T> {
    resource: T,
    tainted: bool,
}

impl<T> BridgeCore<T> {
    /// The wrapped resource.
    pub closed spec fn inner(&self) -> T {
        self.resource
    }

    /// Whether the bridge has been tainted by an abnormal release.
    pub closed spec fn tainted(&self) -> bool {
        self.tainted
    }

    /// A fresh, untainted core around `resource`.
    pub fn new(resource: T) -> (s: Self)
        ensures
            s.inner() == resource,
            !s.tainted(),
    {
        BridgeCore { resource, tainted: false }
    }

    /// Records an abnormal release: from here on every operation fails with
    /// `LockUnavailable` and the resource is never touched again.
    pub fn mark_tainted(&mut self)
        ensures
            final(self).tainted(),
            final(self).inner() == old(self).inner(),
    {
        self.tainted = true;
    }

    /// Whether the core is tainted.
    pub fn is_tainted(&self) -> (t: bool)
        ensures
            t == self.tainted(),
    {
        self.tainted
    }

    /// Hands the wrapped resource back.
    pub fn into_inner(self) -> (r: T)
        ensures
            r == self.inner(),
    {
        self.resource
    }
}

impl<T: ReadAtMut> BridgeCore<T> {
    /// A single positional read under the bridge. Transient interruptions
    /// are absorbed by retrying in place, so the result is fit for the
    /// shared-handle contract, which never surfaces `Interrupted`.
    pub fn read_at(&mut self, buf: &mut Vec<u8>, offset: u64) -> (r: Result<usize, IoError>)
        ensures
            final(self).tainted() == old(self).tainted(),
            final(buf)@.len() == old(buf)@.len(),
            r != Err::<usize, IoError>(IoError::Interrupted),
            old(self).tainted() ==> *final(self) == *old(self) && final(buf)@ == old(buf)@ && r
                == Err::<usize, IoError>(IoError::LockUnavailable),
            !old(self).tainted() ==> {
                &&& final(self).inner().data() == old(self).inner().data()
                &&& final(self).inner().transparent() == old(self).inner().transparent()
                &&& final(self).inner().infallible() == old(self).inner().infallible()
                &&& match r {
                    Ok(n) => {
                        &&& n <= old(buf)@.len()
                        &&& offset as int + n as int <= u64::MAX as int
                        &&& (old(self).inner().transparent() ==> {
                            &&& (n > 0 ==> offset as int + n as int <= old(
                                self,
                            ).inner().data().len() && final(buf)@ == old(
                                self,
                            ).inner().data().subrange(
                                offset as int,
                                offset as int + n as int,
                            ) + old(buf)@.skip(n as int))
                            &&& (n == 0 ==> final(buf)@ == old(buf)@ && (old(buf)@.len() > 0
                                ==> old(self).inner().data().len() <= offset as int))
                        })
                    },
                    Err(e) => final(buf)@ == old(buf)@,
                }
                &&& old(self).inner().infallible() ==> r is Ok && r->Ok_0 == full_read_len(
                    old(self).inner().data().len() as int,
                    offset as int,
                    old(buf)@.len() as int,
                )
            },
    {
        if self.tainted {
            return Err(IoError::LockUnavailable);
        }
        loop
            invariant
                !self.tainted,
                !old(self).tainted,
                self.resource.data() == old(self).resource.data(),
                self.resource.transparent() == old(self).resource.transparent(),
                self.resource.infallible() == old(self).resource.infallible(),
                buf@ == old(buf)@,
            decreases self.resource.interruption_budget(),
        {
            match self.resource.read_at(buf, offset) {
                Ok(n) => {
                    return Ok(n);
                },
                Err(e) => {
                    if e != IoError::Interrupted {
                        return Err(e);
                    }
                },
            }
        }
    }

    /// An exact positional read under the bridge.
    pub fn read_exact_at(&mut self, buf: &mut Vec<u8>, offset: u64) -> (r: Result<(), IoError>)
        ensures
            final(self).tainted() == old(self).tainted(),
            final(buf)@.len() == old(buf)@.len(),
            r != Err::<(), IoError>(IoError::Interrupted),
            old(self).tainted() ==> *final(self) == *old(self) && final(buf)@ == old(buf)@ && r
                == Err::<(), IoError>(IoError::LockUnavailable),
            !old(self).tainted() ==> {
                &&& final(self).inner().data() == old(self).inner().data()
                &&& final(self).inner().transparent() == old(self).inner().transparent()
                &&& final(self).inner().infallible() == old(self).inner().infallible()
                &&& (r is Ok && old(self).inner().transparent() && old(buf)@.len() > 0 ==> {
                    &&& offset as int + old(buf)@.len() <= old(self).inner().data().len()
                    &&& final(buf)@ == old(self).inner().data().subrange(
                        offset as int,
                        offset as int + old(buf)@.len() as int,
                    )
                })
                &&& (old(self).inner().infallible() ==> {
                    &&& (r is Ok <==> (old(buf)@.len() == 0 || offset as int + old(buf)@.len()
                        <= old(self).inner().data().len()))
                    &&& (r is Err ==> r == Err::<(), IoError>(IoError::UnexpectedEndOfData))
                })
            },
    {
        if self.tainted {
            return Err(IoError::LockUnavailable);
        }
        self.resource.read_exact_at(buf, offset)
    }
}

impl<T: WriteAtMut> BridgeCore<T> {
    /// A single positional write under the bridge, with transient
    /// interruptions absorbed as in [`BridgeCore::read_at`].
    pub fn write_at(&mut self, buf: &[u8], offset: u64) -> (r: Result<usize, IoError>)
        ensures
            final(self).tainted() == old(self).tainted(),
            r != Err::<usize, IoError>(IoError::Interrupted),
            old(self).tainted() ==> *final(self) == *old(self) && r == Err::<usize, IoError>(
                IoError::LockUnavailable,
            ),
            !old(self).tainted() ==> {
                &&& final(self).inner().transparent() == old(self).inner().transparent()
                &&& final(self).inner().infallible() == old(self).inner().infallible()
                &&& match r {
                    Ok(n) => {
                        &&& n <= buf@.len()
                        &&& offset as int + n as int <= u64::MAX as int
                        &&& (old(self).inner().transparent() ==> final(self).inner().data()
                            == write_effect(
                            old(self).inner().data(),
                            offset as int,
                            buf@.take(n as int),
                        ))
                    },
                    Err(e) => final(self).inner().data() == old(self).inner().data(),
                }
                &&& (old(self).inner().infallible() && offset as int + buf@.len()
                    <= usize::MAX as int ==> r is Ok && r->Ok_0 == buf@.len())
            },
    {
        if self.tainted {
            return Err(IoError::LockUnavailable);
        }
        loop
            invariant
                !self.tainted,
                !old(self).tainted,
                self.resource.data() == old(self).resource.data(),
                self.resource.transparent() == old(self).resource.transparent(),
                self.resource.infallible() == old(self).resource.infallible(),
            decreases self.resource.interruption_budget(),
        {
            match self.resource.write_at(buf, offset) {
                Ok(n) => {
                    return Ok(n);
                },
                Err(e) => {
                    if e != IoError::Interrupted {
                        return Err(e);
                    }
                },
            }
        }
    }

    /// An exact positional write under the bridge.
    pub fn write_all_at(&mut self, buf: &[u8], offset: u64) -> (r: Result<(), IoError>)
        ensures
            final(self).tainted() == old(self).tainted(),
            r != Err::<(), IoError>(IoError::Interrupted),
            old(self).tainted() ==> *final(self) == *old(self) && r == Err::<(), IoError>(
                IoError::LockUnavailable,
            ),
            !old(self).tainted() ==> {
                &&& final(self).inner().transparent() == old(self).inner().transparent()
                &&& final(self).inner().infallible() == old(self).inner().infallible()
                &&& (r is Ok ==> {
                    &&& (buf@.len() > 0 ==> offset as int + buf@.len() <= u64::MAX as int)
                    &&& (old(self).inner().transparent() ==> final(self).inner().data()
                        == write_effect(old(self).inner().data(), offset as int, buf@))
                })
                &&& (r is Err && old(self).inner().transparent() ==> exists|k: int|
                    0 <= k <= buf@.len() && final(self).inner().data() == write_effect(
                        old(self).inner().data(),
                        offset as int,
                        buf@.take(k),
                    ))
                &&& (old(self).inner().infallible() && offset as int + buf@.len()
                    <= usize::MAX as int ==> r is Ok)
            },
    {
        if self.tainted {
            return Err(IoError::LockUnavailable);
        }
        self.resource.write_all_at(buf, offset)
    }
}

/// The (trivial) lock invariant of the bridge's reader-writer lock: any core
/// value may be stored.
pub struct BridgePred;

impl<T> RwLockPredicate<BridgeCore<T>> for BridgePred {
    open spec fn inv(self, v: BridgeCore<T>) -> bool {
        true
    }
}

/// The exclusive-access bridge: owns an exclusive-handle resource behind a
/// verified reader-writer lock and exposes the shared-handle contracts.
///
/// Every call acquires the lock exclusively for its full duration; an exact
/// transfer keeps it across the whole retry loop, trading contention for the
/// guarantee that concurrent callers never observe a torn transfer. Once the
/// bridge is tainted, every call fails with `LockUnavailable` and the
/// resource is never touched again.
pub struct ShareBridge<T> {
    lock: RwLock<BridgeCore<T>, BridgePred>,
}

impl<T> StoreModel for ShareBridge<T> {
    open spec fn data(&self) -> Seq<u8> {
        Seq::empty()
    }

    open spec fn transparent(&self) -> bool {
        false
    }

    open spec fn infallible(&self) -> bool {
        false
    }

    open spec fn interruption_budget(&self) -> nat {
        0
    }
}

impl<T> ShareBridge<T> {
    /// Bridges `resource`: from here on it is reachable only through the
    /// lock, so nothing can bypass the exclusion the bridge provides.
    pub fn new(resource: T) -> Self {
        ShareBridge { lock: RwLock::new(BridgeCore::new(resource), Ghost(BridgePred)) }
    }

    /// Simulates an abnormal release: taints the bridge, permanently.
    pub fn mark_tainted(&self) {
        let (mut core, handle) = self.lock.acquire_write();
        core.mark_tainted();
        handle.release_write(core);
    }

    /// Whether the bridge is tainted.
    pub fn is_tainted(&self) -> bool {
        let (core, handle) = self.lock.acquire_write();
        let t = core.is_tainted();
        handle.release_write(core);
        t
    }

    /// Dissolves the bridge and hands the resource back.
    pub fn into_inner(self) -> T {
        self.lock.into_inner().into_inner()
    }
}

impl<T: ReadAtMut> ReadAt for ShareBridge<T> {
    fn read_at(&self, buf: &mut Vec<u8>, offset: u64) -> (r: Result<usize, IoError>) {
        let (mut core, handle) = self.lock.acquire_write();
        let r = core.read_at(buf, offset);
        handle.release_write(core);
        r
    }

    fn read_exact_at(&self, buf: &mut Vec<u8>, offset: u64) -> (r: Result<(), IoError>) {
        let (mut core, handle) = self.lock.acquire_write();
        let r = core.read_exact_at(buf, offset);
        handle.release_write(core);
        r
    }
}

impl<T: WriteAtMut> WriteAt for ShareBridge<T> {
    fn write_at(&self, buf: &[u8], offset: u64) -> (r: Result<usize, IoError>) {
        let (mut core, handle) = self.lock.acquire_write();
        let r = core.write_at(buf, offset);
        handle.release_write(core);
        r
    }

    fn write_all_at(&self, buf: &[u8], offset: u64) -> (r: Result<(), IoError>) {
        let (mut core, handle) = self.lock.acquire_write();
        let r = core.write_all_at(buf, offset);
        handle.release_write(core);
        r
    }
}

/// The indirection bridge: an owned boxed handle, possibly holding a
/// type-erased capability object, through which the exclusive-handle traits
/// pass unchanged.
pub struct DerefWrapper<T: ?Sized>(pub Box<T>);

impl<T: StoreModel + ?Sized> StoreModel for DerefWrapper<T> {
    open spec fn data(&self) -> Seq<u8> {
        (*self.0).data()
    }

    open spec fn transparent(&self) -> bool {
        (*self.0).transparent()
    }

    open spec fn infallible(&self) -> bool {
        (*self.0).infallible()
    }

    open spec fn interruption_budget(&self) -> nat {
        (*self.0).interruption_budget()
    }
}

impl<T: ReadAtMut + ?Sized> ReadAtMut for DerefWrapper<T> {
    fn read_at(&mut self, buf: &mut Vec<u8>, offset: u64) -> (r: Result<usize, IoError>) {
        (*self.0).read_at(buf, offset)
    }

    fn read_exact_at(&mut self, buf: &mut Vec<u8>, offset: u64) -> (r: Result<(), IoError>) {
        (*self.0).read_exact_at(buf, offset)
    }
}

impl<T: WriteAtMut + ?Sized> WriteAtMut for DerefWrapper<T> {
    fn write_at(&mut self, buf: &[u8], offset: u64) -> (r: Result<usize, IoError>) {
        (*self.0).write_at(buf, offset)
    }

    fn write_all_at(&mut self, buf: &[u8], offset: u64) -> (r: Result<(), IoError>) {
        (*self.0).write_all_at(buf, offset)
    }
}

} // verus!
