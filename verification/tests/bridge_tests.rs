use read_write_at::BridgeCore;
use read_write_at::DerefWrapper;
use read_write_at::IoError;
use read_write_at::MemStore;
use read_write_at::MemStream;
use read_write_at::ReadAt;
use read_write_at::ReadAtMut;
use read_write_at::ReadWriteSeek;
use read_write_at::ShareBridge;
use read_write_at::WriteAt;
use read_write_at::WriteAtMut;

fn i_want_immut<T: ReadAt>(t: &T) {
    let mut v = vec![0, 0, 0];
    t.read_exact_at(&mut v, 3).unwrap();
    assert_eq!(v, vec![7, 8, 9]);
}

fn i_want_mut<T: ReadAtMut>(t: &mut T) {
    let mut v = vec![0, 0];
    t.read_exact_at(&mut v, 2).unwrap();
    assert_eq!(v, vec![6, 7]);
}

fn i_have_obj() -> DerefWrapper<ReadWriteSeek<MemStream>> {
    let v = vec![4u8, 5, 6, 7, 8, 9, 10, 11];
    let o = ReadWriteSeek(MemStream::new(v));
    DerefWrapper(Box::new(o))
}

#[test]
fn check_refc_wrapping_works() {
    let mut o = i_have_obj();
    i_want_mut(&mut o);
    let rc = ShareBridge::new(o);
    i_want_immut(&rc);

    let v = vec![4u8, 5, 6, 7, 8, 9, 10, 11];
    let mut o2 = ReadWriteSeek(MemStream::new(v));
    i_want_mut(&mut o2);
    let rc2 = ShareBridge::new(o2);
    i_want_immut(&rc2);
}

#[test]
fn bridged_store_serializes_read_write() {
    let o = ReadWriteSeek(MemStream::new(vec![4u8, 5, 6, 7, 8, 9, 10, 11]));
    let bridge = ShareBridge::new(o);
    let mut v = vec![0u8; 3];
    bridge.read_exact_at(&mut v, 0).unwrap();
    assert_eq!(v, vec![4, 5, 6]);
    bridge.write_all_at(&[44, 44, 44], 1).unwrap();
    bridge.read_exact_at(&mut v, 0).unwrap();
    assert_eq!(v, vec![4, 44, 44]);
}

#[test]
fn tainted_bridge_refuses_calls() {
    let bridge = ShareBridge::new(MemStore::new(vec![1, 2, 3]));
    assert!(!bridge.is_tainted());
    bridge.mark_tainted();
    assert!(bridge.is_tainted());
    let mut v = vec![0u8; 2];
    assert_eq!(bridge.read_exact_at(&mut v, 0), Err(IoError::LockUnavailable));
    assert_eq!(v, vec![0, 0]);
    assert_eq!(bridge.write_all_at(&[9], 0), Err(IoError::LockUnavailable));
    assert_eq!(bridge.read_at(&mut v, 0), Err(IoError::LockUnavailable));
    assert_eq!(bridge.write_at(&[9], 0), Err(IoError::LockUnavailable));
    let store = bridge.into_inner();
    assert_eq!(store.into_bytes(), vec![1, 2, 3]);
}

#[test]
fn core_taint_is_permanent() {
    let mut core = BridgeCore::new(MemStore::new(vec![5, 6]));
    assert!(!core.is_tainted());
    let mut v = vec![0u8; 1];
    core.read_at(&mut v, 1).unwrap();
    assert_eq!(v, vec![6]);
    core.mark_tainted();
    assert_eq!(core.read_at(&mut v, 0), Err(IoError::LockUnavailable));
    assert_eq!(core.read_exact_at(&mut v, 0), Err(IoError::LockUnavailable));
    assert_eq!(core.write_at(&[1], 0), Err(IoError::LockUnavailable));
    assert_eq!(core.write_all_at(&[1], 0), Err(IoError::LockUnavailable));
    assert!(core.is_tainted());
    assert_eq!(core.into_inner().into_bytes(), vec![5, 6]);
}

#[test]
fn deref_wrapper_forwards_writes() {
    let mut w = DerefWrapper(Box::new(ReadWriteSeek(MemStream::new(vec![0u8; 3]))));
    w.write_all_at(&[1, 2, 3], 0).unwrap();
    let mut v = vec![0u8; 3];
    w.read_exact_at(&mut v, 0).unwrap();
    assert_eq!(v, vec![1, 2, 3]);
}
