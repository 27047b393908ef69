use read_write_at::CursorStream;
use read_write_at::MemStore;
use read_write_at::MemStream;
use read_write_at::ReadAt;
use read_write_at::ReadAtMut;
use read_write_at::ReadWriteAtMut;
use read_write_at::ReadWriteSeek;
use read_write_at::WriteAtMut;

#[test]
fn adapter_reads_like_doc_example() {
    let mut rws = ReadWriteSeek(MemStream::new(vec![3u8, 4, 5, 6]));
    let mut v2 = vec![0u8, 0];
    rws.read_exact_at(&mut v2, 1).unwrap();
    assert_eq!(v2, vec![4, 5]);
}

#[test]
fn seek_adapter_matches_direct_store() {
    let bytes = vec![4u8, 5, 6, 7, 8, 9, 10, 11];
    let st = MemStore::new(bytes.clone());
    let mut ad = ReadWriteSeek(MemStream::new(bytes));
    let mut b_direct = vec![0u8; 2];
    st.read_exact_at(&mut b_direct, 2).unwrap();
    let mut b_adapted = vec![0u8; 2];
    ad.read_exact_at(&mut b_adapted, 2).unwrap();
    assert_eq!(b_direct, vec![6, 7]);
    assert_eq!(b_adapted, b_direct);
}

#[test]
fn adapter_exact_write_then_read() {
    let mut rws = ReadWriteSeek(MemStream::new(vec![0u8; 4]));
    rws.write_all_at(&[9, 8, 7], 1).unwrap();
    let mut v = vec![0u8; 4];
    rws.read_exact_at(&mut v, 0).unwrap();
    assert_eq!(v, vec![0, 9, 8, 7]);
}

#[test]
fn adapter_single_calls_reposition_each_time() {
    let mut rws = ReadWriteSeek(MemStream::new(vec![10u8, 11, 12, 13]));
    let mut v = vec![0u8; 2];
    assert_eq!(rws.read_at(&mut v, 2).unwrap(), 2);
    assert_eq!(v, vec![12, 13]);
    assert_eq!(rws.read_at(&mut v, 0).unwrap(), 2);
    assert_eq!(v, vec![10, 11]);
    assert_eq!(rws.write_at(&[99], 1).unwrap(), 1);
    rws.read_exact_at(&mut v, 0).unwrap();
    assert_eq!(v, vec![10, 99]);
}

#[test]
fn stream_reads_advance_cursor() {
    let mut s = MemStream::new(vec![3, 4, 5, 6]);
    assert_eq!(s.seek_to(1).unwrap(), 1);
    let mut v = vec![0u8; 2];
    assert_eq!(s.read(&mut v).unwrap(), 2);
    assert_eq!(v, vec![4, 5]);
    let mut w = vec![0u8; 2];
    assert_eq!(s.read(&mut w).unwrap(), 1);
    assert_eq!(w, vec![6, 0]);
    assert_eq!(s.read(&mut w).unwrap(), 0);
}

#[test]
fn stream_writes_advance_cursor() {
    let mut s = MemStream::new(vec![0u8; 3]);
    assert_eq!(s.write(&[5, 6]).unwrap(), 2);
    assert_eq!(s.write(&[7, 8]).unwrap(), 2);
    assert_eq!(s.into_bytes(), vec![5, 6, 7, 8]);
}

#[test]
fn stream_exact_sequential_ops() {
    let mut s = MemStream::new(vec![1u8, 2, 3, 4, 5]);
    s.seek_to(1).unwrap();
    let mut v = vec![0u8; 3];
    s.read_exact(&mut v).unwrap();
    assert_eq!(v, vec![2, 3, 4]);
    s.seek_to(3).unwrap();
    s.write_all(&[9, 9, 9]).unwrap();
    assert_eq!(s.into_bytes(), vec![1, 2, 3, 9, 9, 9]);
}

fn write_then_read_back<T: ReadWriteAtMut>(t: &mut T) {
    t.write_all_at(&[1, 2], 0).unwrap();
    let mut v = vec![0u8; 2];
    t.read_exact_at(&mut v, 0).unwrap();
    assert_eq!(v, vec![1, 2]);
}

#[test]
fn combined_marker_bounds_work() {
    let mut a = ReadWriteSeek(MemStream::new(vec![0u8; 2]));
    write_then_read_back(&mut a);
}
