use read_write_at::ExactStep;
use read_write_at::IoError;
use read_write_at::MemStore;
use read_write_at::ReadAt;
use read_write_at::ReadAtMut;
use read_write_at::WriteAtMut;
use read_write_at::decide_read_step;
use read_write_at::decide_write_step;

#[test]
fn reads_at_offsets() {
    let st = MemStore::new(vec![4, 5, 6, 7, 8, 9, 10, 11]);
    let mut b2 = vec![0u8; 2];
    st.read_exact_at(&mut b2, 2).unwrap();
    assert_eq!(b2, vec![6, 7]);
    let mut b3 = vec![0u8; 3];
    st.read_exact_at(&mut b3, 3).unwrap();
    assert_eq!(b3, vec![7, 8, 9]);
}

#[test]
fn exact_read_past_end_fails() {
    let st = MemStore::new(vec![1, 2, 3]);
    let mut v = vec![0u8; 3];
    assert_eq!(st.read_exact_at(&mut v, 2), Err(IoError::UnexpectedEndOfData));
    let mut empty: Vec<u8> = Vec::new();
    st.read_exact_at(&mut empty, 100).unwrap();
}

#[test]
fn short_single_read_is_not_an_error() {
    let st = MemStore::new(vec![1, 2]);
    let mut v = vec![0u8; 5];
    assert_eq!(ReadAt::read_at(&st, &mut v, 1).unwrap(), 1);
    assert_eq!(v, vec![2, 0, 0, 0, 0]);
    assert_eq!(ReadAt::read_at(&st, &mut v, 9).unwrap(), 0);
}

#[test]
fn shared_reader_widens_to_exclusive() {
    let mut st = MemStore::new(vec![1, 2, 3]);
    let mut v = vec![0u8; 2];
    assert_eq!(ReadAtMut::read_at(&mut st, &mut v, 1).unwrap(), 2);
    assert_eq!(v, vec![2, 3]);
    ReadAtMut::read_exact_at(&mut st, &mut v, 0).unwrap();
    assert_eq!(v, vec![1, 2]);
}

#[test]
fn exact_write_overwrites_and_extends() {
    let mut st = MemStore::new(vec![1, 2, 3]);
    st.write_all_at(&[8, 9], 2).unwrap();
    assert_eq!(st.into_bytes(), vec![1, 2, 8, 9]);
}

#[test]
fn write_past_end_pads_with_zeros() {
    let mut st = MemStore::new(vec![1, 2]);
    st.write_all_at(&[7, 8], 4).unwrap();
    assert_eq!(st.into_bytes(), vec![1, 2, 0, 0, 7, 8]);
}

#[test]
fn write_of_nothing_changes_nothing() {
    let mut st = MemStore::new(vec![1, 2]);
    st.write_all_at(&[], 100).unwrap();
    assert_eq!(st.len(), 2);
    assert_eq!(st.into_bytes(), vec![1, 2]);
}

#[test]
fn unaddressable_write_fails() {
    let mut st = MemStore::new(vec![1]);
    assert_eq!(st.write_all_at(&[5], u64::MAX), Err(IoError::Other));
    assert_eq!(st.into_bytes(), vec![1]);
}

#[test]
fn interrupted_single_call_retries_in_place() {
    assert_eq!(decide_read_step(Err(IoError::Interrupted), 5), ExactStep::RetryInPlace);
    assert_eq!(decide_write_step(Err(IoError::Interrupted), 5), ExactStep::RetryInPlace);
}

#[test]
fn step_decisions_classify_outcomes() {
    assert_eq!(decide_read_step(Ok(0), 3), ExactStep::SourceExhausted);
    assert_eq!(decide_read_step(Ok(0), 0), ExactStep::Advance(0));
    assert_eq!(decide_read_step(Ok(2), 3), ExactStep::Advance(2));
    assert_eq!(decide_read_step(Err(IoError::Other), 3), ExactStep::Abort(IoError::Other));
    assert_eq!(decide_write_step(Ok(0), 3), ExactStep::Abort(IoError::WriteZero));
    assert_eq!(decide_write_step(Ok(3), 3), ExactStep::Advance(3));
    assert_eq!(
        decide_write_step(Err(IoError::UnexpectedEndOfData), 3),
        ExactStep::Abort(IoError::UnexpectedEndOfData)
    );
}
