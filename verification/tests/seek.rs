use webhdfs_sync::seek::resolve;
use webhdfs_sync::{ErrorKind, ReadHdfsFile, SeekFrom};

fn opened(len: i64) -> ReadHdfsFile<()> {
    ReadHdfsFile::open((), String::from("/data/file"), Ok(len)).unwrap()
}

#[test]
fn seek_inside_moves_to_the_sum() {
    let mut f = opened(10);
    assert_eq!(f.seek(SeekFrom::Start(5)).unwrap(), 5);
    assert_eq!(f.position(), 5);
    assert_eq!(f.seek(SeekFrom::Current(3)).unwrap(), 8);
    assert_eq!(f.seek(SeekFrom::Current(-8)).unwrap(), 0);
    assert_eq!(f.seek(SeekFrom::End(-4)).unwrap(), 6);
    assert_eq!(f.seek(SeekFrom::Start(10)).unwrap(), 10);
    assert_eq!(f.position(), 10);
}

#[test]
fn seek_zero_offsets() {
    let mut f = opened(10);
    f.seek(SeekFrom::Start(7)).unwrap();
    assert_eq!(f.seek(SeekFrom::Current(0)).unwrap(), 7);
    assert_eq!(f.position(), 7);
    assert_eq!(f.seek(SeekFrom::End(0)).unwrap(), 10);
    assert_eq!(f.position(), 10);
    assert_eq!(f.seek(SeekFrom::Start(0)).unwrap(), 0);
    assert_eq!(f.position(), 0);
}

#[test]
fn seek_past_end_keeps_position_for_every_reference_point() {
    let mut f = opened(10);
    f.seek(SeekFrom::Start(5)).unwrap();
    assert_eq!(f.seek(SeekFrom::Current(6)).unwrap(), 5);
    assert_eq!(f.position(), 5);
    assert_eq!(f.seek(SeekFrom::Start(11)).unwrap(), 5);
    assert_eq!(f.position(), 5);
    assert_eq!(f.seek(SeekFrom::End(1)).unwrap(), 5);
    assert_eq!(f.position(), 5);
}

#[test]
fn seek_before_start_is_invalid_input() {
    let mut f = opened(10);
    f.seek(SeekFrom::Start(5)).unwrap();
    let e = f.seek(SeekFrom::Current(-6)).unwrap_err();
    assert_eq!(e.kind(), ErrorKind::InvalidInput);
    assert_eq!(e.message(), "attempt to seek before start");
    assert_eq!(f.position(), 5);
    let e = f.seek(SeekFrom::End(-11)).unwrap_err();
    assert_eq!(e.kind(), ErrorKind::InvalidInput);
    assert_eq!(f.position(), 5);
}

#[test]
fn seek_overflow_is_invalid_input() {
    let mut f = opened(10);
    f.seek(SeekFrom::Start(5)).unwrap();
    let e = f.seek(SeekFrom::Current(i64::MAX)).unwrap_err();
    assert_eq!(e.kind(), ErrorKind::InvalidInput);
    assert_eq!(e.message(), "attempt to seek before start");
    assert_eq!(f.position(), 5);
    let e = f.seek(SeekFrom::End(i64::MAX)).unwrap_err();
    assert_eq!(e.kind(), ErrorKind::InvalidInput);
    assert_eq!(f.position(), 5);
    // the largest sum that still fits is past the end, not an overflow
    assert_eq!(f.seek(SeekFrom::Current(i64::MAX - 5)).unwrap(), 5);
}

#[test]
fn seek_start_beyond_signed_range_is_invalid_input() {
    let mut f = opened(10);
    f.seek(SeekFrom::Start(5)).unwrap();
    let e = f.seek(SeekFrom::Start(i64::MAX as u64 + 1)).unwrap_err();
    assert_eq!(e.kind(), ErrorKind::InvalidInput);
    assert_eq!(e.message(), "offset too big");
    assert_eq!(f.position(), 5);
    let e = f.seek(SeekFrom::Start(u64::MAX)).unwrap_err();
    assert_eq!(e.kind(), ErrorKind::InvalidInput);
    assert_eq!(f.seek(SeekFrom::Start(i64::MAX as u64)).unwrap(), 5);
}

#[test]
fn seek_current_zero_is_a_no_op_everywhere() {
    for len in [0i64, 1, 10, i64::MAX] {
        let mut f = opened(len);
        assert_eq!(f.seek(SeekFrom::Current(0)).unwrap(), 0);
        f.seek(SeekFrom::End(0)).unwrap();
        assert_eq!(f.seek(SeekFrom::Current(0)).unwrap(), len as u64);
        assert_eq!(f.position(), len);
        assert_eq!(f.len(), len as u64);
    }
}

#[test]
fn seek_in_an_empty_file() {
    let mut f = opened(0);
    assert_eq!(f.seek(SeekFrom::Start(0)).unwrap(), 0);
    assert_eq!(f.seek(SeekFrom::End(0)).unwrap(), 0);
    assert_eq!(f.seek(SeekFrom::Start(1)).unwrap(), 0);
    assert_eq!(f.seek(SeekFrom::Current(-1)).unwrap_err().kind(), ErrorKind::InvalidInput);
}

#[test]
fn resolve_is_the_arithmetic_of_seek() {
    assert_eq!(resolve(SeekFrom::Start(3), 9, 10).unwrap(), 3);
    assert_eq!(resolve(SeekFrom::Start(30), 9, 10).unwrap(), 9);
    assert_eq!(resolve(SeekFrom::End(-10), 9, 10).unwrap(), 0);
    assert_eq!(resolve(SeekFrom::End(5), 9, 10).unwrap(), 9);
    assert_eq!(resolve(SeekFrom::Current(1), 9, 10).unwrap(), 10);
    assert_eq!(resolve(SeekFrom::Current(2), 9, 10).unwrap(), 9);
    assert_eq!(resolve(SeekFrom::Current(-10), 9, 10).unwrap_err().kind(), ErrorKind::InvalidInput);
    assert_eq!(resolve(SeekFrom::Current(i64::MIN), 9, 10).unwrap_err().kind(), ErrorKind::InvalidInput);
}
