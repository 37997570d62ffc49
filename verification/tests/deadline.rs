use webhdfs_sync::deadline::failure_of;
use webhdfs_sync::{settle, ErrorKind, HdfsError, IoKind};

#[test]
fn settle_keeps_the_value_of_an_operation_that_finished() {
    let raced: Result<u32, tokio::timer::timeout::Error<HdfsError>> = Ok(17);
    assert_eq!(settle(raced).unwrap(), 17);
}

#[test]
fn settle_keeps_the_failure_of_an_operation_that_finished() {
    let own = HdfsError::remote("file not found");
    let raced: Result<u32, _> = Err(tokio::timer::timeout::Error::inner(own));
    let e = settle(raced).unwrap_err();
    assert_eq!(e.kind(), ErrorKind::Remote);
    assert_eq!(e.message(), "file not found");
}

#[test]
fn settle_reports_timeout_when_the_deadline_passed() {
    let raced: Result<u32, tokio::timer::timeout::Error<HdfsError>> =
        Err(tokio::timer::timeout::Error::elapsed());
    let e = settle(raced).unwrap_err();
    assert_eq!(e.kind(), ErrorKind::Timeout);
    assert_eq!(e.message(), "HTTP operation timed out");
    assert_eq!(e.io_kind(), IoKind::TimedOut);
}

#[test]
fn settle_reports_timeout_when_the_timer_failed() {
    let raced: Result<u32, tokio::timer::timeout::Error<HdfsError>> =
        Err(tokio::timer::timeout::Error::timer(tokio::timer::Error::shutdown()));
    let e = settle(raced).unwrap_err();
    assert_eq!(e.kind(), ErrorKind::Timeout);
    assert_eq!(e.message(), "HTTP operation timed out");
}

#[test]
fn failure_of_prefers_the_operation_s_own_error() {
    let e = failure_of(Some(HdfsError::invalid_input("bad")));
    assert_eq!(e.kind(), ErrorKind::InvalidInput);
    assert_eq!(e.message(), "bad");
    let e = failure_of(None);
    assert_eq!(e.kind(), ErrorKind::Timeout);
    assert_eq!(e.message(), "HTTP operation timed out");
}

#[test]
fn error_kinds_read_as_io_kinds() {
    assert_eq!(HdfsError::timeout("t").io_kind(), IoKind::TimedOut);
    assert_eq!(HdfsError::invalid_input("i").io_kind(), IoKind::InvalidInput);
    assert_eq!(HdfsError::remote("r").io_kind(), IoKind::Other);
    let e = HdfsError::new(ErrorKind::Remote, "gone");
    assert_eq!(e.kind(), ErrorKind::Remote);
    assert_eq!(e.message(), "gone");
}
