use mio::error::{MioError, MioErrorKind, MioResult, EAGAIN, EINPROGRESS};
use mio::io::{read_with_answers, write_with_answers, NonBlock, ReadPump, WritePump};

fn ok(n: u32) -> MioResult<u32> {
    Ok(n)
}

#[test]
fn non_block_would_block_and_unwrap() {
    let ready: NonBlock<u32> = NonBlock::Ready(7);
    let blocked: NonBlock<u32> = NonBlock::WouldBlock;
    assert!(!ready.would_block());
    assert!(blocked.would_block());
    assert_eq!(ready.unwrap(), 7);
}

#[test]
fn write_pump_accepted_at_once_drains() {
    let r = write_with_answers(5, &vec![ok(5)]);
    assert_eq!(r, Some((Ok(NonBlock::Ready(())), 0)));
}

#[test]
fn write_pump_accepted_in_pieces_drains() {
    let r = write_with_answers(10, &vec![ok(3), ok(4), ok(3)]);
    assert_eq!(r, Some((Ok(NonBlock::Ready(())), 0)));
}

#[test]
fn write_pump_would_block_midway() {
    let r = write_with_answers(10, &vec![ok(4), Err(MioError::would_block()), ok(6)]);
    assert_eq!(r, Some((Ok(NonBlock::WouldBlock), 6)));
}

#[test]
fn write_pump_other_error_propagates() {
    let r = write_with_answers(10, &vec![ok(4), Err(MioError::other(32))]);
    assert_eq!(r, Some((Err(MioError::other(32)), 6)));
}

#[test]
fn write_pump_empty_buffer_is_ready_without_syscall() {
    let r = write_with_answers(0, &vec![]);
    assert_eq!(r, Some((Ok(NonBlock::Ready(())), 0)));
}

#[test]
fn write_pump_runs_out_of_answers() {
    assert_eq!(write_with_answers(10, &vec![ok(4)]), None);
}

#[test]
fn write_pump_overreported_count_is_no_run() {
    assert_eq!(write_with_answers(3, &vec![ok(4)]), None);
}

#[test]
fn read_pump_would_block_first_keeps_cursor() {
    let r = read_with_answers(16, &vec![Err(MioError::would_block())]);
    assert_eq!(r, Some((Ok(NonBlock::WouldBlock), 16)));
}

#[test]
fn read_pump_eof_after_progress_is_ready() {
    let r = read_with_answers(16, &vec![ok(3), ok(0)]);
    assert_eq!(r, Some((Ok(NonBlock::Ready(())), 13)));
    let r = read_with_answers(16, &vec![ok(3), ok(2), ok(0)]);
    assert_eq!(r, Some((Ok(NonBlock::Ready(())), 11)));
}

#[test]
fn read_pump_eof_at_start_is_error() {
    let r = read_with_answers(16, &vec![ok(0)]);
    assert_eq!(r, Some((Err(MioError::eof()), 16)));
    match r {
        Some((Err(e), _)) => assert_eq!(e.kind, MioErrorKind::Eof),
        _ => panic!("expected the end-of-stream error"),
    }
}

#[test]
fn read_pump_fills_buffer() {
    let r = read_with_answers(8, &vec![ok(5), ok(3), ok(0)]);
    assert_eq!(r, Some((Ok(NonBlock::Ready(())), 0)));
}

#[test]
fn read_pump_would_block_after_progress() {
    let r = read_with_answers(8, &vec![ok(5), Err(MioError::would_block())]);
    assert_eq!(r, Some((Ok(NonBlock::WouldBlock), 3)));
}

#[test]
fn read_pump_other_error_propagates() {
    let r = read_with_answers(8, &vec![ok(5), Err(MioError::other(104))]);
    assert_eq!(r, Some((Err(MioError::other(104)), 3)));
}

#[test]
fn read_pump_steps() {
    let mut pump = ReadPump::new();
    assert_eq!(pump.check(0), Some(Ok(NonBlock::Ready(()))));
    assert_eq!(pump.check(4), None);
    assert_eq!(pump.on_result(Err(MioError::eof())), Some(Err(MioError::eof())));
    assert_eq!(pump.on_result(Ok(())), None);
    assert!(!pump.first_iter);
    assert_eq!(pump.on_result(Err(MioError::eof())), Some(Ok(NonBlock::Ready(()))));
    assert_eq!(pump.on_result(Err(MioError::would_block())), Some(Ok(NonBlock::WouldBlock)));
}

#[test]
fn write_pump_steps() {
    let pump = WritePump::new();
    assert_eq!(pump.check(0), Some(Ok(NonBlock::Ready(()))));
    assert_eq!(pump.check(1), None);
    assert_eq!(pump.on_result(Ok(())), None);
    assert_eq!(pump.on_result(Err(MioError::eof())), Some(Err(MioError::eof())));
    assert_eq!(pump.on_result(Err(MioError::would_block())), Some(Ok(NonBlock::WouldBlock)));
}

#[test]
fn error_kinds() {
    assert!(MioError::would_block().is_would_block());
    assert!(MioError::eof().is_eof());
    assert!(MioError::connect_in_progress().is_connect_in_progress());
    assert!(!MioError::other(5).is_eof());
    assert_eq!(MioError::other(5).code(), Some(5));
    assert_eq!(MioError::eof().code(), None);
}

#[test]
fn errno_translation() {
    assert_eq!(EAGAIN, nix::errno::Errno::EAGAIN as i32);
    assert_eq!(EINPROGRESS, nix::errno::Errno::EINPROGRESS as i32);
    assert_eq!(MioError::from_errno(EAGAIN), MioError::would_block());
    assert_eq!(MioError::from_errno(EINPROGRESS), MioError::other(EINPROGRESS));
    assert_eq!(MioError::from_errno(32), MioError::other(32));
    assert_eq!(MioError::from_connect_errno(EINPROGRESS), MioError::connect_in_progress());
    assert_eq!(MioError::from_connect_errno(EAGAIN), MioError::would_block());
    assert_eq!(MioError::from_connect_errno(111), MioError::other(111));
}

#[test]
fn read_pump_fills_in_pieces() {
    let r = read_with_answers(6, &vec![ok(2), ok(4)]);
    assert_eq!(r, Some((Ok(NonBlock::Ready(())), 0)));
}
