use mio::error::{MioError, MioResult};
use mio::io::{NonBlock, PumpResult, ReadPump, WritePump};
use mio::os::{read_transfer, write_transfer};
use nix::fcntl::OFlag;

fn translate(r: nix::Result<usize>) -> MioResult<u32> {
    match r {
        Ok(n) => Ok(n as u32),
        Err(e) => Err(MioError::from_errno(e as i32)),
    }
}

fn pump_write(sys_write: &mut dyn FnMut(&[u8]) -> nix::Result<usize>, data: &[u8], pos: &mut usize) -> PumpResult {
    let pump = WritePump::new();
    loop {
        let remaining = (data.len() - *pos) as u32;
        if let Some(r) = pump.check(remaining) {
            return r;
        }
        let sys = translate(sys_write(&data[*pos..]));
        let (rest, res) = write_transfer(remaining, sys);
        *pos += (remaining - rest) as usize;
        if let Some(r) = pump.on_result(res) {
            return r;
        }
    }
}

fn pump_read(sys_read: &mut dyn FnMut(&mut [u8]) -> nix::Result<usize>, buf: &mut [u8], pos: &mut usize) -> PumpResult {
    let mut pump = ReadPump::new();
    loop {
        let remaining = (buf.len() - *pos) as u32;
        if let Some(r) = pump.check(remaining) {
            return r;
        }
        let sys = translate(sys_read(&mut buf[*pos..]));
        let (rest, res) = read_transfer(remaining, sys);
        *pos += (remaining - rest) as usize;
        if let Some(r) = pump.on_result(res) {
            return r;
        }
    }
}

#[test]
fn pipe_bytes_round_trip_in_order() {
    let (rd, wr) = nix::unistd::pipe2(OFlag::O_NONBLOCK | OFlag::O_CLOEXEC).unwrap();
    let data: Vec<u8> = (0..200_000u32).map(|i| (i % 251) as u8).collect();
    let mut received = vec![0u8; data.len()];
    let mut wpos = 0usize;
    let mut rpos = 0usize;
    let mut write_done = false;
    loop {
        if !write_done {
            match pump_write(&mut |b: &[u8]| nix::unistd::write(&wr, b), &data, &mut wpos) {
                Ok(NonBlock::Ready(())) => write_done = true,
                Ok(NonBlock::WouldBlock) => {}
                Err(e) => panic!("write failed: {:?}", e),
            }
        }
        match pump_read(&mut |b: &mut [u8]| nix::unistd::read(&rd, b), &mut received, &mut rpos) {
            Ok(NonBlock::Ready(())) => break,
            Ok(NonBlock::WouldBlock) => {}
            Err(e) => panic!("read failed: {:?}", e),
        }
    }
    assert!(write_done);
    assert_eq!(received, data);
}

#[test]
fn pipe_read_on_empty_would_block() {
    let (rd, _wr) = nix::unistd::pipe2(OFlag::O_NONBLOCK | OFlag::O_CLOEXEC).unwrap();
    let mut buf = vec![0u8; 8];
    let mut pos = 0usize;
    assert_eq!(pump_read(&mut |b: &mut [u8]| nix::unistd::read(&rd, b), &mut buf, &mut pos), Ok(NonBlock::WouldBlock));
    assert_eq!(pos, 0);
}

#[test]
fn pipe_read_after_writer_closed() {
    let (rd, wr) = nix::unistd::pipe2(OFlag::O_NONBLOCK | OFlag::O_CLOEXEC).unwrap();
    let mut wpos = 0usize;
    assert_eq!(pump_write(&mut |b: &[u8]| nix::unistd::write(&wr, b), b"foo", &mut wpos), Ok(NonBlock::Ready(())));
    drop(wr);
    let mut buf = vec![0u8; 8];
    let mut pos = 0usize;
    assert_eq!(pump_read(&mut |b: &mut [u8]| nix::unistd::read(&rd, b), &mut buf, &mut pos), Ok(NonBlock::Ready(())));
    assert_eq!(&buf[..pos], b"foo");
    let mut pos2 = 0usize;
    assert_eq!(pump_read(&mut |b: &mut [u8]| nix::unistd::read(&rd, b), &mut buf, &mut pos2), Err(MioError::eof()));
}
