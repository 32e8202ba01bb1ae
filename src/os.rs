//! The OS layer's decisions once a syscall has answered.
use vstd::prelude::*;
use crate::error::{MioError, MioErrorKind, MioResult};

verus! {

/// The outcome of one read syscall into a buffer with `remaining` bytes of
/// room: the buffer is advanced by the bytes read, and zero bytes read is the
/// end of the stream.
pub open spec fn read_transfer_spec(remaining: nat, sys: MioResult<u32>) -> (nat, MioResult<()>) {
    match sys {
        Ok(n) => (
            (remaining - n) as nat,
            if n == 0 { Err(MioError { kind: MioErrorKind::Eof }) } else { Ok(()) },
        ),
        Err(e) => (remaining, Err(e)),
    }
}

/// The outcome of one write syscall from a buffer with `remaining` bytes: the
/// buffer is advanced by the bytes written.
pub open spec fn write_transfer_spec(remaining: nat, sys: MioResult<u32>) -> (nat, MioResult<()>) {
    match sys {
        Ok(n) => ((remaining - n) as nat, Ok(())),
        Err(e) => (remaining, Err(e)),
    }
}

/// Applies the answer of one read syscall, `Ok` with the byte count or the
/// translated error, to a buffer with `remaining` bytes of room.
pub fn read_transfer(remaining: u32, sys: MioResult<u32>) -> (r: (u32, MioResult<()>))
    requires
        sys matches Ok(n) ==> n <= remaining,
    ensures
        (r.0 as nat, r.1) == read_transfer_spec(remaining as nat, sys),
{
    match sys {
        Ok(n) => {
            let rest = remaining - n;
            if n == 0 {
                (rest, Err(MioError::eof()))
            } else {
                (rest, Ok(()))
            }
        },
        Err(e) => (remaining, Err(e)),
    }
}

/// Applies the answer of one write syscall to a buffer with `remaining` bytes.
pub fn write_transfer(remaining: u32, sys: MioResult<u32>) -> (r: (u32, MioResult<()>))
    requires
        sys matches Ok(n) ==> n <= remaining,
    ensures
        (r.0 as nat, r.1) == write_transfer_spec(remaining as nat, sys),
{
    match sys {
        Ok(n) => (remaining - n, Ok(())),
        Err(e) => (remaining, Err(e)),
    }
}

/// The OS's handle to an I/O instance: a POSIX file descriptor. Closing it
/// when its owner goes away is the owner's part.
#[derive(Debug, PartialEq, Eq, Structural)]
pub struct IoDesc {
    pub fd: i32,
}

/// The address families a socket can be created in.
#[derive(Clone, Copy, Debug, PartialEq, Eq, Structural)]
pub enum AddressFamily {
    Inet,
    Inet6,
    Unix,
}

/// An IP address.
#[derive(Clone, Copy, Debug, PartialEq, Eq, Structural)]
pub enum IpAddr {
    IpV4Addr(u8, u8, u8, u8),
    IpV6Addr(u16, u16, u16, u16, u16, u16, u16, u16),
}

/// A socket address: an IP address and a port.
#[derive(Clone, Copy, Debug, PartialEq, Eq, Structural)]
pub enum SockAddr {
    InetAddr(IpAddr, u16),
}

/// An IPv4 socket address as the OS takes it: the address as one integer,
/// first octet highest, and the port, both in host byte order.
#[derive(Clone, Copy, Debug, PartialEq, Eq, Structural)]
pub struct SockAddrV4 {
    pub addr: u32,
    pub port: u16,
}

/// Whether `addr` is an IPv4 socket address, the one kind the OS layer's
/// socket calls take.
pub fn is_ipv4_addr(addr: &SockAddr) -> (r: bool)
    ensures
        r == is_ipv4(*addr),
{
    match *addr {
        SockAddr::InetAddr(IpAddr::IpV4Addr(..), _) => true,
        _ => false,
    }
}

/// The 32-bit value of the IPv4 address `a.b.c.d`.
pub open spec fn ip4_value(a: u8, b: u8, c: u8, d: u8) -> nat {
    a as nat * 16777216 + b as nat * 65536 + c as nat * 256 + d as nat
}

/// Whether an address is one that the OS layer can hand to a socket call.
pub open spec fn is_ipv4(addr: SockAddr) -> bool {
    addr matches SockAddr::InetAddr(IpAddr::IpV4Addr(_, _, _, _), _)
}

/// The address `a.b.c.d` as one integer, first octet highest.
pub fn ip4_to_inaddr(a: u8, b: u8, c: u8, d: u8) -> (r: u32)
    ensures
        r as nat == ip4_value(a, b, c, d),
{
    let ip: u32 = ((a as u32) << 24u32) | ((b as u32) << 16u32) | ((c as u32) << 8u32) | (d as u32);
    assert(ip == (a as u32) * 16777216 + (b as u32) * 65536 + (c as u32) * 256 + (d as u32)) by (bit_vector)
        requires
            ip == ((a as u32) << 24u32) | ((b as u32) << 16u32) | ((c as u32) << 8u32) | (d as u32),
    ;
    ip
}

/// The IPv4 socket address that a socket call takes for `addr`. Only IPv4
/// addresses are supported.
pub fn from_sockaddr(addr: &SockAddr) -> (r: SockAddrV4)
    requires
        is_ipv4(*addr),
    ensures
        match *addr {
            SockAddr::InetAddr(IpAddr::IpV4Addr(a, b, c, d), port) =>
                r.addr as nat == ip4_value(a, b, c, d) && r.port == port,
            _ => false,
        },
{
    match *addr {
        SockAddr::InetAddr(ip, port) => {
            match ip {
                IpAddr::IpV4Addr(a, b, c, d) => SockAddrV4 { addr: ip4_to_inaddr(a, b, c, d), port },
                IpAddr::IpV6Addr(..) => unreached(),
            }
        },
    }
}

/// The result of a non-blocking connect from the answer of its syscall:
/// `true` when it completed at once, `false` when it is still in progress
/// (the caller waits for the socket to become writable), the error otherwise.
pub fn connect_outcome(sys: MioResult<()>) -> (r: MioResult<bool>)
    ensures
        match sys {
            Ok(()) => r == Ok::<bool, MioError>(true),
            Err(e) => if e.kind == MioErrorKind::ConnectInProgress {
                r == Ok::<bool, MioError>(false)
            } else {
                r == Err::<bool, MioError>(e)
            },
        },
{
    match sys {
        Ok(()) => Ok(true),
        Err(e) => {
            if e.is_connect_in_progress() {
                Ok(false)
            } else {
                Err(e)
            }
        },
    }
}

/// The `SO_LINGER` option: whether lingering is on, and for how many seconds.
#[derive(Clone, Copy, Debug, PartialEq, Eq, Structural)]
pub struct Linger {
    pub l_onoff: i32,
    pub l_linger: i32,
}

/// The `SO_LINGER` setting for a linger time of `dur_s` seconds; zero turns
/// lingering off.
pub fn linger_option(dur_s: u32) -> (r: Linger)
    requires
        dur_s <= i32::MAX,
    ensures
        r.l_onoff == (if dur_s > 0 { 1i32 } else { 0i32 }),
        r.l_linger == dur_s,
{
    Linger { l_onoff: if dur_s > 0 { 1 } else { 0 }, l_linger: dur_s as i32 }
}

/// The linger time in seconds that a `SO_LINGER` setting stands for: zero
/// when lingering is off.
pub fn linger_secs(opt: Linger) -> (r: u32)
    ensures
        r == (if opt.l_onoff > 0 { opt.l_linger as u32 } else { 0u32 }),
{
    if opt.l_onoff > 0 {
        opt.l_linger as u32
    } else {
        0
    }
}

} // verus!
