use mio::error::MioError;
use mio::os::{
    connect_outcome, from_sockaddr, ip4_to_inaddr, is_ipv4_addr, linger_option, linger_secs, read_transfer,
    write_transfer, IpAddr, Linger, SockAddr, SockAddrV4,
};

#[test]
fn ip4_to_inaddr_orders_octets() {
    assert_eq!(ip4_to_inaddr(127, 0, 0, 1), 0x7f00_0001);
    assert_eq!(ip4_to_inaddr(192, 168, 1, 20), 0xc0a8_0114);
    assert_eq!(ip4_to_inaddr(255, 255, 255, 255), u32::MAX);
    assert_eq!(ip4_to_inaddr(0, 0, 0, 0), 0);
}

#[test]
fn from_sockaddr_ipv4() {
    let addr = SockAddr::InetAddr(IpAddr::IpV4Addr(10, 0, 0, 2), 8080);
    assert_eq!(from_sockaddr(&addr), SockAddrV4 { addr: 0x0a00_0002, port: 8080 });
}

#[test]
fn connect_outcomes() {
    assert_eq!(connect_outcome(Ok(())), Ok(true));
    assert_eq!(connect_outcome(Err(MioError::connect_in_progress())), Ok(false));
    assert_eq!(connect_outcome(Err(MioError::other(111))), Err(MioError::other(111)));
}

#[test]
fn read_transfer_advances_and_detects_eof() {
    assert_eq!(read_transfer(10, Ok(4)), (6, Ok(())));
    assert_eq!(read_transfer(10, Ok(0)), (10, Err(MioError::eof())));
    assert_eq!(read_transfer(10, Err(MioError::would_block())), (10, Err(MioError::would_block())));
}

#[test]
fn write_transfer_advances() {
    assert_eq!(write_transfer(10, Ok(10)), (0, Ok(())));
    assert_eq!(write_transfer(10, Ok(0)), (10, Ok(())));
    assert_eq!(write_transfer(10, Err(MioError::other(32))), (10, Err(MioError::other(32))));
}

#[test]
fn socket_option_values() {
    assert_eq!(linger_option(0), Linger { l_onoff: 0, l_linger: 0 });
    assert_eq!(linger_option(30), Linger { l_onoff: 1, l_linger: 30 });
    assert_eq!(linger_secs(Linger { l_onoff: 1, l_linger: 30 }), 30);
    assert_eq!(linger_secs(Linger { l_onoff: 0, l_linger: 30 }), 0);
}

#[test]
fn only_ipv4_addresses_are_taken() {
    assert!(is_ipv4_addr(&SockAddr::InetAddr(IpAddr::IpV4Addr(127, 0, 0, 1), 80)));
    assert!(!is_ipv4_addr(&SockAddr::InetAddr(IpAddr::IpV6Addr(0, 0, 0, 0, 0, 0, 0, 1), 80)));
}
