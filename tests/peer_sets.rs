use subnet_vox::peers::{PeerAddr, PeerSet};

fn addr(a: u32, b: u32, c: u32, d: u32, port: u16) -> PeerAddr {
    PeerAddr::new((a << 24) | (b << 16) | (c << 8) | d, port)
}

#[test]
fn ip_text_is_dotted_decimal() {
    assert_eq!(addr(192, 168, 1, 5, 1).ip_text(), "192.168.1.5");
    assert_eq!(addr(10, 0, 0, 42, 1).ip_text(), "10.0.0.42");
    assert_eq!(PeerAddr::new(0, 0).ip_text(), "0.0.0.0");
    assert_eq!(PeerAddr::new(u32::MAX, 0).ip_text(), "255.255.255.255");
    assert_eq!(addr(100, 64, 7, 2, 9).ip_text(), "100.64.7.2");
}

#[test]
fn with_port_keeps_host() {
    let a = addr(1, 2, 3, 4, 5000).with_port(2223);
    assert_eq!(a, addr(1, 2, 3, 4, 2223));
}

#[test]
fn insert_twice_grows_once() {
    let mut s = PeerSet::new();
    assert!(s.is_empty());
    let a = addr(10, 0, 0, 1, 2224);
    assert!(s.insert(a));
    assert_eq!(s.len(), 1);
    assert!(!s.insert(a));
    assert_eq!(s.len(), 1);
    assert!(s.contains(&a));
    assert!(!s.contains(&a.with_port(1)));
}

#[test]
fn same_host_other_port_is_another_peer() {
    let mut s = PeerSet::new();
    s.insert(addr(10, 0, 0, 1, 1000));
    s.insert(addr(10, 0, 0, 1, 1001));
    assert_eq!(s.len(), 2);
}

#[test]
fn merge_is_a_union() {
    let mut receiver = PeerSet::new();
    receiver.insert(addr(10, 0, 0, 1, 1));
    receiver.insert(addr(10, 0, 0, 2, 1));
    let mut broadcaster = PeerSet::new();
    broadcaster.insert(addr(10, 0, 0, 2, 1));
    broadcaster.insert(addr(10, 0, 0, 3, 1));
    broadcaster.merge(&receiver.snapshot());
    assert_eq!(broadcaster.len(), 3);
    assert!(broadcaster.contains(&addr(10, 0, 0, 1, 1)));
    assert!(broadcaster.contains(&addr(10, 0, 0, 2, 1)));
    assert!(broadcaster.contains(&addr(10, 0, 0, 3, 1)));
    assert_eq!(receiver.len(), 2);
}

#[test]
fn snapshot_is_independent() {
    let mut s = PeerSet::new();
    s.insert(addr(1, 1, 1, 1, 1));
    let copy = s.snapshot();
    s.insert(addr(2, 2, 2, 2, 2));
    assert_eq!(copy.len(), 1);
    assert_eq!(s.len(), 2);
    let mut v = s.to_vec();
    v.sort_by_key(|p| p.ip);
    assert_eq!(v, vec![addr(1, 1, 1, 1, 1), addr(2, 2, 2, 2, 2)]);
}
