use open_sockets::network::{IpAddress, LocalSocket, Protocol};
use open_sockets::os::ProcessInfo;
use open_sockets::OpenSockets;

fn socket(bits: u32, port: u16, protocol: Protocol) -> LocalSocket {
    LocalSocket { ip: IpAddress::V4(bits), port, protocol }
}

#[test]
fn new_index_is_empty() {
    let sockets = OpenSockets::new();
    assert!(sockets.is_empty());
    assert_eq!(sockets.len(), 0);
    assert_eq!(sockets.get(&socket(0, 0, Protocol::Tcp)), None);
    assert!(!sockets.contains_key(&socket(0, 0, Protocol::Tcp)));
    assert!(sockets.entries().is_empty());
    assert_eq!(sockets, OpenSockets::default());
}

#[test]
fn inserted_socket_is_found() {
    let mut sockets = OpenSockets::new();
    let replaced = sockets.insert(socket(1, 80, Protocol::Tcp), ProcessInfo::new("httpd", 10));
    assert_eq!(replaced, None);
    assert!(!sockets.is_empty());
    assert_eq!(sockets.len(), 1);
    assert!(sockets.contains_key(&socket(1, 80, Protocol::Tcp)));
    assert_eq!(
        sockets.get(&socket(1, 80, Protocol::Tcp)),
        Some(&ProcessInfo { name: "httpd".to_string(), pid: 10 })
    );
    assert_eq!(sockets.get(&socket(1, 80, Protocol::Udp)), None);
    assert_eq!(sockets.get(&socket(1, 81, Protocol::Tcp)), None);
    assert_eq!(sockets.get(&socket(2, 80, Protocol::Tcp)), None);
}

#[test]
fn insert_returns_the_owner_it_replaces() {
    let mut sockets = OpenSockets::new();
    sockets.insert(socket(1, 80, Protocol::Tcp), ProcessInfo::new("first", 1));
    let replaced = sockets.insert(socket(1, 80, Protocol::Tcp), ProcessInfo::new("second", 2));
    assert_eq!(replaced, Some(ProcessInfo::new("first", 1)));
    assert_eq!(sockets.len(), 1);
    assert_eq!(sockets.get(&socket(1, 80, Protocol::Tcp)), Some(&ProcessInfo::new("second", 2)));
}

#[test]
fn entries_list_every_socket_once() {
    let mut sockets = OpenSockets::new();
    sockets.insert(socket(3, 30, Protocol::Udp), ProcessInfo::new("c", 3));
    sockets.insert(socket(1, 10, Protocol::Tcp), ProcessInfo::new("a", 1));
    sockets.insert(
        LocalSocket { ip: IpAddress::V6(1), port: 10, protocol: Protocol::Tcp },
        ProcessInfo::new("b", 2),
    );
    sockets.insert(socket(1, 10, Protocol::Tcp), ProcessInfo::new("d", 4));
    let entries = sockets.entries();
    assert_eq!(entries.len(), 3);
    assert_eq!(sockets.len(), 3);
    assert!(entries.contains(&(socket(3, 30, Protocol::Udp), ProcessInfo::new("c", 3))));
    assert!(entries.contains(&(socket(1, 10, Protocol::Tcp), ProcessInfo::new("d", 4))));
    assert!(entries.contains(&(
        LocalSocket { ip: IpAddress::V6(1), port: 10, protocol: Protocol::Tcp },
        ProcessInfo::new("b", 2)
    )));
    for (found, owner) in &entries {
        assert_eq!(sockets.get(found), Some(owner));
    }
}

#[test]
fn indexes_with_equal_content_are_equal() {
    let mut forward = OpenSockets::new();
    forward.insert(socket(1, 1, Protocol::Tcp), ProcessInfo::new("a", 1));
    forward.insert(socket(2, 2, Protocol::Udp), ProcessInfo::new("b", 2));
    let mut backward = OpenSockets::new();
    backward.insert(socket(2, 2, Protocol::Udp), ProcessInfo::new("b", 2));
    backward.insert(socket(1, 1, Protocol::Tcp), ProcessInfo::new("a", 1));
    assert_eq!(forward, backward);
    backward.insert(socket(1, 1, Protocol::Tcp), ProcessInfo::new("a", 3));
    assert_ne!(forward, backward);
}
