use open_sockets::network::{IpAddress, LocalSocket, Protocol, SocketAddress};
use open_sockets::os::linux::{Entry, Identity, ProcessReport, TcpEntry, UdpEntry};
use open_sockets::os::ProcessInfo;

fn address(bits: u32, port: u16) -> SocketAddress {
    SocketAddress { ip: IpAddress::V4(bits), port }
}

#[test]
fn v4_spells_its_octets() {
    assert_eq!(IpAddress::v4(127, 0, 0, 1), IpAddress::V4(0x7f00_0001));
    assert_eq!(IpAddress::v4(0, 0, 0, 0), IpAddress::V4(0));
    assert_eq!(IpAddress::v4(255, 255, 255, 255), IpAddress::V4(u32::MAX));
    assert_eq!(IpAddress::v4(192, 168, 1, 20), IpAddress::V4(3232235796));
    assert_eq!(IpAddress::v4(1, 2, 3, 4), IpAddress::V4(0x0102_0304));
}

#[test]
fn v6_spells_its_groups() {
    assert_eq!(IpAddress::v6(0, 0, 0, 0, 0, 0, 0, 1), IpAddress::V6(1));
    assert_eq!(IpAddress::v6(0, 0, 0, 0, 0, 0, 0, 0), IpAddress::V6(0));
    assert_eq!(
        IpAddress::v6(0xffff, 0xffff, 0xffff, 0xffff, 0xffff, 0xffff, 0xffff, 0xffff),
        IpAddress::V6(u128::MAX)
    );
    assert_eq!(
        IpAddress::v6(0x2001, 0xdb8, 1, 2, 3, 4, 5, 6),
        IpAddress::V6(0x2001_0db8_0001_0002_0003_0004_0005_0006)
    );
    assert_eq!(
        IpAddress::v6(0, 0, 0, 0, 0, 0xffff, 0x7f00, 1),
        IpAddress::V6(0xffff_7f00_0001)
    );
}

#[test]
fn entry_gives_the_address_of_its_row() {
    let tcp = Entry::Tcp(TcpEntry { local_address: address(1, 80) });
    let udp = Entry::Udp(UdpEntry { local_address: address(2, 53) });
    assert_eq!(tcp.local_address(), address(1, 80));
    assert_eq!(udp.local_address(), address(2, 53));
}

#[test]
fn entry_gives_the_protocol_of_its_table() {
    let tcp = Entry::Tcp(TcpEntry { local_address: address(1, 80) });
    let udp = Entry::Udp(UdpEntry { local_address: address(1, 80) });
    assert_eq!(tcp.protocol(), Protocol::Tcp);
    assert_eq!(udp.protocol(), Protocol::Udp);
}

#[test]
fn entry_gives_its_socket() {
    let tcp = Entry::Tcp(TcpEntry { local_address: address(1, 80) });
    let udp = Entry::Udp(UdpEntry {
        local_address: SocketAddress { ip: IpAddress::V6(7), port: 53 },
    });
    assert_eq!(
        tcp.socket(),
        LocalSocket { ip: IpAddress::V4(1), port: 80, protocol: Protocol::Tcp }
    );
    assert_eq!(
        udp.socket(),
        LocalSocket { ip: IpAddress::V6(7), port: 53, protocol: Protocol::Udp }
    );
}

#[test]
fn process_entries_come_family_by_family() {
    let process = ProcessReport {
        identity: None,
        tcp: Some(vec![
            TcpEntry { local_address: address(1, 1) },
            TcpEntry { local_address: address(2, 2) },
        ]),
        tcp6: Some(vec![TcpEntry { local_address: address(3, 3) }]),
        udp: Some(vec![UdpEntry { local_address: address(4, 4) }]),
        udp6: Some(vec![
            UdpEntry { local_address: address(5, 5) },
            UdpEntry { local_address: address(6, 6) },
        ]),
    };
    assert_eq!(
        process.entries(),
        vec![
            Entry::Tcp(TcpEntry { local_address: address(1, 1) }),
            Entry::Tcp(TcpEntry { local_address: address(2, 2) }),
            Entry::Tcp(TcpEntry { local_address: address(3, 3) }),
            Entry::Udp(UdpEntry { local_address: address(4, 4) }),
            Entry::Udp(UdpEntry { local_address: address(5, 5) }),
            Entry::Udp(UdpEntry { local_address: address(6, 6) }),
        ]
    );
}

#[test]
fn failed_fetch_gives_no_entries() {
    let process = ProcessReport {
        identity: Some(Identity { name: "p".to_string(), pid: 1 }),
        tcp: None,
        tcp6: Some(vec![TcpEntry { local_address: address(3, 3) }]),
        udp: None,
        udp6: None,
    };
    assert_eq!(process.entries(), vec![Entry::Tcp(TcpEntry { local_address: address(3, 3) })]);
    let nothing = ProcessReport { identity: None, tcp: None, tcp6: None, udp: None, udp6: None };
    assert!(nothing.entries().is_empty());
}

#[test]
fn identity_gives_the_owner_to_record() {
    let identity = Identity { name: "curl".to_string(), pid: 100 };
    assert_eq!(identity.info(), ProcessInfo { name: "curl".to_string(), pid: 100 });
    let zero = Identity { name: String::new(), pid: 0 };
    assert_eq!(zero.info(), ProcessInfo { name: String::new(), pid: 0 });
    let negative = Identity { name: "n".to_string(), pid: -2 };
    assert_eq!(negative.info(), ProcessInfo { name: "n".to_string(), pid: 4294967294 });
}

#[test]
fn process_info_keeps_name_and_id() {
    let info = ProcessInfo::new("dnsmasq", 7);
    assert_eq!(info.name, "dnsmasq");
    assert_eq!(info.pid, 7);
    let copy = info.clone();
    assert_eq!(copy, info);
    assert_ne!(info, ProcessInfo::new("dnsmasq", 8));
    assert_ne!(info, ProcessInfo::new("dnsmas", 7));
}
