use ringrtc_devices::interface_map::InterfaceMap;
use ringrtc_devices::os_interfaces::{
    addresses, current, family_rank, interface_type, is_ula, select, type_rank, usable, Address,
    Interface, InterfaceRecord, IpAddr, NetworkInterfaceType, SocketAddress, IFF_LOOPBACK, IFF_UP,
};
use ringrtc_devices::os_interfaces::NetworkInterfaceType::{
    Cellular, Ethernet, Loopback, Unknown, Vpn, Wifi,
};

fn v4(a: u8, b: u8, c: u8, d: u8) -> IpAddr {
    IpAddr::V4([a, b, c, d])
}

fn v6(segments: [u16; 8]) -> IpAddr {
    let mut octets = [0u8; 16];
    for (i, segment) in segments.iter().enumerate() {
        octets[2 * i] = (segment >> 8) as u8;
        octets[2 * i + 1] = (segment & 0xff) as u8;
    }
    IpAddr::V6(octets)
}

fn addr(name: &str, ip: IpAddr) -> Address {
    Address { name: name.to_string(), up: true, loopback: false, ip }
}

fn keys(map: &InterfaceMap) -> Vec<&str> {
    map.entries().iter().map(|entry| entry.0.as_str()).collect()
}

fn entry(map: &InterfaceMap, key: &str) -> Interface {
    *map.get(key).unwrap()
}

#[test]
fn names_classify_as_webrtc_does() {
    for (name, typ) in [
        ("en0", Wifi),
        ("en2", Wifi),
        ("pdp_ip0", Cellular),
        ("pdp_ip3", Cellular),
        ("utun4", Vpn),
        ("ipsec0", Vpn),
        ("lo0", Loopback),
        ("awdl0", Unknown),
        ("llw0", Unknown),
        ("anpi0", Unknown),
        ("ap1", Unknown),
        ("bridge0", Unknown),
        ("en", Wifi),
        ("", Unknown),
        ("pdp_ipx", Unknown),
    ] {
        assert_eq!(interface_type(name), typ, "{name:?}");
    }
}

/// A watch on Wi-Fi with cellular attached and the phone nearby.
#[test]
fn selects_one_address_per_interface_and_family() {
    let selected = select(vec![
        // 127.0.0.1
        addr("lo0", v4(127, 0, 0, 1)),
        // ::1
        addr("lo0", v6([0, 0, 0, 0, 0, 0, 0, 1])),
        // fe80::1c2b:3d4e:5f60:7a8b
        addr("en0", v6([0xfe80, 0, 0, 0, 0x1c2b, 0x3d4e, 0x5f60, 0x7a8b])),
        // 192.168.1.23
        addr("en0", v4(192, 168, 1, 23)),
        // 2600:1700:abcd:1::5
        addr("en0", v6([0x2600, 0x1700, 0xabcd, 1, 0, 0, 0, 5])),
        // 2600:1700:abcd:1:9876:5432:10fe:dcba
        addr("en0", v6([0x2600, 0x1700, 0xabcd, 1, 0x9876, 0x5432, 0x10fe, 0xdcba])),
        // fe80::2
        addr("pdp_ip0", v6([0xfe80, 0, 0, 0, 0, 0, 0, 2])),
        // 2607:fb90:1234::9
        addr("pdp_ip0", v6([0x2607, 0xfb90, 0x1234, 0, 0, 0, 0, 9])),
        // 192.0.0.2
        addr("pdp_ip0", v4(192, 0, 0, 2)),
        // fd74:a1b2:c3d4::7
        addr("utun4", v6([0xfd74, 0xa1b2, 0xc3d4, 0, 0, 0, 0, 7])),
        // fe80::3
        addr("awdl0", v6([0xfe80, 0, 0, 0, 0, 0, 0, 3])),
        // fe80::4
        addr("llw0", v6([0xfe80, 0, 0, 0, 0, 0, 0, 4])),
    ]);
    assert_eq!(keys(&selected), ["en0", "en0/v6", "pdp_ip0", "pdp_ip0/v6", "utun4/v6"]);
    assert_eq!(entry(&selected, "en0").typ, NetworkInterfaceType::Wifi);
    assert_eq!(entry(&selected, "en0").ip, v4(192, 168, 1, 23));
    // The first global IPv6, as listed.
    assert_eq!(
        entry(&selected, "en0/v6").ip,
        v6([0x2600, 0x1700, 0xabcd, 1, 0, 0, 0, 5])
    );
    assert_eq!(entry(&selected, "pdp_ip0").typ, NetworkInterfaceType::Cellular);
    assert_eq!(entry(&selected, "utun4/v6").typ, NetworkInterfaceType::Vpn);
    assert!(is_ula(&entry(&selected, "utun4/v6").ip));
    // Wi-Fi over cellular over the tunnel; global v6 over v4 over ULA.
    assert!(entry(&selected, "en0/v6").preference > entry(&selected, "en0").preference);
    assert!(entry(&selected, "en0").preference > entry(&selected, "pdp_ip0/v6").preference);
    assert!(entry(&selected, "pdp_ip0").preference > entry(&selected, "utun4/v6").preference);
}

#[test]
fn a_global_v6_beats_a_ula_listed_first() {
    let selected = select(vec![
        // fd00::1
        addr("en0", v6([0xfd00, 0, 0, 0, 0, 0, 0, 1])),
        // 2001:db8::1
        addr("en0", v6([0x2001, 0xdb8, 0, 0, 0, 0, 0, 1])),
    ]);
    assert_eq!(entry(&selected, "en0/v6").ip, v6([0x2001, 0xdb8, 0, 0, 0, 0, 0, 1]));
}

#[test]
fn down_and_link_local_are_out() {
    // 10.0.0.5
    let mut down = addr("en0", v4(10, 0, 0, 5));
    down.up = false;
    let selected = select(vec![
        down,
        // 169.254.7.7
        addr("en1", v4(169, 254, 7, 7)),
        // fe80::1
        addr("pdp_ip0", v6([0xfe80, 0, 0, 0, 0, 0, 0, 1])),
    ]);
    assert!(selected.is_empty(), "{selected:?}");
}

/// Cellular only: what a call away from Wi-Fi has to gather on.
#[test]
fn cellular_only_yields_cellular() {
    // 10.20.30.40
    let selected = select(vec![addr("pdp_ip0", v4(10, 20, 30, 40))]);
    assert_eq!(selected.len(), 1);
    assert_eq!(entry(&selected, "pdp_ip0").typ, NetworkInterfaceType::Cellular);
}

#[test]
fn preferences_are_type_first_and_family_second() {
    let selected = select(vec![
        addr("en0", v6([0x2001, 0xdb8, 0, 0, 0, 0, 0, 1])),
        addr("en0", v4(10, 0, 0, 1)),
        addr("en1", v6([0xfd00, 0, 0, 0, 0, 0, 0, 1])),
        addr("pdp_ip0", v6([0x2001, 0xdb8, 0, 0, 0, 0, 0, 2])),
        addr("tap1", v4(10, 0, 0, 2)),
        addr("awdl0", v6([0xfc00, 0, 0, 0, 0, 0, 0, 1])),
    ]);
    assert_eq!(entry(&selected, "en0/v6").preference, 14);
    assert_eq!(entry(&selected, "en0").preference, 13);
    assert_eq!(entry(&selected, "en1/v6").preference, 12);
    assert_eq!(entry(&selected, "pdp_ip0/v6").preference, 10);
    assert_eq!(entry(&selected, "tap1").preference, 5);
    assert_eq!(entry(&selected, "awdl0/v6").preference, 0);
    assert_eq!(selected.len(), 6);
    assert!(selected.get("awdl0").is_none());
}

#[test]
fn the_first_of_equals_wins() {
    let selected = select(vec![
        addr("en0", v4(10, 0, 0, 1)),
        addr("en0", v4(10, 0, 0, 2)),
        addr("en0", v6([0xfd00, 0, 0, 0, 0, 0, 0, 1])),
        addr("en0", v6([0xfd00, 0, 0, 0, 0, 0, 0, 2])),
    ]);
    assert_eq!(entry(&selected, "en0").ip, v4(10, 0, 0, 1));
    assert_eq!(entry(&selected, "en0/v6").ip, v6([0xfd00, 0, 0, 0, 0, 0, 0, 1]));
}

#[test]
fn an_interface_may_go_by_an_entrys_name() {
    let selected = select(vec![
        addr("en0/v6", v4(10, 0, 0, 1)),
        addr("en0", v6([0x2001, 0xdb8, 0, 0, 0, 0, 0, 1])),
    ]);
    assert_eq!(keys(&selected), ["en0/v6"]);
    assert_eq!(entry(&selected, "en0/v6").ip, v6([0x2001, 0xdb8, 0, 0, 0, 0, 0, 1]));
    let selected = select(vec![
        addr("x0/v6", v4(10, 0, 0, 1)),
        addr("x0", v6([0xfd00, 0, 0, 0, 0, 0, 0, 1])),
    ]);
    assert_eq!(entry(&selected, "x0/v6").ip, v4(10, 0, 0, 1));
}

#[test]
fn loopback_is_out_by_flag_and_by_name() {
    let mut flagged = addr("en0", v4(10, 0, 0, 1));
    flagged.loopback = true;
    assert!(select(vec![flagged, addr("lo7", v4(10, 0, 0, 2))]).is_empty());
    assert!(select(vec![]).is_empty());
}

#[test]
fn ranks_are_exact() {
    let ranks: Vec<u16> = [Ethernet, Wifi, Cellular, Vpn, Unknown, Loopback]
        .iter()
        .map(|typ| type_rank(*typ))
        .collect();
    assert_eq!(ranks, [3, 3, 2, 1, 0, 0]);
    assert_eq!(family_rank(&v4(1, 2, 3, 4)), 1);
    assert_eq!(family_rank(&v6([0x2001, 0, 0, 0, 0, 0, 0, 1])), 2);
    assert_eq!(family_rank(&v6([0xfdff, 0, 0, 0, 0, 0, 0, 1])), 0);
    assert!(is_ula(&v6([0xfc00, 0, 0, 0, 0, 0, 0, 0])));
    assert!(!is_ula(&v6([0xfe00, 0, 0, 0, 0, 0, 0, 0])));
    assert!(!is_ula(&v6([0xfbff, 0, 0, 0, 0, 0, 0, 0])));
    assert!(!is_ula(&v4(0xfc, 0, 0, 0)));
}

#[test]
fn usable_addresses_are_those_to_gather_on() {
    assert!(!usable(&v4(0, 0, 0, 0)));
    assert!(usable(&v4(0, 0, 0, 1)));
    assert!(!usable(&v4(127, 1, 2, 3)));
    assert!(!usable(&v4(169, 254, 0, 0)));
    assert!(usable(&v4(169, 253, 0, 0)));
    assert!(usable(&v4(224, 0, 0, 1)));
    assert!(!usable(&v6([0, 0, 0, 0, 0, 0, 0, 0])));
    assert!(!usable(&v6([0, 0, 0, 0, 0, 0, 0, 1])));
    assert!(usable(&v6([0, 0, 0, 0, 0, 0, 0, 2])));
    assert!(!usable(&v6([0xff02, 0, 0, 0, 0, 0, 0, 1])));
    assert!(!usable(&v6([0xfe80, 0, 0, 0, 0, 0, 0, 1])));
    assert!(!usable(&v6([0xfebf, 0, 0, 0, 0, 0, 0, 1])));
    assert!(usable(&v6([0xfec0, 0, 0, 0, 0, 0, 0, 1])));
    assert!(usable(&v6([0xfd00, 0, 0, 0, 0, 0, 0, 1])));
}

#[test]
fn records_become_addresses() {
    let records = vec![
        InterfaceRecord {
            name: "en0".to_string(),
            flags: IFF_UP,
            address: Some(SocketAddress::Ip(v4(10, 0, 0, 1))),
        },
        InterfaceRecord { name: "en0".to_string(), flags: IFF_UP, address: None },
        InterfaceRecord {
            name: "en0".to_string(),
            flags: IFF_UP,
            address: Some(SocketAddress::OtherFamily),
        },
        InterfaceRecord {
            name: "lo0".to_string(),
            flags: IFF_UP | IFF_LOOPBACK | 0x40,
            address: Some(SocketAddress::Ip(v4(127, 0, 0, 1))),
        },
        InterfaceRecord {
            name: "en1".to_string(),
            flags: 0x40,
            address: Some(SocketAddress::Ip(v4(10, 0, 0, 2))),
        },
    ];
    let found = addresses(&records);
    let read: Vec<(&str, bool, bool, IpAddr)> = found
        .iter()
        .map(|a| (a.name.as_str(), a.up, a.loopback, a.ip))
        .collect();
    assert_eq!(
        read,
        [
            ("en0", true, false, v4(10, 0, 0, 1)),
            ("lo0", true, true, v4(127, 0, 0, 1)),
            ("en1", false, false, v4(10, 0, 0, 2)),
        ]
    );
    assert_eq!(keys(&current(&records)), ["en0"]);
}

#[test]
fn entries_describe_themselves() {
    let interface = Interface {
        typ: NetworkInterfaceType::Wifi,
        ip: v4(192, 168, 1, 23),
        preference: 13,
    };
    assert_eq!(interface.describe("192.168.1.23"), "Wifi 192.168.1.23 p13");
    let interface = Interface {
        typ: NetworkInterfaceType::Unknown,
        ip: v4(10, 0, 0, 1),
        preference: 0,
    };
    assert_eq!(interface.describe("10.0.0.1"), "Unknown 10.0.0.1 p0");
}

/// What a host reports, tunnels and link-local addresses among it: nothing that
/// is selected is loopback or link-local, and the keys are what the names say.
#[test]
fn host_enumeration_is_clean() {
    let record = |name: &str, flags: u32, ip: IpAddr| InterfaceRecord {
        name: name.to_string(),
        flags,
        address: Some(SocketAddress::Ip(ip)),
    };
    let records = vec![
        record("lo0", IFF_UP | IFF_LOOPBACK, v4(127, 0, 0, 1)),
        record("lo0", IFF_UP | IFF_LOOPBACK, v6([0, 0, 0, 0, 0, 0, 0, 1])),
        record("lo0", IFF_UP | IFF_LOOPBACK, v6([0xfe80, 0, 0, 0, 0, 0, 0, 1])),
        record("en0", IFF_UP, v6([0xfe80, 0, 0, 0, 0x1c2b, 0x3d4e, 0x5f60, 0x7a8b])),
        record("en0", IFF_UP, v4(192, 168, 1, 23)),
        record("en0", IFF_UP, v6([0x2600, 0x1700, 0xabcd, 1, 0, 0, 0, 5])),
        record("en1", 0, v4(10, 0, 0, 9)),
        record("utun0", IFF_UP, v6([0xfe80, 0, 0, 0, 0, 0, 0, 2])),
        record("utun4", IFF_UP, v6([0xfd74, 0xa1b2, 0xc3d4, 0, 0, 0, 0, 7])),
    ];
    let selected = current(&records);
    assert_eq!(keys(&selected), ["en0", "en0/v6", "utun4/v6"]);
    for (key, interface) in selected.entries() {
        println!("{key}: {interface:?}");
        assert!(usable(&interface.ip));
        assert!(!key.starts_with("lo"));
        assert_eq!(key.ends_with("/v6"), matches!(interface.ip, IpAddr::V6(_)));
    }
}
