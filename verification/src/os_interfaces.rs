//! The operating system's network interfaces, in the shape in which the call
//! engine's injectable network takes them.
//!
//! There is one entry per interface and address family, because the injectable
//! network keys its networks by name and holds one IP address for each: the
//! IPv4 entry is named after the interface, the IPv6 one `<name>/v6`. The name
//! reaches nothing but logs and the names of candidates' networks.
use vstd::prelude::*;

use crate::interface_map::{enter, in_order, locate, map_of, InterfaceMap};
use crate::text::{append_decimal, chars_of, decimal, same_text};

verus! {

/// What kind of network an interface leads to.
#[derive(Clone, Copy, Debug, PartialEq, Eq, Structural)]
pub enum NetworkInterfaceType {
    Unknown,
    Ethernet,
    Wifi,
    Cellular,
    Vpn,
    Loopback,
}

/// An IP address: its octets, the most significant first.
#[derive(Clone, Copy, Debug, PartialEq, Eq)]
pub enum IpAddr {
    V4([u8; 4]),
    V6([u8; 16]),
}

/// One address of one interface, as the operating system reports it.
#[derive(Clone, Debug)]
pub struct Address {
    pub name: String,
    pub up: bool,
    pub loopback: bool,
    pub ip: IpAddr,
}

/// One entry that the injectable network is told about.
#[derive(Clone, Copy, Debug, PartialEq, Eq)]
pub struct Interface {
    pub typ: NetworkInterfaceType,
    pub ip: IpAddr,
    /// Higher is preferred; it feeds the candidate priority.
    pub preference: u16,
}

/// A decimal digit.
pub open spec fn is_digit(c: char) -> bool {
    '0' <= c <= '9'
}

/// A name without the digits at its end.
pub open spec fn stem(name: Seq<char>) -> Seq<char>
    decreases name.len(),
{
    if name.len() > 0 && is_digit(name.last()) {
        stem(name.drop_last())
    } else {
        name
    }
}

/// The type that an interface's name tells: that of a stem followed by digits
/// only. `en` is Wi-Fi (a watch has no Ethernet), `pdp_ip` is cellular, and the
/// tunnels (`utun`, the phone companion tunnel among them) are VPN.
pub open spec fn type_by_name(name: Seq<char>) -> NetworkInterfaceType {
    let stem = stem(name);
    if stem == "lo"@ {
        NetworkInterfaceType::Loopback
    } else if stem == "pdp_ip"@ {
        NetworkInterfaceType::Cellular
    } else if stem == "utun"@ || stem == "ipsec"@ || stem == "tun"@ || stem == "tap"@ {
        NetworkInterfaceType::Vpn
    } else if stem == "en"@ {
        NetworkInterfaceType::Wifi
    } else {
        NetworkInterfaceType::Unknown
    }
}

/// How types are preferred: fixed networks over cellular over tunnels over the rest.
pub open spec fn rank_of_type(typ: NetworkInterfaceType) -> int {
    match typ {
        NetworkInterfaceType::Ethernet | NetworkInterfaceType::Wifi => 3,
        NetworkInterfaceType::Cellular => 2,
        NetworkInterfaceType::Vpn => 1,
        _ => 0,
    }
}

/// A unique local address, in `fc00::/7`. No peer can reach it, but it is a
/// harmless host candidate, and the only address that the companion tunnel has.
pub open spec fn unique_local(ip: IpAddr) -> bool {
    match ip {
        IpAddr::V4(_) => false,
        IpAddr::V6(octets) => octets@[0] == 0xfc || octets@[0] == 0xfd,
    }
}

/// How address families are preferred within a type, after RFC 6724: global
/// IPv6, then IPv4, then unique local addresses.
pub open spec fn rank_of_family(ip: IpAddr) -> int {
    match ip {
        IpAddr::V4(_) => 1,
        IpAddr::V6(_) => if unique_local(ip) {
            0
        } else {
            2
        },
    }
}

/// All octets are zero but for the last, which is `last`.
pub open spec fn zeros_then(octets: Seq<u8>, last: u8) -> bool {
    octets.last() == last && forall|i: int| 0 <= i < octets.len() - 1 ==> octets[i] == 0
}

/// An address on which candidates could be gathered. Link-local addresses are
/// out (as a host candidate no peer can use them, and as a STUN source no server
/// answers them); unique local ones stay.
pub open spec fn gatherable(ip: IpAddr) -> bool {
    match ip {
        IpAddr::V4(octets) => {
            &&& !zeros_then(octets@, 0)
            // 127.0.0.0/8 is loopback
            &&& octets@[0] != 127
            // 169.254.0.0/16 is link-local
            &&& !(octets@[0] == 169 && octets@[1] == 254)
        },
        IpAddr::V6(octets) => {
            &&& !zeros_then(octets@, 0)
            &&& !zeros_then(octets@, 1)
            // ff00::/8 is multicast
            &&& octets@[0] != 0xff
            // fe80::/10 is link-local
            &&& !(octets@[0] == 0xfe && 0x80 <= octets@[1] <= 0xbf)
        },
    }
}

/// How an address of the named interface is preferred: by its type, and within a
/// type by its family.
pub open spec fn preference_of(name: Seq<char>, ip: IpAddr) -> int {
    rank_of_type(type_by_name(name)) * 4 + rank_of_family(ip)
}

/// An address that may be selected: its interface is up and no loopback one, by
/// its flags and by its name, and candidates could be gathered on it.
pub open spec fn eligible(address: Address) -> bool {
    &&& address.up
    &&& !address.loopback
    &&& gatherable(address.ip)
    &&& type_by_name(address.name@) != NetworkInterfaceType::Loopback
}

/// The name of the entry for an address of the named interface.
pub open spec fn entry_name(name: Seq<char>, ip: IpAddr) -> Seq<char> {
    match ip {
        IpAddr::V4(_) => name,
        IpAddr::V6(_) => name + "/v6"@,
    }
}

/// The entry for an address.
pub open spec fn entry_of(address: Address) -> Interface {
    Interface {
        typ: type_by_name(address.name@),
        ip: address.ip,
        preference: preference_of(address.name@, address.ip) as u16,
    }
}

/// The address at `i` competes for the entry named `key`.
pub open spec fn competes(addresses: Seq<Address>, key: Seq<char>, i: int) -> bool {
    &&& 0 <= i < addresses.len()
    &&& eligible(addresses[i])
    &&& entry_name(addresses[i].name@, addresses[i].ip) == key
}

/// The address at `i` gets the entry named `key`: of those that compete for it,
/// none is preferred to it, and none that comes earlier is preferred as much.
pub open spec fn wins(addresses: Seq<Address>, key: Seq<char>, i: int) -> bool {
    &&& competes(addresses, key, i)
    &&& forall|j: int| #[trigger]
        competes(addresses, key, j) ==> entry_of(addresses[j]).preference <= entry_of(
            addresses[i],
        ).preference
    &&& forall|j: int|
        j < i && #[trigger] competes(addresses, key, j) ==> entry_of(addresses[j]).preference
            < entry_of(addresses[i]).preference
}

/// The map has an entry for each name that an address competes for, and it is
/// that of the address that wins.
pub open spec fn is_selection(addresses: Seq<Address>, map: Map<Seq<char>, Interface>) -> bool {
    &&& forall|key: Seq<char>| #[trigger]
        map.dom().contains(key) <==> exists|i: int| wins(addresses, key, i)
    &&& forall|key: Seq<char>, i: int| #[trigger]
        wins(addresses, key, i) ==> map[key] == entry_of(addresses[i])
}

/// The type that an interface's name tells.
pub fn interface_type(name: &str) -> (typ: NetworkInterfaceType)
    ensures
        typ == type_by_name(name@),
{
    let chars = chars_of(name);
    let mut n: usize = chars.len();
    proof {
        assert(name@.take(n as int) =~= name@);
    }
    while n > 0 && '0' <= chars[n - 1] && chars[n - 1] <= '9'
        invariant
            chars@ == name@,
            n <= name@.len(),
            stem(name@) == stem(name@.take(n as int)),
        decreases n,
    {
        proof {
            assert(name@.take(n as int).drop_last() =~= name@.take(n - 1));
        }
        n -= 1;
    }
    let stem = name.substring_char(0, n);
    proof {
        assert(stem@ =~= name@.take(n as int));
    }
    if same_text(stem, "lo") {
        NetworkInterfaceType::Loopback
    } else if same_text(stem, "pdp_ip") {
        NetworkInterfaceType::Cellular
    } else if same_text(stem, "utun") || same_text(stem, "ipsec") || same_text(stem, "tun")
        || same_text(stem, "tap") {
        NetworkInterfaceType::Vpn
    } else if same_text(stem, "en") {
        NetworkInterfaceType::Wifi
    } else {
        NetworkInterfaceType::Unknown
    }
}

/// How a type is preferred.
pub fn type_rank(typ: NetworkInterfaceType) -> (rank: u16)
    ensures
        rank == rank_of_type(typ),
        rank <= 3,
{
    match typ {
        NetworkInterfaceType::Ethernet | NetworkInterfaceType::Wifi => 3,
        NetworkInterfaceType::Cellular => 2,
        NetworkInterfaceType::Vpn => 1,
        _ => 0,
    }
}

/// Whether an address is a unique local one.
pub fn is_ula(ip: &IpAddr) -> (ula: bool)
    ensures
        ula == unique_local(*ip),
{
    match ip {
        IpAddr::V4(_) => false,
        IpAddr::V6(octets) => octets[0] == 0xfc || octets[0] == 0xfd,
    }
}

/// How an address's family is preferred within a type.
pub fn family_rank(ip: &IpAddr) -> (rank: u16)
    ensures
        rank == rank_of_family(*ip),
        rank <= 2,
{
    match ip {
        IpAddr::V4(_) => 1,
        IpAddr::V6(_) => if is_ula(ip) {
            0
        } else {
            2
        },
    }
}

/// Whether all octets are zero but for the last, which is `last`.
fn is_zeros_then(octets: &[u8], last: u8) -> (zeros: bool)
    requires
        octets@.len() > 0,
    ensures
        zeros == zeros_then(octets@, last),
{
    let n: usize = octets.len() - 1;
    for i in 0..n
        invariant
            n == octets@.len() - 1,
            forall|j: int| 0 <= j < i ==> octets@[j] == 0,
    {
        if octets[i] != 0 {
            return false;
        }
    }
    octets[n] == last
}

/// Whether candidates could be gathered on an address.
pub fn usable(ip: &IpAddr) -> (yes: bool)
    ensures
        yes == gatherable(*ip),
{
    match ip {
        IpAddr::V4(octets) => !is_zeros_then(octets, 0) && octets[0] != 127 && !(octets[0] == 169
            && octets[1] == 254),
        IpAddr::V6(octets) => !is_zeros_then(octets, 0) && !is_zeros_then(octets, 1) && octets[0]
            != 0xff && !(octets[0] == 0xfe && 0x80 <= octets[1] && octets[1] <= 0xbf),
    }
}

/// One more address competes for the entry of its own name only.
proof fn one_more_competes(addresses: Seq<Address>, last: Address, key: Seq<char>, i: int)
    ensures
        competes(addresses.push(last), key, i) <==> competes(addresses, key, i) || (i
            == addresses.len() && eligible(last) && entry_name(last.name@, last.ip) == key),
        0 <= i < addresses.len() ==> addresses.push(last)[i] == addresses[i],
{
}

/// An address that is not eligible, or not preferred to the one that has the
/// entry, changes nothing.
proof fn address_is_passed_over(
    addresses: Seq<Address>,
    last: Address,
    map: Map<Seq<char>, Interface>,
)
    requires
        is_selection(addresses, map),
        eligible(last) ==> map.dom().contains(entry_name(last.name@, last.ip)) && map[entry_name(
            last.name@,
            last.ip,
        )].preference >= entry_of(last).preference,
    ensures
        is_selection(addresses.push(last), map),
{
    let more = addresses.push(last);
    let n = addresses.len() as int;
    assert forall|key: Seq<char>, i: int| #[trigger] wins(more, key, i) <==> wins(
        addresses,
        key,
        i,
    ) by {
        assert forall|j: int| #[trigger] competes(more, key, j) <==> competes(addresses, key, j)
            || (j == n && eligible(last) && entry_name(last.name@, last.ip) == key) by {
            one_more_competes(addresses, last, key, j);
        }
        if eligible(last) && entry_name(last.name@, last.ip) == key {
            let w = choose|w: int| wins(addresses, key, w);
            assert(competes(more, key, w));
        }
        assert forall|j: int| #[trigger] competes(addresses, key, j) implies competes(
            more,
            key,
            j,
        ) by {}
    }
    assert forall|key: Seq<char>| #[trigger]
        map.dom().contains(key) <==> exists|i: int| wins(more, key, i) by {
        if exists|i: int| wins(addresses, key, i) {
            let w = choose|w: int| wins(addresses, key, w);
            assert(wins(more, key, w));
        }
        if exists|i: int| wins(more, key, i) {
            let w = choose|w: int| wins(more, key, w);
            assert(wins(addresses, key, w));
        }
    }
    assert forall|key: Seq<char>, i: int| #[trigger] wins(more, key, i) implies map[key]
        == entry_of(more[i]) by {
        assert(wins(addresses, key, i));
    }
}

/// Where any address competes for an entry, one of them wins it.
pub proof fn someone_wins(addresses: Seq<Address>, key: Seq<char>, i: int) -> (winner: int)
    requires
        competes(addresses, key, i),
    ensures
        wins(addresses, key, winner),
    decreases addresses.len(),
{
    let rest = addresses.drop_last();
    let last = addresses.last();
    let n = rest.len() as int;
    assert(addresses =~= rest.push(last));
    assert forall|j: int| #[trigger] competes(addresses, key, j) <==> competes(rest, key, j) || (j
        == n && eligible(last) && entry_name(last.name@, last.ip) == key) by {
        one_more_competes(rest, last, key, j);
    }
    if exists|j: int| competes(rest, key, j) {
        let j = choose|j: int| competes(rest, key, j);
        let w = someone_wins(rest, key, j);
        assert(competes(addresses, key, w));
        if competes(addresses, key, n) && entry_of(last).preference > entry_of(rest[w]).preference {
            assert(wins(addresses, key, n));
            n
        } else {
            assert(wins(addresses, key, w));
            w
        }
    } else {
        assert(wins(addresses, key, n));
        n
    }
}

/// An eligible address gets the entry of its name, if nothing has it or it is
/// preferred to what has it.
proof fn address_is_entered(
    addresses: Seq<Address>,
    last: Address,
    map: Map<Seq<char>, Interface>,
)
    requires
        is_selection(addresses, map),
        eligible(last),
        map.dom().contains(entry_name(last.name@, last.ip)) ==> map[entry_name(
            last.name@,
            last.ip,
        )].preference < entry_of(last).preference,
    ensures
        is_selection(
            addresses.push(last),
            map.insert(entry_name(last.name@, last.ip), entry_of(last)),
        ),
{
    let more = addresses.push(last);
    let n = addresses.len() as int;
    let name = entry_name(last.name@, last.ip);
    let after = map.insert(name, entry_of(last));
    assert forall|j: int| #[trigger] competes(addresses, name, j) implies entry_of(
        addresses[j],
    ).preference < entry_of(last).preference by {
        let w = someone_wins(addresses, name, j);
        assert(map.dom().contains(name));
        assert(map[name] == entry_of(addresses[w]));
    }
    assert(wins(more, name, n)) by {
        assert forall|j: int| #[trigger] competes(more, name, j) implies j == n || competes(
            addresses,
            name,
            j,
        ) by {
            one_more_competes(addresses, last, name, j);
        }
    }
    assert forall|i: int| #[trigger] wins(more, name, i) implies i == n by {
        assert(competes(more, name, n));
        if i != n {
            one_more_competes(addresses, last, name, i);
        }
    }
    assert forall|key: Seq<char>, i: int| key != name implies (#[trigger] wins(more, key, i)
        <==> wins(addresses, key, i)) by {
        assert forall|j: int| #[trigger] competes(more, key, j) <==> competes(
            addresses,
            key,
            j,
        ) by {
            one_more_competes(addresses, last, key, j);
        }
        if wins(more, key, i) {
            assert forall|j: int| #[trigger] competes(addresses, key, j) implies competes(
                more,
                key,
                j,
            ) by {}
            assert(wins(addresses, key, i));
        }
        if wins(addresses, key, i) {
            assert(competes(more, key, i));
            assert(wins(more, key, i));
        }
    }
    assert forall|key: Seq<char>| #[trigger]
        after.dom().contains(key) <==> exists|i: int| wins(more, key, i) by {
        if key != name {
            if map.dom().contains(key) {
                let w = choose|w: int| wins(addresses, key, w);
                assert(wins(more, key, w));
            }
            if exists|i: int| wins(more, key, i) {
                let w = choose|w: int| wins(more, key, w);
                assert(wins(addresses, key, w));
            }
        }
    }
    assert forall|key: Seq<char>, i: int| #[trigger] wins(more, key, i) implies after[key]
        == entry_of(more[i]) by {
        if key != name {
            assert(wins(addresses, key, i));
        }
    }
}

/// The name of the entry for an address of the named interface.
fn name_entry(name: &str, ip: &IpAddr) -> (key: String)
    ensures
        key@ == entry_name(name@, *ip),
{
    let mut key = name.to_owned();
    match ip {
        IpAddr::V4(_) => {},
        IpAddr::V6(_) => {
            key.append("/v6");
        },
    }
    key
}

/// The entries for a set of addresses: up, not loopback, one address per
/// interface and family. That is the first IPv4 address; for IPv6 the first
/// global one, else the first unique local one.
pub fn select(addresses: Vec<Address>) -> (selected: InterfaceMap)
    ensures
        is_selection(addresses@, selected@),
{
    let mut selected: Vec<(String, Interface)> = Vec::new();
    proof {
        assert forall|key: Seq<char>, i: int| !(#[trigger] wins(
            addresses@.take(0),
            key,
            i,
        )) by {}
    }
    for i in 0..addresses.len()
        invariant
            in_order(selected@),
            is_selection(addresses@.take(i as int), map_of(selected@)),
    {
        let address = &addresses[i];
        let ghost before = addresses@.take(i as int);
        let ghost map = map_of(selected@);
        proof {
            assert(addresses@.take(i + 1) =~= before.push(*address));
        }
        let typ = interface_type(address.name.as_str());
        if !address.up || address.loopback || !usable(&address.ip) || typ
            == NetworkInterfaceType::Loopback {
            proof {
                address_is_passed_over(before, *address, map);
            }
        } else {
            let key = name_entry(address.name.as_str(), &address.ip);
            let candidate = Interface {
                typ,
                ip: address.ip,
                preference: type_rank(typ) * 4 + family_rank(&address.ip),
            };
            let place = locate(&selected, key.as_str());
            if place.1 && selected[place.0].1.preference >= candidate.preference {
                proof {
                    address_is_passed_over(before, *address, map);
                }
            } else {
                proof {
                    address_is_entered(before, *address, map);
                }
                enter(&mut selected, place, key, candidate);
            }
        }
    }
    proof {
        assert(addresses@.take(addresses@.len() as int) =~= addresses@);
    }
    InterfaceMap::from_entries(selected)
}

/// The name of a type.
pub open spec fn label_of_type(typ: NetworkInterfaceType) -> Seq<char> {
    match typ {
        NetworkInterfaceType::Unknown => "Unknown"@,
        NetworkInterfaceType::Ethernet => "Ethernet"@,
        NetworkInterfaceType::Wifi => "Wifi"@,
        NetworkInterfaceType::Cellular => "Cellular"@,
        NetworkInterfaceType::Vpn => "Vpn"@,
        NetworkInterfaceType::Loopback => "Loopback"@,
    }
}

impl Interface {
    /// The entry as it is logged, given its address as text.
    pub fn describe(&self, ip: &str) -> (text: String)
        ensures
            text@ == label_of_type(self.typ) + " "@ + ip@ + " p"@ + decimal(self.preference as nat),
    {
        let mut text = String::new();
        text.append(
            match self.typ {
                NetworkInterfaceType::Unknown => "Unknown",
                NetworkInterfaceType::Ethernet => "Ethernet",
                NetworkInterfaceType::Wifi => "Wifi",
                NetworkInterfaceType::Cellular => "Cellular",
                NetworkInterfaceType::Vpn => "Vpn",
                NetworkInterfaceType::Loopback => "Loopback",
            },
        );
        text.append(" ");
        text.append(ip);
        text.append(" p");
        append_decimal(&mut text, self.preference as usize);
        proof {
            assert(text@ =~= label_of_type(self.typ) + " "@ + ip@ + " p"@ + decimal(
                self.preference as nat,
            ));
        }
        text
    }
}

/// The interface is up.
pub const IFF_UP: u32 = 0x1;

/// The interface is a loopback one.
pub const IFF_LOOPBACK: u32 = 0x8;

/// A socket address, of which only IP addresses are of use.
#[derive(Clone, Copy, Debug)]
pub enum SocketAddress {
    Ip(IpAddr),
    OtherFamily,
}

/// One record of the operating system's list of interface addresses. An
/// interface may come without an address.
#[derive(Clone, Debug)]
pub struct InterfaceRecord {
    pub name: String,
    pub flags: u32,
    pub address: Option<SocketAddress>,
}

/// The address that a record holds, if it holds an IP address.
pub open spec fn address_in(record: InterfaceRecord) -> Option<Address> {
    match record.address {
        Some(SocketAddress::Ip(ip)) => Some(
            Address {
                name: record.name,
                up: record.flags & IFF_UP != 0,
                loopback: record.flags & IFF_LOOPBACK != 0,
                ip,
            },
        ),
        _ => None,
    }
}

/// Every IP address among the records, in their order, with the flags that the
/// selection reads.
pub fn addresses(records: &Vec<InterfaceRecord>) -> (found: Vec<Address>)
    ensures
        found@ == records@.filter_map(|record: InterfaceRecord| address_in(record)),
{
    let mut found: Vec<Address> = Vec::new();
    let ghost keep = |record: InterfaceRecord| address_in(record);
    for i in 0..records.len()
        invariant
            keep == (|record: InterfaceRecord| address_in(record)),
            found@ == records@.take(i as int).filter_map(keep),
    {
        proof {
            assert(records@.take(i + 1).drop_last() =~= records@.take(i as int));
        }
        let record = &records[i];
        if let Some(SocketAddress::Ip(ip)) = record.address {
            found.push(
                Address {
                    name: record.name.clone(),
                    up: record.flags & IFF_UP != 0,
                    loopback: record.flags & IFF_LOOPBACK != 0,
                    ip,
                },
            );
        }
    }
    proof {
        assert(records@.take(records@.len() as int) =~= records@);
    }
    found
}

/// What the injectable network should know, given the operating system's
/// current list of interface addresses.
pub fn current(records: &Vec<InterfaceRecord>) -> (selected: InterfaceMap)
    ensures
        is_selection(
            records@.filter_map(|record: InterfaceRecord| address_in(record)),
            selected@,
        ),
{
    select(addresses(records))
}

/// The type of a network decides before the address family: an address of a
/// type that ranks higher is preferred whatever the families are, and within a
/// rank global IPv6 comes before IPv4, and IPv4 before unique local addresses.
pub proof fn type_decides_before_family(
    name: Seq<char>,
    ip: IpAddr,
    other_name: Seq<char>,
    other_ip: IpAddr,
)
    ensures
        0 <= preference_of(name, ip) <= 14,
        rank_of_type(type_by_name(name)) > rank_of_type(type_by_name(other_name))
            ==> preference_of(name, ip) > preference_of(other_name, other_ip),
        rank_of_type(type_by_name(name)) == rank_of_type(type_by_name(other_name)) ==> (
        preference_of(name, ip) > preference_of(other_name, other_ip) <==> rank_of_family(ip)
            > rank_of_family(other_ip)),
{
}

/// Digits at the end of a name do not matter to its type.
pub proof fn digits_do_not_change_the_type(name: Seq<char>, c: char)
    requires
        is_digit(c),
    ensures
        type_by_name(name.push(c)) == type_by_name(name),
{
    assert(name.push(c).drop_last() =~= name);
}

/// At most one address wins an entry.
pub proof fn one_winner(addresses: Seq<Address>, key: Seq<char>, i: int, j: int)
    requires
        wins(addresses, key, i),
        wins(addresses, key, j),
    ensures
        i == j,
{
    assert(competes(addresses, key, i));
    assert(competes(addresses, key, j));
}

/// The addresses decide all entries: there is one selection for them.
pub proof fn selection_is_unique(
    addresses: Seq<Address>,
    a: Map<Seq<char>, Interface>,
    b: Map<Seq<char>, Interface>,
)
    requires
        is_selection(addresses, a),
        is_selection(addresses, b),
    ensures
        a == b,
{
    assert forall|key: Seq<char>| a.dom().contains(key) <==> b.dom().contains(key) by {
        assert(a.dom().contains(key) <==> exists|i: int| wins(addresses, key, i));
        assert(b.dom().contains(key) <==> exists|i: int| wins(addresses, key, i));
    }
    assert forall|key: Seq<char>| a.dom().contains(key) implies a[key] == b[key] by {
        let i = choose|i: int| wins(addresses, key, i);
        assert(wins(addresses, key, i));
    }
    assert(a =~= b);
}

/// Every name that an eligible address has an entry under is among the entries,
/// and no other.
pub proof fn every_eligible_address_has_its_entry(
    addresses: Seq<Address>,
    map: Map<Seq<char>, Interface>,
    key: Seq<char>,
)
    requires
        is_selection(addresses, map),
    ensures
        map.dom().contains(key) <==> exists|i: int| competes(addresses, key, i),
{
    if exists|i: int| competes(addresses, key, i) {
        let i = choose|i: int| competes(addresses, key, i);
        let w = someone_wins(addresses, key, i);
    }
    if map.dom().contains(key) {
        let w = choose|w: int| wins(addresses, key, w);
        assert(competes(addresses, key, w));
    }
}

/// Nothing selected is loopback, link-local, multicast or unspecified, and its
/// preference is that of its type and family.
pub proof fn selected_entries_are_clean(
    addresses: Seq<Address>,
    map: Map<Seq<char>, Interface>,
    key: Seq<char>,
)
    requires
        is_selection(addresses, map),
        map.dom().contains(key),
    ensures
        gatherable(map[key].ip),
        map[key].typ != NetworkInterfaceType::Loopback,
        map[key].preference == rank_of_type(map[key].typ) * 4 + rank_of_family(map[key].ip),
{
    let w = choose|w: int| wins(addresses, key, w);
    assert(wins(addresses, key, w));
}

/// The entries named `.../v6` are those with IPv6 addresses, but where an
/// interface that has such a name itself wins with an IPv4 address.
pub proof fn names_tell_the_family(
    addresses: Seq<Address>,
    map: Map<Seq<char>, Interface>,
    key: Seq<char>,
)
    requires
        is_selection(addresses, map),
        map.dom().contains(key),
        forall|i: int| #[trigger]
            competes(addresses, key, i) && addresses[i].ip is V4 && "/v6"@.is_suffix_of(key)
                ==> exists|j: int| #[trigger]
                competes(addresses, key, j) && entry_of(addresses[j]).preference > entry_of(
                    addresses[i],
                ).preference,
    ensures
        "/v6"@.is_suffix_of(key) <==> map[key].ip is V6,
{
    let w = choose|w: int| wins(addresses, key, w);
    assert(wins(addresses, key, w));
    if addresses[w].ip is V6 {
        assert(key.subrange(key.len() - "/v6"@.len(), key.len() as int) =~= "/v6"@);
    }
}

/// The IPv4 entry of an interface is its first eligible IPv4 address, unless
/// another interface's IPv6 entry goes by the same name and is preferred.
pub proof fn first_ipv4_address_wins(addresses: Seq<Address>, name: Seq<char>, i: int)
    requires
        0 <= i < addresses.len(),
        eligible(addresses[i]),
        addresses[i].name@ == name,
        addresses[i].ip is V4,
        forall|j: int|
            0 <= j < i && (#[trigger] addresses[j]).name@ == name && addresses[j].ip is V4
                ==> !eligible(addresses[j]),
        forall|j: int|
            0 <= j < addresses.len() && eligible(#[trigger] addresses[j]) && addresses[j].ip is V6
                && addresses[j].name@ + "/v6"@ == name ==> entry_of(addresses[j]).preference
                < entry_of(addresses[i]).preference,
    ensures
        wins(addresses, name, i),
{
}

/// Texts that agree once the same text is appended agree.
proof fn appending_is_injective(a: Seq<char>, b: Seq<char>, end: Seq<char>)
    requires
        a + end == b + end,
    ensures
        a == b,
{
    assert((a + end).len() == (b + end).len());
    assert(a =~= (a + end).take(a.len() as int));
    assert(b =~= (b + end).take(b.len() as int));
}

/// The IPv6 entry of an interface is its first eligible global IPv6 address, or
/// where it has none its first eligible unique local one, unless an interface
/// with an IPv4 address goes by the entry's name and is preferred.
pub proof fn first_global_ipv6_address_wins(addresses: Seq<Address>, name: Seq<char>, i: int)
    requires
        0 <= i < addresses.len(),
        eligible(addresses[i]),
        addresses[i].name@ == name,
        addresses[i].ip is V6,
        unique_local(addresses[i].ip) ==> forall|j: int|
            0 <= j < addresses.len() && (#[trigger] addresses[j]).name@ == name
                && addresses[j].ip is V6 && eligible(addresses[j]) ==> unique_local(
                addresses[j].ip,
            ),
        forall|j: int|
            0 <= j < i && (#[trigger] addresses[j]).name@ == name && addresses[j].ip is V6
                && eligible(addresses[j]) ==> unique_local(addresses[j].ip) && !unique_local(
                addresses[i].ip,
            ),
        forall|j: int|
            0 <= j < addresses.len() && eligible(#[trigger] addresses[j]) && addresses[j].ip is V4
                && addresses[j].name@ == name + "/v6"@ ==> entry_of(addresses[j]).preference
                < entry_of(addresses[i]).preference,
    ensures
        wins(addresses, name + "/v6"@, i),
{
    let key = name + "/v6"@;
    assert forall|j: int| #[trigger] competes(addresses, key, j) implies addresses[j].ip is V4
        || addresses[j].name@ == name by {
        if addresses[j].ip is V6 {
            appending_is_injective(addresses[j].name@, name, "/v6"@);
        }
    }
}

/// `name` is `stem`, followed by decimal digits or nothing.
pub open spec fn numbered(name: Seq<char>, stem: Seq<char>) -> bool {
    &&& stem.len() <= name.len()
    &&& forall|i: int| 0 <= i < stem.len() ==> #[trigger] name[i] == stem[i]
    &&& forall|i: int| stem.len() <= i < name.len() ==> 48 <= (#[trigger] name[i]) as int <= 57
}

/// A name is its stem and digits after it, and the stem does not end in a digit.
proof fn stem_is_followed_by_digits(name: Seq<char>)
    ensures
        numbered(name, stem(name)),
        stem(name).len() > 0 ==> !is_digit(stem(name).last()),
    decreases name.len(),
{
    if name.len() > 0 && is_digit(name.last()) {
        let shorter = name.drop_last();
        stem_is_followed_by_digits(shorter);
        assert forall|i: int| 0 <= i < stem(name).len() implies #[trigger] name[i] == stem(
            name,
        )[i] by {
            assert(name[i] == shorter[i]);
        }
        assert forall|i: int| stem(name).len() <= i < name.len() implies 48 <= (
        #[trigger] name[i]) as int <= 57 by {
            if i < shorter.len() {
                assert(name[i] == shorter[i]);
            }
        }
    }
}

/// What a name is numbered from is its stem, if it does not end in a digit.
proof fn numbers_leave_the_stem(name: Seq<char>, of: Seq<char>)
    requires
        numbered(name, of),
        of.len() > 0,
        !is_digit(of.last()),
    ensures
        stem(name) == of,
    decreases name.len(),
{
    if name.len() == of.len() {
        assert(name =~= of);
        assert(name.last() == of.last());
    } else {
        let shorter = name.drop_last();
        assert(48 <= name[name.len() - 1] as int <= 57);
        assert forall|i: int| 0 <= i < of.len() implies #[trigger] shorter[i] == of[i] by {
            assert(shorter[i] == name[i]);
        }
        assert forall|i: int| of.len() <= i < shorter.len() implies 48 <= (
        #[trigger] shorter[i]) as int <= 57 by {
            assert(shorter[i] == name[i]);
        }
        numbers_leave_the_stem(shorter, of);
    }
}

/// A name is numbered from a stem exactly if that is its stem.
proof fn numbered_from_its_stem(name: Seq<char>, of: Seq<char>)
    requires
        of.len() > 0,
        !is_digit(of.last()),
    ensures
        numbered(name, of) <==> stem(name) == of,
{
    stem_is_followed_by_digits(name);
    if numbered(name, of) {
        numbers_leave_the_stem(name, of);
    }
}

/// The names of interfaces tell their types: loopback, cellular, tunnel and
/// Wi-Fi interfaces are known by their stems, each followed by any digits or
/// none, and every other name tells nothing. No name tells Ethernet.
pub proof fn stems_tell_types(name: Seq<char>)
    ensures
        type_by_name(name) == NetworkInterfaceType::Loopback <==> numbered(name, "lo"@),
        type_by_name(name) == NetworkInterfaceType::Cellular <==> numbered(name, "pdp_ip"@),
        type_by_name(name) == NetworkInterfaceType::Vpn <==> {
            ||| numbered(name, "utun"@)
            ||| numbered(name, "ipsec"@)
            ||| numbered(name, "tun"@)
            ||| numbered(name, "tap"@)
        },
        type_by_name(name) == NetworkInterfaceType::Wifi <==> numbered(name, "en"@),
        type_by_name(name) != NetworkInterfaceType::Ethernet,
{
    reveal_strlit("lo");
    reveal_strlit("pdp_ip");
    reveal_strlit("utun");
    reveal_strlit("ipsec");
    reveal_strlit("tun");
    reveal_strlit("tap");
    reveal_strlit("en");
    numbered_from_its_stem(name, "lo"@);
    numbered_from_its_stem(name, "pdp_ip"@);
    numbered_from_its_stem(name, "utun"@);
    numbered_from_its_stem(name, "ipsec"@);
    numbered_from_its_stem(name, "tun"@);
    numbered_from_its_stem(name, "tap"@);
    numbered_from_its_stem(name, "en"@);
    assert("lo"@[0] != "en"@[0]);
    assert("tun"@[1] != "tap"@[1]);
    assert("pdp_ip"@.len() == 6 && "ipsec"@.len() == 5 && "utun"@.len() == 4);
}

/// The preference of every address, by its type and family: four for each rank
/// of the type, and within a type global IPv6 before IPv4 before unique local
/// addresses.
pub proof fn preferences_are_ranked(name: Seq<char>, ip: IpAddr)
    ensures
        ({
            let by_family: int = match ip {
                IpAddr::V4(_) => 1,
                IpAddr::V6(octets) => if octets@[0] & 0xfe == 0xfc {
                    0
                } else {
                    2
                },
            };
            &&& numbered(name, "en"@) ==> preference_of(name, ip) == 12 + by_family
            &&& numbered(name, "pdp_ip"@) ==> preference_of(name, ip) == 8 + by_family
            &&& numbered(name, "utun"@) || numbered(name, "ipsec"@) || numbered(name, "tun"@)
                || numbered(name, "tap"@) ==> preference_of(name, ip) == 4 + by_family
            &&& type_by_name(name) == NetworkInterfaceType::Unknown ==> preference_of(name, ip)
                == by_family
        }),
{
    stems_tell_types(name);
    unique_local_addresses_share_seven_bits(ip);
}

/// The ranks of the types: fixed networks first, then cellular ones, then
/// tunnels, then the rest.
pub proof fn fixed_networks_rank_first()
    ensures
        rank_of_type(NetworkInterfaceType::Ethernet) == rank_of_type(NetworkInterfaceType::Wifi),
        rank_of_type(NetworkInterfaceType::Wifi) == rank_of_type(NetworkInterfaceType::Cellular)
            + 1,
        rank_of_type(NetworkInterfaceType::Cellular) == rank_of_type(NetworkInterfaceType::Vpn) + 1,
        rank_of_type(NetworkInterfaceType::Vpn) == rank_of_type(NetworkInterfaceType::Unknown) + 1,
        rank_of_type(NetworkInterfaceType::Unknown) == rank_of_type(NetworkInterfaceType::Loopback),
        rank_of_type(NetworkInterfaceType::Unknown) == 0,
{
}

/// The unique local addresses are the IPv6 addresses whose first seven bits are
/// those of `fc00::/7`, and of the families only those of IPv6 know them.
pub proof fn unique_local_addresses_share_seven_bits(ip: IpAddr)
    ensures
        unique_local(ip) <==> (ip matches IpAddr::V6(octets) && octets@[0] & 0xfe == 0xfc),
        rank_of_family(ip) == match ip {
            IpAddr::V4(_) => 1int,
            IpAddr::V6(octets) => if octets@[0] & 0xfe == 0xfc {
                0
            } else {
                2
            },
        },
{
    if let IpAddr::V6(octets) = ip {
        let first: u8 = octets@[0];
        assert(first & 0xfe == 0xfc <==> first == 0xfc || first == 0xfd) by (bit_vector);
    }
}

/// The IPv4 addresses on which nothing can be gathered are 0.0.0.0, those of
/// 127.0.0.0/8 and those of 169.254.0.0/16, and no other.
pub proof fn ipv4_addresses_that_are_out(octets: [u8; 4])
    ensures
        ({
            let number = ((octets@[0] * 256 + octets@[1]) * 256 + octets@[2]) * 256 + octets@[3];
            gatherable(IpAddr::V4(octets)) <==> {
                &&& number != 0
                &&& !(0x7f00_0000 <= number <= 0x7fff_ffff)
                &&& !(0xa9fe_0000 <= number <= 0xa9fe_ffff)
            }
        }),
{
    let o = octets@;
    assert(o.len() == 4);
    assert(zeros_then(o, 0) <==> o[0] == 0 && o[1] == 0 && o[2] == 0 && o[3] == 0);
}

/// The IPv6 addresses on which nothing can be gathered are `::`, `::1`, the
/// multicast ones (`ff00::/8`) and the link-local ones (`fe80::/10`), and no
/// other.
pub proof fn ipv6_addresses_that_are_out(octets: [u8; 16])
    ensures
        ({
            let high = octets@[0] * 256 + octets@[1];
            let small = forall|i: int| 0 <= i < 15 ==> #[trigger] octets@[i] == 0;
            gatherable(IpAddr::V6(octets)) <==> {
                &&& !(small && octets@[15] <= 1)
                &&& !(0xff00 <= high <= 0xffff)
                &&& !(0xfe80 <= high <= 0xfebf)
            }
        }),
{
    let o = octets@;
    assert(o.len() == 16);
    assert(o.last() == o[15]);
    let small = forall|i: int| 0 <= i < 15 ==> #[trigger] o[i] == 0;
    assert(zeros_then(o, 0) <==> small && o[15] == 0);
    assert(zeros_then(o, 1) <==> small && o[15] == 1);
}

/// Without addresses there is nothing to select.
pub proof fn no_address_no_entry(map: Map<Seq<char>, Interface>)
    requires
        is_selection(Seq::empty(), map),
    ensures
        map == Map::<Seq<char>, Interface>::empty(),
{
    assert forall|key: Seq<char>| !map.dom().contains(key) by {
        if map.dom().contains(key) {
            let i = choose|i: int| wins(Seq::<Address>::empty(), key, i);
            assert(competes(Seq::<Address>::empty(), key, i));
        }
    }
    assert(map =~= Map::<Seq<char>, Interface>::empty());
}

/// One more address changes a selection in one way only. It gets the entry of
/// its interface and family, if the interface is up, is no loopback one by flag
/// or name, the address is one to gather on, and the entry was missing or less
/// preferred. In every other case the selection stays as it was.
pub proof fn one_more_address(
    addresses: Seq<Address>,
    address: Address,
    map: Map<Seq<char>, Interface>,
)
    requires
        is_selection(addresses, map),
    ensures
        ({
            let key = match address.ip {
                IpAddr::V4(_) => address.name@,
                IpAddr::V6(_) => address.name@ + "/v6"@,
            };
            let preference = preference_of(address.name@, address.ip);
            let entered = {
                &&& address.up
                &&& !address.loopback
                &&& gatherable(address.ip)
                &&& !numbered(address.name@, "lo"@)
                &&& map.dom().contains(key) ==> map[key].preference < preference
            };
            is_selection(
                addresses.push(address),
                if entered {
                    map.insert(
                        key,
                        Interface {
                            typ: type_by_name(address.name@),
                            ip: address.ip,
                            preference: preference as u16,
                        },
                    )
                } else {
                    map
                },
            )
        }),
{
    stems_tell_types(address.name@);
    type_decides_before_family(address.name@, address.ip, address.name@, address.ip);
    let key = entry_name(address.name@, address.ip);
    if eligible(address) && (map.dom().contains(key) ==> map[key].preference < entry_of(
        address,
    ).preference) {
        address_is_entered(addresses, address, map);
    } else {
        address_is_passed_over(addresses, address, map);
    }
}

/// An address that is down, of a loopback interface, or not one to gather on
/// might as well not be there: the selection with it is the selection without
/// it.
pub proof fn ineligible_addresses_do_not_matter(
    addresses: Seq<Address>,
    address: Address,
    map: Map<Seq<char>, Interface>,
)
    requires
        is_selection(addresses, map),
        !address.up || address.loopback || !gatherable(address.ip) || numbered(
            address.name@,
            "lo"@,
        ),
    ensures
        is_selection(addresses.push(address), map),
{
    one_more_address(addresses, address, map);
}

/// Only the lowest bit and the fourth one of a record's flags are read: the
/// interface is up if the one is set, and a loopback one if the other is. Name
/// and address are the record's own.
pub proof fn two_flags_are_read(record: InterfaceRecord)
    ensures
        match record.address {
            Some(SocketAddress::Ip(ip)) => {
                &&& address_in(record) matches Some(address)
                &&& address.name == record.name
                &&& address.ip == ip
                &&& address.up <==> record.flags % 2 == 1
                &&& address.loopback <==> record.flags / 8 % 2 == 1
            },
            _ => address_in(record) is None,
        },
{
    let flags = record.flags;
    assert((flags & 0x1 != 0) <==> (flags % 2 == 1)) by (bit_vector);
    assert((flags & 0x8 != 0) <==> (flags / 8 % 2 == 1)) by (bit_vector);
}

/// Records that agree in name, address, and the flags for up and loopback hold
/// the same address, whatever their other flags are.
pub proof fn other_flags_do_not_matter(a: InterfaceRecord, b: InterfaceRecord)
    requires
        a.name == b.name,
        a.address == b.address,
        a.flags & 0x1 == b.flags & 0x1,
        a.flags & 0x8 == b.flags & 0x8,
    ensures
        address_in(a) == address_in(b),
{
}

/// Every record with an IP address adds that address at the end, and no other
/// record adds anything: the addresses are all there, once each and in order.
pub proof fn one_more_record(records: Seq<InterfaceRecord>, record: InterfaceRecord)
    ensures
        ({
            let found = |of: Seq<InterfaceRecord>|
                of.filter_map(|record: InterfaceRecord| address_in(record));
            &&& found(Seq::empty()).len() == 0
            &&& record.address matches Some(SocketAddress::Ip(ip)) ==> {
                &&& found(records.push(record)).len() == found(records).len() + 1
                &&& found(records.push(record)).drop_last() == found(records)
                &&& found(records.push(record)).last().name == record.name
                &&& found(records.push(record)).last().ip == ip
                &&& found(records.push(record)).last().up <==> record.flags % 2 == 1
                &&& found(records.push(record)).last().loopback <==> record.flags / 8 % 2 == 1
            }
            &&& !(record.address matches Some(SocketAddress::Ip(_))) ==> found(
                records.push(record),
            ) == found(records)
        }),
{
    two_flags_are_read(record);
    let keep = |record: InterfaceRecord| address_in(record);
    assert(records.push(record).drop_last() =~= records);
    if let Some(SocketAddress::Ip(_)) = record.address {
        assert(records.push(record).filter_map(keep).drop_last() =~= records.filter_map(keep));
    }
}

/// Every type has a name of its own, in the words that are logged.
pub proof fn types_are_logged_by_name(typ: NetworkInterfaceType)
    ensures
        typ == NetworkInterfaceType::Unknown ==> label_of_type(typ) == "Unknown"@,
        typ == NetworkInterfaceType::Ethernet ==> label_of_type(typ) == "Ethernet"@,
        typ == NetworkInterfaceType::Wifi ==> label_of_type(typ) == "Wifi"@,
        typ == NetworkInterfaceType::Cellular ==> label_of_type(typ) == "Cellular"@,
        typ == NetworkInterfaceType::Vpn ==> label_of_type(typ) == "Vpn"@,
        typ == NetworkInterfaceType::Loopback ==> label_of_type(typ) == "Loopback"@,
{
}

} // verus!
