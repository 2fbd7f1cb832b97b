//! What the network service makes of NetworkManager's device readings: the
//! network status, and which device a connect or disconnect request uses.

use vstd::prelude::*;
use vstd::string::StringExecFns;
use crate::ipc_types::{NetInterface, NetMode, NetStatus};
use crate::network::{connectivity_name, device_state_name, lossy_utf8, nm_connectivity_str, nm_device_state_str, ssid_to_string, trim_nul};
use crate::text::{decimal, prefixed, push_char, push_decimal, str_eq};

verus! {

/// NetworkManager's device type of a wireless device.
pub const DEVICE_TYPE_WIFI: u32 = 2;
/// NetworkManager's device type of a wired device.
pub const DEVICE_TYPE_ETHERNET: u32 = 1;

/// Errors of the network service.
#[derive(Debug, Clone)]
pub enum NetError {
    /// A D-Bus call failed; its error text.
    DBus(String),
    /// A D-Bus value had an unexpected type; its error text.
    ZVariant(String),
    Unavailable,
    NotFound(String),
    Unsupported(String),
}

/// What a network error says.
pub open spec fn net_error_text(e: NetError) -> Seq<char> {
    match e {
        NetError::DBus(m) => "D-Bus error: "@ + m@,
        NetError::ZVariant(m) => "Zvariant error: "@ + m@,
        NetError::Unavailable => "NetworkManager unavailable"@,
        NetError::NotFound(m) => "not found: "@ + m@,
        NetError::Unsupported(m) => "unsupported: "@ + m@,
    }
}

impl NetError {
    /// The error's text.
    pub fn message(&self) -> (m: String)
        ensures
            m@ == net_error_text(*self),
    {
        match self {
            NetError::DBus(m) => prefixed("D-Bus error: ", m.as_str()),
            NetError::ZVariant(m) => prefixed("Zvariant error: ", m.as_str()),
            NetError::Unavailable => String::from_str("NetworkManager unavailable"),
            NetError::NotFound(m) => prefixed("not found: ", m.as_str()),
            NetError::Unsupported(m) => prefixed("unsupported: ", m.as_str()),
        }
    }
}

// ── Addresses ────────────────────────────────────────────────────────────────

/// An IPv4 address given as a `u32` (most significant byte first), in dotted
/// decimal as `Ipv4Addr` displays it.
pub open spec fn ipv4_text(ip: u32) -> Seq<char> {
    decimal((ip / 0x100_0000) as nat) + seq!['.'] + decimal(((ip / 0x1_0000) % 256) as nat) + seq!['.']
        + decimal(((ip / 0x100) % 256) as nat) + seq!['.'] + decimal((ip % 256) as nat)
}

/// Formats an IPv4 address held in a `u32`.
pub fn format_ipv4(ip: u32) -> (s: String)
    ensures
        s@ == ipv4_text(ip),
{
    let mut s = String::new();
    push_decimal(&mut s, (ip / 0x100_0000) as u64);
    push_char(&mut s, '.');
    push_decimal(&mut s, ((ip / 0x1_0000) % 256) as u64);
    push_char(&mut s, '.');
    push_decimal(&mut s, ((ip / 0x100) % 256) as u64);
    push_char(&mut s, '.');
    push_decimal(&mut s, (ip % 256) as u64);
    s
}

// ── The status ───────────────────────────────────────────────────────────────

/// What NetworkManager reports of one device.
#[derive(Debug, Clone)]
pub struct DeviceReading {
    pub interface: String,
    pub state: u32,
    /// The IPv4 address; 0 when there is none.
    pub ip4: u32,
    pub mac: Option<String>,
    pub device_type: u32,
    /// For a wireless device whose active access point could be read, that
    /// access point's SSID bytes.
    pub active_ssid: Option<Vec<u8>>,
}

/// Wireless and wired devices are listed as interfaces.
pub open spec fn listed_device(d: DeviceReading) -> bool {
    d.device_type == DEVICE_TYPE_WIFI || d.device_type == DEVICE_TYPE_ETHERNET
}

/// `i` is the interface entry of the device read as `d`.
pub open spec fn interface_entry(d: DeviceReading, i: NetInterface) -> bool {
    &&& i.name@ == d.interface@
    &&& i.state@ == device_state_name(d.state)
    &&& (if d.ip4 == 0 { i.ip4 is None } else { i.ip4 matches Some(a) && a@ == ipv4_text(d.ip4) })
    &&& i.ip6 is None
    &&& i.mac == d.mac
}

/// `is` holds the interface entries of the listed devices of `ds`, in order.
pub open spec fn interface_entries(ds: Seq<DeviceReading>, is: Seq<NetInterface>) -> bool
    decreases ds.len(),
{
    if ds.len() == 0 {
        is.len() == 0
    } else if listed_device(ds.last()) {
        is.len() > 0 && interface_entry(ds.last(), is.last()) && interface_entries(ds.drop_last(), is.drop_last())
    } else {
        interface_entries(ds.drop_last(), is)
    }
}

/// The SSID a device is connected to: that of its active access point when
/// it is wireless and the SSID is not empty.
pub open spec fn device_ssid(d: DeviceReading) -> Option<Seq<char>> {
    if d.device_type == DEVICE_TYPE_WIFI && d.active_ssid is Some
        && trim_nul(lossy_utf8(d.active_ssid->Some_0@)).len() > 0 {
        Some(trim_nul(lossy_utf8(d.active_ssid->Some_0@)))
    } else {
        None
    }
}

/// The SSID of the last device that is connected to one.
pub open spec fn last_ssid(ds: Seq<DeviceReading>) -> Option<Seq<char>>
    decreases ds.len(),
{
    if ds.len() == 0 {
        None
    } else if device_ssid(ds.last()) is Some {
        device_ssid(ds.last())
    } else {
        last_ssid(ds.drop_last())
    }
}

/// Some device has type `t`.
pub open spec fn has_type(ds: Seq<DeviceReading>, t: u32) -> bool {
    exists|i: int| 0 <= i < ds.len() && ds[i].device_type == t
}

fn interface_of(d: &DeviceReading) -> (i: NetInterface)
    ensures
        interface_entry(*d, i),
{
    let ip4 = if d.ip4 == 0 { None } else { Some(format_ipv4(d.ip4)) };
    NetInterface {
        name: d.interface.clone(),
        state: String::from_str(nm_device_state_str(d.state)),
        ip4,
        ip6: None,
        mac: d.mac.clone(),
    }
}

/// The network status from NetworkManager's readings: its connectivity
/// (by name), whether wireless and networking are enabled, the wireless and
/// wired devices as interfaces, and the SSID of the last device connected to
/// one, in which case the mode is station mode.
pub fn build_status(connectivity: u32, wifi_enabled: bool, network_enabled: bool, devices: &Vec<DeviceReading>) -> (s: NetStatus)
    ensures
        s.connectivity@ == connectivity_name(connectivity),
        s.wifi_enabled == wifi_enabled,
        s.network_enabled == network_enabled,
        s.wifi_available == has_type(devices@, DEVICE_TYPE_WIFI),
        s.ethernet_available == has_type(devices@, DEVICE_TYPE_ETHERNET),
        interface_entries(devices@, s.interfaces@),
        match last_ssid(devices@) {
            Some(n) => s.active_ssid matches Some(a) && a@ == n && s.mode == NetMode::Station,
            None => s.active_ssid is None && s.mode == NetMode::Unknown,
        },
{
    let mut interfaces: Vec<NetInterface> = Vec::new();
    let mut active_ssid: Option<String> = None;
    let mut wifi_available = false;
    let mut ethernet_available = false;
    let mut i: usize = 0;
    while i < devices.len()
        invariant
            i <= devices.len(),
            interface_entries(devices@.subrange(0, i as int), interfaces@),
            match last_ssid(devices@.subrange(0, i as int)) {
                Some(n) => active_ssid matches Some(a) && a@ == n,
                None => active_ssid is None,
            },
            wifi_available == has_type(devices@.subrange(0, i as int), DEVICE_TYPE_WIFI),
            ethernet_available == has_type(devices@.subrange(0, i as int), DEVICE_TYPE_ETHERNET),
        decreases devices.len() - i,
    {
        let d = &devices[i];
        let ghost pre = devices@.subrange(0, i as int);
        let ghost now = devices@.subrange(0, i + 1);
        proof {
            assert(now.drop_last() == pre);
            assert(now.last() == devices@[i as int]);
        }
        let ghost before = interfaces@;
        if d.device_type == DEVICE_TYPE_WIFI || d.device_type == DEVICE_TYPE_ETHERNET {
            interfaces.push(interface_of(d));
            assert(interfaces@.drop_last() == before);
        }
        if d.device_type == DEVICE_TYPE_WIFI {
            match &d.active_ssid {
                Some(bytes) => {
                    let ssid = ssid_to_string(bytes.clone());
                    if !ssid.as_str().is_empty() {
                        active_ssid = Some(ssid);
                    }
                },
                None => {},
            }
        }
        proof {
            assert(has_type(now, DEVICE_TYPE_WIFI) == (has_type(pre, DEVICE_TYPE_WIFI) || now.last().device_type == DEVICE_TYPE_WIFI)) by {
                if has_type(pre, DEVICE_TYPE_WIFI) {
                    let k = choose|k: int| 0 <= k < pre.len() && pre[k].device_type == DEVICE_TYPE_WIFI;
                    assert(now[k] == pre[k]);
                }
                if has_type(now, DEVICE_TYPE_WIFI) && now.last().device_type != DEVICE_TYPE_WIFI {
                    let k = choose|k: int| 0 <= k < now.len() && now[k].device_type == DEVICE_TYPE_WIFI;
                    assert(pre[k] == now[k]);
                }
            }
            assert(has_type(now, DEVICE_TYPE_ETHERNET) == (has_type(pre, DEVICE_TYPE_ETHERNET) || now.last().device_type == DEVICE_TYPE_ETHERNET)) by {
                if has_type(pre, DEVICE_TYPE_ETHERNET) {
                    let k = choose|k: int| 0 <= k < pre.len() && pre[k].device_type == DEVICE_TYPE_ETHERNET;
                    assert(now[k] == pre[k]);
                }
                if has_type(now, DEVICE_TYPE_ETHERNET) && now.last().device_type != DEVICE_TYPE_ETHERNET {
                    let k = choose|k: int| 0 <= k < now.len() && now[k].device_type == DEVICE_TYPE_ETHERNET;
                    assert(pre[k] == now[k]);
                }
            }
        }
        wifi_available = wifi_available || d.device_type == DEVICE_TYPE_WIFI;
        ethernet_available = ethernet_available || d.device_type == DEVICE_TYPE_ETHERNET;
        i = i + 1;
    }
    assert(devices@.subrange(0, devices@.len() as int) == devices@);
    let mode = if active_ssid.is_some() { NetMode::Station } else { NetMode::Unknown };
    NetStatus {
        connectivity: String::from_str(nm_connectivity_str(connectivity)),
        wifi_enabled,
        network_enabled,
        wifi_available,
        ethernet_available,
        mode,
        active_ssid,
        interfaces,
    }
}

// ── Choosing a device ────────────────────────────────────────────────────────

/// What a device search reads of one device, each `None` when the read
/// failed: its type, its interface name, and its active connection's path.
#[derive(Debug, Clone)]
pub struct DeviceProbe {
    pub device_type: Option<u32>,
    pub interface: Option<String>,
    pub active_connection: Option<String>,
}

/// A device's active connection is `/` when it has none.
pub open spec fn has_connection(path: Seq<char>) -> bool {
    path != "/"@
}

/// The first wireless device from `i` on; a device whose type cannot be read
/// ends the search with nothing.
pub open spec fn wifi_from(ps: Seq<DeviceProbe>, i: int) -> Option<int>
    decreases ps.len() - i,
{
    if i < 0 || i >= ps.len() {
        None
    } else {
        match ps[i].device_type {
            None => None,
            Some(t) => if t == DEVICE_TYPE_WIFI { Some(i) } else { wifi_from(ps, i + 1) },
        }
    }
}

/// The first wired device named `name` from `i` on; a failed read of the
/// type, or of the name of a wired device, ends the search with nothing.
pub open spec fn ethernet_named_from(ps: Seq<DeviceProbe>, name: Seq<char>, i: int) -> Option<int>
    decreases ps.len() - i,
{
    if i < 0 || i >= ps.len() {
        None
    } else {
        match ps[i].device_type {
            None => None,
            Some(t) => if t != DEVICE_TYPE_ETHERNET {
                ethernet_named_from(ps, name, i + 1)
            } else {
                match ps[i].interface {
                    None => None,
                    Some(n) => if n@ == name { Some(i) } else { ethernet_named_from(ps, name, i + 1) },
                }
            },
        }
    }
}

/// The first wired device from `i` on, with its name; failed reads end the
/// search with nothing.
pub open spec fn ethernet_from(ps: Seq<DeviceProbe>, i: int) -> Option<int>
    decreases ps.len() - i,
{
    if i < 0 || i >= ps.len() {
        None
    } else {
        match ps[i].device_type {
            None => None,
            Some(t) => if t != DEVICE_TYPE_ETHERNET {
                ethernet_from(ps, i + 1)
            } else {
                match ps[i].interface {
                    None => None,
                    Some(_) => Some(i),
                }
            },
        }
    }
}

/// The first wired device from `i` on that has an active connection, with
/// its name; failed reads end the search with nothing.
pub open spec fn active_ethernet_from(ps: Seq<DeviceProbe>, i: int) -> Option<int>
    decreases ps.len() - i,
{
    if i < 0 || i >= ps.len() {
        None
    } else {
        match ps[i].device_type {
            None => None,
            Some(t) => if t != DEVICE_TYPE_ETHERNET {
                active_ethernet_from(ps, i + 1)
            } else {
                match ps[i].active_connection {
                    None => None,
                    Some(a) => if has_connection(a@) {
                        match ps[i].interface {
                            None => None,
                            Some(_) => Some(i),
                        }
                    } else {
                        active_ethernet_from(ps, i + 1)
                    },
                }
            },
        }
    }
}

/// The first wireless device from `i` on that has an active connection;
/// failed reads end the search with nothing.
pub open spec fn active_wifi_from(ps: Seq<DeviceProbe>, i: int) -> Option<int>
    decreases ps.len() - i,
{
    if i < 0 || i >= ps.len() {
        None
    } else {
        match ps[i].device_type {
            None => None,
            Some(t) => if t != DEVICE_TYPE_WIFI {
                active_wifi_from(ps, i + 1)
            } else {
                match ps[i].active_connection {
                    None => None,
                    Some(a) => if has_connection(a@) { Some(i) } else { active_wifi_from(ps, i + 1) },
                }
            },
        }
    }
}

/// The first wireless device.
pub fn find_wifi_device(probes: &Vec<DeviceProbe>) -> (r: Option<usize>)
    ensures
        match r {
            Some(i) => wifi_from(probes@, 0) == Some(i as int),
            None => wifi_from(probes@, 0) is None,
        },
{
    let mut i: usize = 0;
    while i < probes.len()
        invariant
            i <= probes.len(),
            wifi_from(probes@, 0) == wifi_from(probes@, i as int),
        decreases probes.len() - i,
    {
        match probes[i].device_type {
            None => {
                return None;
            },
            Some(t) => if t == DEVICE_TYPE_WIFI {
                return Some(i);
            },
        }
        i = i + 1;
    }
    None
}

/// The first wired device named `name`.
pub fn find_ethernet_device(probes: &Vec<DeviceProbe>, name: &str) -> (r: Option<usize>)
    ensures
        match r {
            Some(i) => ethernet_named_from(probes@, name@, 0) == Some(i as int),
            None => ethernet_named_from(probes@, name@, 0) is None,
        },
{
    let mut i: usize = 0;
    while i < probes.len()
        invariant
            i <= probes.len(),
            ethernet_named_from(probes@, name@, 0) == ethernet_named_from(probes@, name@, i as int),
        decreases probes.len() - i,
    {
        match probes[i].device_type {
            None => {
                return None;
            },
            Some(t) => if t == DEVICE_TYPE_ETHERNET {
                match &probes[i].interface {
                    None => {
                        return None;
                    },
                    Some(n) => if str_eq(n.as_str(), name) {
                        return Some(i);
                    },
                }
            },
        }
        i = i + 1;
    }
    None
}

/// The first wired device, with its name.
pub fn find_first_ethernet_device(probes: &Vec<DeviceProbe>) -> (r: Option<(usize, String)>)
    ensures
        match r {
            Some((i, n)) => ethernet_from(probes@, 0) == Some(i as int) && probes@[i as int].interface == Some(n),
            None => ethernet_from(probes@, 0) is None,
        },
{
    let mut i: usize = 0;
    while i < probes.len()
        invariant
            i <= probes.len(),
            ethernet_from(probes@, 0) == ethernet_from(probes@, i as int),
        decreases probes.len() - i,
    {
        match probes[i].device_type {
            None => {
                return None;
            },
            Some(t) => if t == DEVICE_TYPE_ETHERNET {
                match &probes[i].interface {
                    None => {
                        return None;
                    },
                    Some(n) => {
                        return Some((i, n.clone()));
                    },
                }
            },
        }
        i = i + 1;
    }
    None
}

/// The first wired device with an active connection, with its name.
pub fn find_active_ethernet_device(probes: &Vec<DeviceProbe>) -> (r: Option<(usize, String)>)
    ensures
        match r {
            Some((i, n)) => active_ethernet_from(probes@, 0) == Some(i as int) && probes@[i as int].interface == Some(n),
            None => active_ethernet_from(probes@, 0) is None,
        },
{
    let mut i: usize = 0;
    while i < probes.len()
        invariant
            i <= probes.len(),
            active_ethernet_from(probes@, 0) == active_ethernet_from(probes@, i as int),
        decreases probes.len() - i,
    {
        match probes[i].device_type {
            None => {
                return None;
            },
            Some(t) => if t == DEVICE_TYPE_ETHERNET {
                match &probes[i].active_connection {
                    None => {
                        return None;
                    },
                    Some(a) => if !str_eq(a.as_str(), "/") {
                        match &probes[i].interface {
                            None => {
                                return None;
                            },
                            Some(n) => {
                                return Some((i, n.clone()));
                            },
                        }
                    },
                }
            },
        }
        i = i + 1;
    }
    None
}

/// The first wireless device with an active connection.
pub fn find_active_wifi_device(probes: &Vec<DeviceProbe>) -> (r: Option<usize>)
    ensures
        match r {
            Some(i) => active_wifi_from(probes@, 0) == Some(i as int),
            None => active_wifi_from(probes@, 0) is None,
        },
{
    let mut i: usize = 0;
    while i < probes.len()
        invariant
            i <= probes.len(),
            active_wifi_from(probes@, 0) == active_wifi_from(probes@, i as int),
        decreases probes.len() - i,
    {
        match probes[i].device_type {
            None => {
                return None;
            },
            Some(t) => if t == DEVICE_TYPE_WIFI {
                match &probes[i].active_connection {
                    None => {
                        return None;
                    },
                    Some(a) => if !str_eq(a.as_str(), "/") {
                        return Some(i);
                    },
                }
            },
        }
        i = i + 1;
    }
    None
}

/// The first access point from `i` on whose SSID (decoded) is `ssid`; an
/// access point that cannot be read (`None`) ends the search with nothing.
pub open spec fn ap_with_ssid_from(aps: Seq<Option<Vec<u8>>>, ssid: Seq<char>, i: int) -> Option<int>
    decreases aps.len() - i,
{
    if i < 0 || i >= aps.len() {
        None
    } else {
        match aps[i] {
            None => None,
            Some(b) => if trim_nul(lossy_utf8(b@)) == ssid { Some(i) } else { ap_with_ssid_from(aps, ssid, i + 1) },
        }
    }
}

/// The first access point advertising `ssid`.
pub fn find_wifi_ap(aps: &Vec<Option<Vec<u8>>>, ssid: &str) -> (r: Option<usize>)
    ensures
        match r {
            Some(i) => ap_with_ssid_from(aps@, ssid@, 0) == Some(i as int),
            None => ap_with_ssid_from(aps@, ssid@, 0) is None,
        },
{
    let mut i: usize = 0;
    while i < aps.len()
        invariant
            i <= aps.len(),
            ap_with_ssid_from(aps@, ssid@, 0) == ap_with_ssid_from(aps@, ssid@, i as int),
        decreases aps.len() - i,
    {
        match &aps[i] {
            None => {
                return None;
            },
            Some(b) => {
                let name = ssid_to_string(b.clone());
                if str_eq(name.as_str(), ssid) {
                    return Some(i);
                }
            },
        }
        i = i + 1;
    }
    None
}

// ── Requests that need a device ──────────────────────────────────────────────

fn not_found(what: &str) -> (e: NetError)
    ensures
        e matches NetError::NotFound(m) && m@ == what@,
{
    NetError::NotFound(String::from_str(what))
}

fn quoted(before: &str, name: &str) -> (e: NetError)
    ensures
        e matches NetError::NotFound(m) && m@ == before@ + name@ + "'"@,
{
    let mut m = prefixed(before, name);
    m.append("'");
    NetError::NotFound(m)
}

/// The wired device a connect request uses, with its interface name: the one
/// named, or else the first wired device. Fails with `not found` naming what
/// is missing.
pub fn ethernet_for_connect(probes: &Vec<DeviceProbe>, interface: Option<&str>) -> (r: Result<(usize, String), NetError>)
    ensures
        match interface {
            Some(name) => match ethernet_named_from(probes@, name@, 0) {
                Some(i) => r matches Ok((j, n)) && j == i && n@ == name@,
                None => r matches Err(NetError::NotFound(m)) && m@ == "ethernet interface '"@ + name@ + "'"@,
            },
            None => match ethernet_from(probes@, 0) {
                Some(i) => r matches Ok((j, n)) && j == i && probes@[i].interface == Some(n),
                None => r matches Err(NetError::NotFound(m)) && m@ == "ethernet device"@,
            },
        },
{
    match interface {
        Some(name) => match find_ethernet_device(probes, name) {
            Some(i) => Ok((i, String::from_str(name))),
            None => Err(quoted("ethernet interface '", name)),
        },
        None => match find_first_ethernet_device(probes) {
            Some(found) => Ok(found),
            None => Err(not_found("ethernet device")),
        },
    }
}

/// The wired device a disconnect request uses, with its interface name: the
/// one named, or else the first one with an active connection.
pub fn ethernet_for_disconnect(probes: &Vec<DeviceProbe>, interface: Option<&str>) -> (r: Result<(usize, String), NetError>)
    ensures
        match interface {
            Some(name) => match ethernet_named_from(probes@, name@, 0) {
                Some(i) => r matches Ok((j, n)) && j == i && n@ == name@,
                None => r matches Err(NetError::NotFound(m)) && m@ == "ethernet interface '"@ + name@ + "'"@,
            },
            None => match active_ethernet_from(probes@, 0) {
                Some(i) => r matches Ok((j, n)) && j == i && probes@[i].interface == Some(n),
                None => r matches Err(NetError::NotFound(m)) && m@ == "active ethernet device"@,
            },
        },
{
    match interface {
        Some(name) => match find_ethernet_device(probes, name) {
            Some(i) => Ok((i, String::from_str(name))),
            None => Err(quoted("ethernet interface '", name)),
        },
        None => match find_active_ethernet_device(probes) {
            Some(found) => Ok(found),
            None => Err(not_found("active ethernet device")),
        },
    }
}

/// Whether a device's active connection can be deactivated: it fails with
/// `no active connection for '<iface>'` when the path is `/`.
pub fn ethernet_deactivation(active: &str, iface: &str) -> (r: Result<(), NetError>)
    ensures
        has_connection(active@) ==> r is Ok,
        !has_connection(active@) ==> (r matches Err(NetError::NotFound(m)) && m@ == "no active connection for '"@ + iface@ + "'"@),
{
    if str_eq(active, "/") {
        Err(quoted("no active connection for '", iface))
    } else {
        Ok(())
    }
}

/// The wireless device a connect request uses: the first one; fails with
/// `wifi device` when there is none.
pub fn wifi_for_connect(probes: &Vec<DeviceProbe>) -> (r: Result<usize, NetError>)
    ensures
        match wifi_from(probes@, 0) {
            Some(i) => r == Ok::<usize, NetError>(i as usize),
            None => r matches Err(NetError::NotFound(m)) && m@ == "wifi device"@,
        },
{
    match find_wifi_device(probes) {
        Some(i) => Ok(i),
        None => Err(not_found("wifi device")),
    }
}

/// The access point a connect request uses: the first advertising `ssid`;
/// fails with `ssid '<ssid>'` when there is none.
pub fn access_point_for(aps: &Vec<Option<Vec<u8>>>, ssid: &str) -> (r: Result<usize, NetError>)
    ensures
        match ap_with_ssid_from(aps@, ssid@, 0) {
            Some(i) => r == Ok::<usize, NetError>(i as usize),
            None => r matches Err(NetError::NotFound(m)) && m@ == "ssid '"@ + ssid@ + "'"@,
        },
{
    match find_wifi_ap(aps, ssid) {
        Some(i) => Ok(i),
        None => Err(quoted("ssid '", ssid)),
    }
}

/// The wireless device a disconnect request uses: the first with an active
/// connection; fails with `active wifi connection` when there is none.
pub fn wifi_for_disconnect(probes: &Vec<DeviceProbe>) -> (r: Result<usize, NetError>)
    ensures
        match active_wifi_from(probes@, 0) {
            Some(i) => r == Ok::<usize, NetError>(i as usize),
            None => r matches Err(NetError::NotFound(m)) && m@ == "active wifi connection"@,
        },
{
    match find_active_wifi_device(probes) {
        Some(i) => Ok(i),
        None => Err(not_found("active wifi connection")),
    }
}

/// Whether the wireless device's active connection (read again just before)
/// can be deactivated: it fails with `active wifi connection` when the path
/// is `/`.
pub fn wifi_deactivation(active: &str) -> (r: Result<(), NetError>)
    ensures
        has_connection(active@) ==> r is Ok,
        !has_connection(active@) ==> (r matches Err(NetError::NotFound(m)) && m@ == "active wifi connection"@),
{
    if str_eq(active, "/") {
        Err(not_found("active wifi connection"))
    } else {
        Ok(())
    }
}

} // verus!
