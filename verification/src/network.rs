//! NetworkManager-facing logic: state names, event diffing between status
//! snapshots, access-point merging, and connection settings.

use vstd::prelude::*;
use crate::events::NetEvent;
use crate::ipc_types::{NetStatus, WifiNetwork};
use crate::text::{chars_of, push_chars};
use vstd::utf8::{decode_utf8, valid_utf8};
use vstd::multiset::Multiset;
use vstd::string::{StringExecFns, StringSliceAdditionalSpecFns};

verus! {

/// Number NetworkManager uses for a Wi-Fi device.
pub const NM_DEVICE_TYPE_WIFI: u32 = 2;

/// Number NetworkManager uses for an Ethernet device.
pub const NM_DEVICE_TYPE_ETHERNET: u32 = 1;

/// The name NetworkManager gives to a connectivity state number.
pub open spec fn connectivity_name(state: u32) -> Seq<char> {
    if state == 4 {
        "full"@
    } else if state == 3 {
        "limited"@
    } else if state == 2 {
        "portal"@
    } else if state == 1 {
        "none"@
    } else {
        "unknown"@
    }
}

/// Map NM connectivity integer to a human-readable string.
/// 0=unknown, 1=none, 2=portal, 3=limited, 4=full
pub fn nm_connectivity_str(state: u32) -> (res: &'static str)
    ensures
        res@ == connectivity_name(state),
{
    match state {
        4 => "full",
        3 => "limited",
        2 => "portal",
        1 => "none",
        _ => "unknown",
    }
}

/// The name of a device state number; 50 and 40 both read `prepare`.
pub open spec fn device_state_name(state: u32) -> Seq<char> {
    if state == 100 {
        "activated"@
    } else if state == 90 {
        "secondaries"@
    } else if state == 80 {
        "ip-check"@
    } else if state == 70 {
        "ip-config"@
    } else if state == 60 {
        "need-auth"@
    } else if state == 50 || state == 40 {
        "prepare"@
    } else if state == 30 {
        "disconnected"@
    } else if state == 20 {
        "unavailable"@
    } else if state == 10 {
        "unmanaged"@
    } else {
        "unknown"@
    }
}

/// Map NM device state integer to string.
/// 100=activated, 70=ip-config, 50=prepare, 30=disconnected, 20=unavailable
pub fn nm_device_state_str(state: u32) -> (res: &'static str)
    ensures
        res@ == device_state_name(state),
{
    match state {
        100 => "activated",
        90 => "secondaries",
        80 => "ip-check",
        70 => "ip-config",
        60 => "need-auth",
        50 => "prepare",
        40 => "prepare",
        30 => "disconnected",
        20 => "unavailable",
        10 => "unmanaged",
        _ => "unknown",
    }
}

// ── Status snapshots and their events ────────────────────────────────────────

/// One reading of the network status.
#[derive(Clone)]
pub struct NetworkSnapshot {
    pub status: NetStatus,
}

/// The last status the network domain has seen.
pub struct NetworkState {
    pub last: Option<NetworkSnapshot>,
}

/// The event that reports whether Wi-Fi is on.
pub open spec fn wifi_event(enabled: bool) -> NetEvent {
    if enabled {
        NetEvent::WifiEnabled
    } else {
        NetEvent::WifiDisabled
    }
}

/// The events that tell subscribers how `status` differs from the previous
/// status (all of them when there was none), then that the device is
/// connected when it has an active SSID and an interface.
pub open spec fn status_events(last: Option<NetStatus>, status: NetStatus) -> Seq<NetEvent> {
    let head = match last {
        Some(prev) => {
            let a = if prev.connectivity@ != status.connectivity@ {
                seq![NetEvent::ConnectivityChanged { state: status.connectivity }]
            } else {
                Seq::<NetEvent>::empty()
            };
            let b = if prev.wifi_enabled != status.wifi_enabled {
                seq![wifi_event(status.wifi_enabled)]
            } else {
                Seq::<NetEvent>::empty()
            };
            let c = if prev.mode != status.mode {
                seq![NetEvent::ModeChanged { mode: status.mode }]
            } else {
                Seq::<NetEvent>::empty()
            };
            a + b + c
        },
        None => seq![
            NetEvent::ConnectivityChanged { state: status.connectivity },
            wifi_event(status.wifi_enabled),
            NetEvent::ModeChanged { mode: status.mode },
        ],
    };
    let tail = match status.active_ssid {
        Some(ssid) => if status.interfaces@.len() > 0 {
            seq![NetEvent::Connected { ssid: Some(ssid), iface: status.interfaces@[0].name }]
        } else {
            Seq::<NetEvent>::empty()
        },
        None => Seq::<NetEvent>::empty(),
    };
    head + tail
}

impl NetworkState {
    /// The state before any status was seen.
    pub fn new() -> (r: Self)
        ensures
            r.last is None,
    {
        Self { last: None }
    }

    /// Remembers `snapshot` as the last status seen.
    pub fn set_snapshot(&mut self, snapshot: NetworkSnapshot)
        ensures
            final(self).last == Some(snapshot),
    {
        self.last = Some(snapshot);
    }

    /// The events that announce `snapshot` relative to the last status seen.
    pub fn diff_events(&self, snapshot: &NetworkSnapshot) -> (events: Vec<NetEvent>)
        ensures
            events@ == status_events(
                match self.last {
                    Some(s) => Some(s.status),
                    None => None,
                },
                snapshot.status,
            ),
    {
        let mut events: Vec<NetEvent> = Vec::new();
        let status = &snapshot.status;
        match &self.last {
            Some(prev) => {
                let prev_status = &prev.status;
                if prev_status.connectivity != status.connectivity {
                    events.push(NetEvent::ConnectivityChanged { state: status.connectivity.clone() });
                }
                if prev_status.wifi_enabled != status.wifi_enabled {
                    events.push(
                        if status.wifi_enabled {
                            NetEvent::WifiEnabled
                        } else {
                            NetEvent::WifiDisabled
                        },
                    );
                }
                if prev_status.mode != status.mode {
                    events.push(NetEvent::ModeChanged { mode: status.mode });
                }
            },
            None => {
                events.push(NetEvent::ConnectivityChanged { state: status.connectivity.clone() });
                events.push(
                    if status.wifi_enabled {
                        NetEvent::WifiEnabled
                    } else {
                        NetEvent::WifiDisabled
                    },
                );
                events.push(NetEvent::ModeChanged { mode: status.mode });
            },
        }
        match &status.active_ssid {
            Some(ssid) => {
                if status.interfaces.len() > 0 {
                    events.push(
                        NetEvent::Connected {
                            ssid: Some(ssid.clone()),
                            iface: status.interfaces[0].name.clone(),
                        },
                    );
                }
            },
            None => {},
        }
        events
    }
}


// ── SSIDs ────────────────────────────────────────────────────────────────────

/// What `String::from_utf8_lossy` makes of `bytes`: each invalid sequence
/// becomes U+FFFD.
pub uninterp spec fn lossy_utf8(bytes: Seq<u8>) -> Seq<char>;

/// `String::from_utf8_lossy`: decodes `bytes`, replacing invalid sequences;
/// valid UTF-8 decodes exactly.
#[verifier::external_body]
pub(crate) fn utf8_lossy(bytes: &[u8]) -> (s: String)
    ensures
        s@ == lossy_utf8(bytes@),
        valid_utf8(bytes@) ==> s@ == decode_utf8(bytes@),
{
    String::from_utf8_lossy(bytes).into_owned()
}

/// `s` without NUL characters at either end.
pub open spec fn trim_nul(s: Seq<char>) -> Seq<char>
    decreases s.len(),
{
    if s.len() > 0 && s[0] == '\0' {
        trim_nul(s.drop_first())
    } else if s.len() > 0 && s.last() == '\0' {
        trim_nul(s.drop_last())
    } else {
        s
    }
}

proof fn lemma_trim_nul_range(s: Seq<char>, lo: int, hi: int)
    requires
        0 <= lo <= hi <= s.len(),
        forall|k: int| 0 <= k < lo ==> #[trigger] s[k] == '\0',
        forall|k: int| hi <= k < s.len() ==> #[trigger] s[k] == '\0',
        lo < hi ==> s[lo] != '\0' && s[hi - 1] != '\0',
        lo == hi ==> hi == s.len(),
    ensures
        trim_nul(s) == s.subrange(lo, hi),
    decreases s.len(),
{
    if s.len() > 0 && s[0] == '\0' {
        let t = s.drop_first();
        assert forall|k: int| 0 <= k < lo - 1 implies #[trigger] t[k] == '\0' by {
            assert(t[k] == s[k + 1]);
        }
        assert forall|k: int| hi - 1 <= k < t.len() implies #[trigger] t[k] == '\0' by {
            assert(t[k] == s[k + 1]);
        }
        if lo < hi {
            assert(t[lo - 1] == s[lo]);
            assert(t[hi - 2] == s[hi - 1]);
        }
        lemma_trim_nul_range(t, lo - 1, hi - 1);
        assert(t.subrange(lo - 1, hi - 1) == s.subrange(lo, hi));
    } else if s.len() > 0 && s.last() == '\0' {
        let t = s.drop_last();
        assert forall|k: int| hi <= k < t.len() implies #[trigger] t[k] == '\0' by {
            assert(t[k] == s[k]);
        }
        if lo < hi {
            assert(t[lo] == s[lo]);
            assert(t[hi - 1] == s[hi - 1]);
            lemma_trim_nul_range(t, lo, hi);
            assert(t.subrange(lo, hi) == s.subrange(lo, hi));
        } else {
            assert(lo == 0);
            lemma_trim_nul_range(t, t.len() as int, t.len() as int);
            assert(s.subrange(lo, hi) == Seq::<char>::empty());
            assert(t.subrange(t.len() as int, t.len() as int) == Seq::<char>::empty());
        }
    } else {
        if lo < hi {
            assert(lo == 0 && hi == s.len());
        } else {
            assert(s.len() == 0);
        }
        assert(s.subrange(lo, hi) == s);
    }
}

/// The SSID an access point advertises, as text: the bytes decoded
/// (invalid UTF-8 replaced) with NUL padding trimmed from both ends.
pub fn ssid_to_string(bytes: Vec<u8>) -> (s: String)
    ensures
        s@ == trim_nul(lossy_utf8(bytes@)),
{
    let decoded = utf8_lossy(bytes.as_slice());
    let v = chars_of(decoded.as_str());
    let n = v.len();
    let mut lo: usize = 0;
    while lo < n && v[lo] == '\0'
        invariant
            lo <= n == v@.len(),
            forall|k: int| 0 <= k < lo ==> #[trigger] v@[k] == '\0',
        decreases n - lo,
    {
        lo = lo + 1;
    }
    let mut hi: usize = n;
    while hi > lo && v[hi - 1] == '\0'
        invariant
            lo <= hi <= n == v@.len(),
            forall|k: int| hi <= k < n ==> #[trigger] v@[k] == '\0',
        decreases hi - lo,
    {
        hi = hi - 1;
    }
    proof {
        if lo == hi && hi < n {
            assert(false);
        }
        lemma_trim_nul_range(v@, lo as int, hi as int);
    }
    let mut out = String::new();
    push_chars(&mut out, &v, lo, hi);
    out
}

// ── Access points ────────────────────────────────────────────────────────────

/// Whether a newly seen access point `entry` takes the place of `existing`,
/// which advertises the same SSID: a connected one wins over one that is not,
/// and between two of the same kind the stronger signal wins (a connected
/// entry only on a strictly stronger signal).
pub open spec fn replaces(existing: WifiNetwork, entry: WifiNetwork) -> bool {
    if existing.connected {
        entry.connected && entry.signal > existing.signal
    } else if entry.connected {
        true
    } else {
        existing.signal < entry.signal
    }
}

/// The position of the network named `ssid` in `list`, or `-1`.
pub open spec fn ssid_index(list: Seq<WifiNetwork>, ssid: Seq<char>) -> int
    decreases list.len(),
{
    if list.len() == 0 {
        -1
    } else if list[0].ssid@ == ssid {
        0
    } else {
        let r = ssid_index(list.drop_first(), ssid);
        if r < 0 {
            -1
        } else {
            r + 1
        }
    }
}

/// `list` after seeing `entry`: a new SSID is appended; a known one is
/// replaced when `entry` wins over it.
pub open spec fn insert_network(list: Seq<WifiNetwork>, entry: WifiNetwork) -> Seq<WifiNetwork> {
    let i = ssid_index(list, entry.ssid@);
    if i < 0 {
        list.push(entry)
    } else if replaces(list[i], entry) {
        list.update(i, entry)
    } else {
        list
    }
}

/// One network per SSID, chosen from the access points in the order seen.
pub open spec fn merge_networks(aps: Seq<WifiNetwork>) -> Seq<WifiNetwork>
    decreases aps.len(),
{
    if aps.len() == 0 {
        Seq::<WifiNetwork>::empty()
    } else {
        insert_network(merge_networks(aps.drop_last()), aps.last())
    }
}

/// Signals do not increase along `list`.
pub open spec fn by_signal_desc(list: Seq<WifiNetwork>) -> bool {
    forall|i: int, j: int| 0 <= i < j < list.len() ==> list[i].signal >= list[j].signal
}

proof fn lemma_ssid_index(list: Seq<WifiNetwork>, ssid: Seq<char>, r: int)
    requires
        -1 <= r < list.len(),
        r >= 0 ==> list[r].ssid@ == ssid,
        forall|k: int| 0 <= k < list.len() && (r < 0 || k < r) ==> #[trigger] list[k].ssid@ != ssid,
    ensures
        ssid_index(list, ssid) == r,
    decreases list.len(),
{
    if list.len() > 0 && r != 0 {
        let t = list.drop_first();
        assert forall|k: int| 0 <= k < t.len() && (r - 1 < 0 || k < r - 1) implies #[trigger] t[k].ssid@
            != ssid by {
            assert(t[k] == list[k + 1]);
        }
        if r > 0 {
            assert(t[r - 1] == list[r]);
            lemma_ssid_index(t, ssid, r - 1);
        } else {
            lemma_ssid_index(t, ssid, -1);
        }
        assert(list[0].ssid@ != ssid);
    }
}

/// The networks the access points show, one per SSID (see `insert_network`
/// for which access point stands for an SSID), strongest signal first.
pub fn select_networks(aps: Vec<WifiNetwork>) -> (r: Vec<WifiNetwork>)
    ensures
        by_signal_desc(r@),
        r@.to_multiset() == merge_networks(aps@).to_multiset(),
{
    let ghost orig = aps@;
    let mut rest = aps;
    let n = rest.len();
    let mut list: Vec<WifiNetwork> = Vec::new();
    let mut i: usize = 0;
    proof {
        assert(orig.subrange(0, 0) == Seq::<WifiNetwork>::empty());
        assert(orig.subrange(0, orig.len() as int) == orig);
    }
    while rest.len() > 0
        invariant
            i <= orig.len() == n,
            rest@.len() + i == orig.len(),
            rest@ == orig.subrange(i as int, orig.len() as int),
            list@ == merge_networks(orig.subrange(0, i as int)),
        decreases rest.len(),
    {
        let entry = rest.remove(0);
        proof {
            assert(entry == orig[i as int]);
            assert(orig.subrange(0, i + 1).drop_last() == orig.subrange(0, i as int));
            assert(orig.subrange(0, i + 1).last() == entry);
            assert(rest@ == orig.subrange(i + 1, orig.len() as int));
        }
        let mut k: usize = 0;
        let mut found = false;
        while k < list.len() && !found
            invariant
                k <= list@.len(),
                found ==> k < list@.len() && list@[k as int].ssid@ == entry.ssid@,
                forall|q: int| 0 <= q < list@.len() && q < k && !(found && q == k) ==> #[trigger] list@[q].ssid@ != entry.ssid@,
            decreases list.len() - k + (if found { 0int } else { 1int }),
        {
            if list[k].ssid == entry.ssid {
                found = true;
            } else {
                k = k + 1;
            }
        }
        if found {
            proof {
                lemma_ssid_index(list@, entry.ssid@, k as int);
            }
            let existing = &list[k];
            let wins = if existing.connected {
                entry.connected && entry.signal > existing.signal
            } else if entry.connected {
                true
            } else {
                existing.signal < entry.signal
            };
            if wins {
                list.set(k, entry);
            }
        } else {
            proof {
                lemma_ssid_index(list@, entry.ssid@, -1);
            }
            list.push(entry);
        }
        i = i + 1;
    }
    // Order the networks by signal, strongest first.
    let ghost merged = list@;
    proof {
        assert(i == orig.len());
        assert(merged == merge_networks(aps@));
        vstd::seq_lib::to_multiset_len(Seq::<WifiNetwork>::empty());
        vstd::multiset::lemma_multiset_empty_len(Seq::<WifiNetwork>::empty().to_multiset());
        assert(Seq::<WifiNetwork>::empty().to_multiset() =~= Multiset::<WifiNetwork>::empty());
    }
    let mut sorted: Vec<WifiNetwork> = Vec::new();
    let mut pending = list;
    proof {
        assert(sorted@ == Seq::<WifiNetwork>::empty());
        assert(sorted@.to_multiset().add(pending@.to_multiset()) =~= merged.to_multiset());
    }
    while pending.len() > 0
        invariant
            by_signal_desc(sorted@),
            sorted@.to_multiset().add(pending@.to_multiset()) == merged.to_multiset(),
            merged == merge_networks(aps@),
        decreases pending.len(),
    {
        let ghost before = pending@;
        let entry = pending.pop().unwrap();
        proof {
            assert(before == pending@.push(entry));
        }
        let mut p: usize = 0;
        while p < sorted.len() && sorted[p].signal >= entry.signal
            invariant
                p <= sorted@.len(),
                forall|q: int| 0 <= q < p ==> #[trigger] sorted@[q].signal >= entry.signal,
            decreases sorted.len() - p,
        {
            p = p + 1;
        }
        let ghost old_sorted = sorted@;
        sorted.insert(p, entry);
        proof {
            assert(sorted@ == old_sorted.insert(p as int, entry));
            assert forall|a: int, b: int| 0 <= a < b < sorted@.len() implies sorted@[a].signal
                >= sorted@[b].signal by {
                if b < p {
                    assert(sorted@[a] == old_sorted[a] && sorted@[b] == old_sorted[b]);
                } else if b == p {
                    assert(sorted@[a] == old_sorted[a]);
                } else if a > p {
                    assert(sorted@[a] == old_sorted[a - 1] && sorted@[b] == old_sorted[b - 1]);
                } else if a == p {
                    assert(old_sorted[p as int].signal < entry.signal);
                    assert(sorted@[b] == old_sorted[b - 1]);
                } else {
                    assert(sorted@[a] == old_sorted[a]);
                    assert(sorted@[b] == old_sorted[b - 1]);
                    assert(old_sorted[p as int].signal < entry.signal);
                }
            }
            vstd::seq_lib::to_multiset_insert(old_sorted, p as int, entry);
            vstd::seq_lib::to_multiset_build(pending@, entry);
            assert(sorted@.to_multiset() == old_sorted.to_multiset().insert(entry));
            assert(before.to_multiset() == pending@.to_multiset().insert(entry));
            assert(sorted@.to_multiset().add(pending@.to_multiset()) =~= old_sorted.to_multiset().add(
                before.to_multiset(),
            ));
        }
    }
    proof {
        assert(pending@ == Seq::<WifiNetwork>::empty());
        vstd::seq_lib::to_multiset_len(pending@);
        vstd::multiset::lemma_multiset_empty_len(pending@.to_multiset());
        assert(pending@.to_multiset() =~= Multiset::<WifiNetwork>::empty());
        assert(sorted@.to_multiset() =~= sorted@.to_multiset().add(pending@.to_multiset()));
    }
    sorted
}


// ── Connection settings ──────────────────────────────────────────────────────

/// One setting value of a NetworkManager connection.
#[derive(Debug, Clone, PartialEq, Eq)]
pub enum SettingValue {
    Text(String),
    Flag(bool),
    Bytes(Vec<u8>),
}

/// What a setting value holds.
pub enum SettingView {
    Text(Seq<char>),
    Flag(bool),
    Bytes(Seq<u8>),
}

impl View for SettingValue {
    type V = SettingView;

    open spec fn view(&self) -> SettingView {
        match self {
            SettingValue::Text(s) => SettingView::Text(s@),
            SettingValue::Flag(b) => SettingView::Flag(*b),
            SettingValue::Bytes(v) => SettingView::Bytes(v@),
        }
    }
}

/// One named group of settings, such as `ipv4`.
#[derive(Debug, Clone)]
pub struct SettingsGroup {
    pub name: String,
    pub entries: Vec<(String, SettingValue)>,
}

/// A settings group as name and (key, value) pairs.
pub open spec fn group_view(g: SettingsGroup) -> (Seq<char>, Seq<(Seq<char>, SettingView)>) {
    (g.name@, g.entries@.map_values(|e: (String, SettingValue)| (e.0@, e.1@)))
}

/// A connection's settings as (group name, entries) pairs.
pub open spec fn settings_view(gs: Seq<SettingsGroup>) -> Seq<(Seq<char>, Seq<(Seq<char>, SettingView)>)> {
    gs.map_values(|g: SettingsGroup| group_view(g))
}

/// The settings of a Wi-Fi connection to `ssid`, secured with WPA-PSK when a
/// password is given.
pub open spec fn wifi_settings(ssid: Seq<char>, ssid_bytes: Seq<u8>, password: Option<Seq<char>>) -> Seq<
    (Seq<char>, Seq<(Seq<char>, SettingView)>),
> {
    let base = seq![
        ("connection"@, seq![("id"@, SettingView::Text(ssid)), ("type"@, SettingView::Text("802-11-wireless"@)), ("autoconnect"@, SettingView::Flag(true))]),
        ("802-11-wireless"@, seq![("ssid"@, SettingView::Bytes(ssid_bytes)), ("mode"@, SettingView::Text("infrastructure"@))]),
        ("ipv4"@, seq![("method"@, SettingView::Text("auto"@))]),
        ("ipv6"@, seq![("method"@, SettingView::Text("auto"@))]),
    ];
    match password {
        Some(psk) => base.push(
            ("802-11-wireless-security"@, seq![("key-mgmt"@, SettingView::Text("wpa-psk"@)), ("psk"@, SettingView::Text(psk))]),
        ),
        None => base,
    }
}

/// The settings of an Ethernet connection on `interface`.
pub open spec fn ethernet_settings(interface: Seq<char>) -> Seq<(Seq<char>, Seq<(Seq<char>, SettingView)>)> {
    seq![
        ("connection"@, seq![("id"@, SettingView::Text(interface)), ("type"@, SettingView::Text("802-3-ethernet"@)), ("autoconnect"@, SettingView::Flag(true))]),
        ("802-3-ethernet"@, Seq::<(Seq<char>, SettingView)>::empty()),
        ("ipv4"@, seq![("method"@, SettingView::Text("auto"@))]),
        ("ipv6"@, seq![("method"@, SettingView::Text("auto"@))]),
    ]
}

fn text_entry(key: &str, value: String) -> (e: (String, SettingValue))
    ensures
        e.0@ == key@,
        e.1@ == SettingView::Text(value@),
{
    (String::from_str(key), SettingValue::Text(value))
}

fn group(name: &str, entries: Vec<(String, SettingValue)>) -> (g: SettingsGroup)
    ensures
        g.name@ == name@,
        g.entries == entries,
{
    SettingsGroup { name: String::from_str(name), entries }
}

fn method_auto_group(name: &str) -> (g: SettingsGroup)
    ensures
        group_view(g) == (name@, seq![("method"@, SettingView::Text("auto"@))]),
{
    let mut entries = Vec::new();
    entries.push(text_entry("method", String::from_str("auto")));
    let g = group(name, entries);
    assert(group_view(g).1 =~= seq![("method"@, SettingView::Text("auto"@))]);
    g
}

/// The settings NetworkManager is given to join the Wi-Fi network `ssid`.
pub fn build_wifi_settings(ssid: &str, password: Option<&str>) -> (r: Vec<SettingsGroup>)
    ensures
        settings_view(r@) == wifi_settings(
            ssid@,
            ssid.spec_bytes(),
            match password {
                Some(p) => Some(p@),
                None => None,
            },
        ),
{
    let mut connection = Vec::new();
    connection.push(text_entry("id", String::from_str(ssid)));
    connection.push(text_entry("type", String::from_str("802-11-wireless")));
    connection.push((String::from_str("autoconnect"), SettingValue::Flag(true)));
    let mut wifi = Vec::new();
    wifi.push((String::from_str("ssid"), SettingValue::Bytes(vstd::slice::slice_to_vec(ssid.as_bytes()))));
    wifi.push(text_entry("mode", String::from_str("infrastructure")));
    let mut settings = Vec::new();
    let g0 = group("connection", connection);
    let g1 = group("802-11-wireless", wifi);
    assert(group_view(g0).1 =~= seq![("id"@, SettingView::Text(ssid@)), ("type"@, SettingView::Text("802-11-wireless"@)), ("autoconnect"@, SettingView::Flag(true))]);
    assert(group_view(g1).1 =~= seq![("ssid"@, SettingView::Bytes(ssid.spec_bytes())), ("mode"@, SettingView::Text("infrastructure"@))]);
    settings.push(g0);
    settings.push(g1);
    settings.push(method_auto_group("ipv4"));
    settings.push(method_auto_group("ipv6"));
    match password {
        Some(psk) => {
            let mut security = Vec::new();
            security.push(text_entry("key-mgmt", String::from_str("wpa-psk")));
            security.push(text_entry("psk", String::from_str(psk)));
            let g4 = group("802-11-wireless-security", security);
            assert(group_view(g4).1 =~= seq![("key-mgmt"@, SettingView::Text("wpa-psk"@)), ("psk"@, SettingView::Text(psk@))]);
            settings.push(g4);
        },
        None => {},
    }
    assert(settings_view(settings@) =~= wifi_settings(
        ssid@,
        ssid.spec_bytes(),
        match password {
            Some(p) => Some(p@),
            None => None,
        },
    ));
    settings
}

/// The settings NetworkManager is given to bring up Ethernet on `interface`.
pub fn build_ethernet_settings(interface: &str) -> (r: Vec<SettingsGroup>)
    ensures
        settings_view(r@) == ethernet_settings(interface@),
{
    let mut connection = Vec::new();
    connection.push(text_entry("id", String::from_str(interface)));
    connection.push(text_entry("type", String::from_str("802-3-ethernet")));
    connection.push((String::from_str("autoconnect"), SettingValue::Flag(true)));
    let g0 = group("connection", connection);
    let g1 = group("802-3-ethernet", Vec::new());
    assert(group_view(g0).1 =~= seq![("id"@, SettingView::Text(interface@)), ("type"@, SettingView::Text("802-3-ethernet"@)), ("autoconnect"@, SettingView::Flag(true))]);
    assert(group_view(g1).1 =~= Seq::<(Seq<char>, SettingView)>::empty());
    let mut settings = Vec::new();
    settings.push(g0);
    settings.push(g1);
    settings.push(method_auto_group("ipv4"));
    settings.push(method_auto_group("ipv6"));
    assert(settings_view(settings@) =~= ethernet_settings(interface@));
    settings
}

// ── Access point readings ────────────────────────────────────────────────────

/// What NetworkManager reports of one access point of a wireless device.
#[derive(Debug, Clone)]
pub struct AccessPointReading {
    /// The SSID bytes as advertised.
    pub ssid: Vec<u8>,
    /// Signal strength in percent.
    pub strength: u8,
    pub flags: u32,
    pub wpa_flags: u32,
    pub rsn_flags: u32,
    /// Whether the device is connected through this access point.
    pub active: bool,
}

/// An access point with an empty SSID (after decoding and trimming) is hidden.
pub open spec fn ap_listed(r: AccessPointReading) -> bool {
    trim_nul(lossy_utf8(r.ssid@)).len() > 0
}

/// `n` is the network entry for the access point read as `r`: its decoded
/// SSID, its strength, secured when any of its three flag sets is not empty,
/// connected when the device uses it; the fields NetworkManager's access
/// point list does not fill are empty.
pub open spec fn ap_entry(r: AccessPointReading, n: WifiNetwork) -> bool {
    &&& n.ssid@ == trim_nul(lossy_utf8(r.ssid@))
    &&& n.signal == r.strength
    &&& n.secured == (r.flags != 0 || r.wpa_flags != 0 || r.rsn_flags != 0)
    &&& n.connected == r.active
    &&& !n.existing
    &&& !n.cached
    &&& !n.password_required
    &&& n.security@.len() == 0
    &&& n.frequency_mhz is None
    &&& n.bssid is None
    &&& n.last_seen_ms is None
}

/// `ns` holds the entries of the listed access points of `rs`, in order.
pub open spec fn ap_entries(rs: Seq<AccessPointReading>, ns: Seq<WifiNetwork>) -> bool
    decreases rs.len(),
{
    if rs.len() == 0 {
        ns.len() == 0
    } else if ap_listed(rs.last()) {
        ns.len() > 0 && ap_entry(rs.last(), ns.last()) && ap_entries(rs.drop_last(), ns.drop_last())
    } else {
        ap_entries(rs.drop_last(), ns)
    }
}

/// The network entry of an access point, or `None` when its SSID is empty.
pub fn access_point_entry(r: &AccessPointReading) -> (e: Option<WifiNetwork>)
    ensures
        ap_listed(*r) <==> e is Some,
        e matches Some(n) ==> ap_entry(*r, n),
{
    let ssid = ssid_to_string(r.ssid.clone());
    if ssid.as_str().is_empty() {
        return None;
    }
    Some(WifiNetwork {
        ssid,
        signal: r.strength,
        secured: r.flags != 0 || r.wpa_flags != 0 || r.rsn_flags != 0,
        connected: r.active,
        existing: false,
        cached: false,
        password_required: false,
        security: String::new(),
        frequency_mhz: None,
        bssid: None,
        last_seen_ms: None,
    })
}

/// The entries of the listed access points, in order.
pub fn access_point_entries(readings: &Vec<AccessPointReading>) -> (v: Vec<WifiNetwork>)
    ensures
        ap_entries(readings@, v@),
{
    let mut v: Vec<WifiNetwork> = Vec::new();
    let mut i: usize = 0;
    while i < readings.len()
        invariant
            i <= readings.len(),
            ap_entries(readings@.subrange(0, i as int), v@),
        decreases readings.len() - i,
    {
        let ghost before = v@;
        let e = access_point_entry(&readings[i]);
        proof {
            assert(readings@.subrange(0, i + 1).drop_last() == readings@.subrange(0, i as int));
            assert(readings@.subrange(0, i + 1).last() == readings@[i as int]);
        }
        match e {
            Some(n) => {
                v.push(n);
                assert(v@.drop_last() == before);
            },
            None => {},
        }
        i = i + 1;
    }
    assert(readings@.subrange(0, readings@.len() as int) == readings@);
    v
}

/// The WiFi networks the access points show: one per SSID (see
/// `insert_network`), strongest signal first.
pub fn wifi_networks(readings: &Vec<AccessPointReading>) -> (r: Vec<WifiNetwork>)
    ensures
        by_signal_desc(r@),
        exists|ns: Seq<WifiNetwork>| ap_entries(readings@, ns) && r@.to_multiset() == merge_networks(ns).to_multiset(),
{
    let entries = access_point_entries(readings);
    let ghost ns = entries@;
    let r = select_networks(entries);
    assert(ap_entries(readings@, ns) && r@.to_multiset() == merge_networks(ns).to_multiset());
    r
}

proof fn lemma_ssid_index_found(list: Seq<WifiNetwork>, ssid: Seq<char>)
    ensures
        ssid_index(list, ssid) < 0 ==> forall|k: int| 0 <= k < list.len() ==> #[trigger] list[k].ssid@ != ssid,
        ssid_index(list, ssid) >= 0 ==> ssid_index(list, ssid) < list.len() && list[ssid_index(list, ssid)].ssid@ == ssid,
    decreases list.len(),
{
    if list.len() > 0 {
        let t = list.drop_first();
        lemma_ssid_index_found(t, ssid);
        if ssid_index(list, ssid) < 0 {
            assert(list[0].ssid@ != ssid);
            assert(ssid_index(t, ssid) < 0);
            assert forall|k: int| 0 <= k < list.len() implies #[trigger] list[k].ssid@ != ssid by {
                if k > 0 {
                    assert(list[k] == t[k - 1]);
                }
            }
        }
    }
}

/// Each SSID has one entry at most.
pub open spec fn one_per_ssid(list: Seq<WifiNetwork>) -> bool {
    forall|i: int, j: int| 0 <= i < j < list.len() ==> #[trigger] list[i].ssid@ != #[trigger] list[j].ssid@
}

/// `list` has an entry for `ssid`.
pub open spec fn has_ssid(list: Seq<WifiNetwork>, ssid: Seq<char>) -> bool {
    exists|k: int| 0 <= k < list.len() && #[trigger] list[k].ssid@ == ssid
}

/// The Wi-Fi list names each SSID the access points advertise, and names it
/// once.
pub proof fn law_one_network_per_ssid(aps: Seq<WifiNetwork>)
    ensures
        one_per_ssid(merge_networks(aps)),
        forall|k: int| 0 <= k < aps.len() ==> has_ssid(merge_networks(aps), #[trigger] aps[k].ssid@),
    decreases aps.len(),
{
    if aps.len() > 0 {
        let prev = aps.drop_last();
        law_one_network_per_ssid(prev);
        let list = merge_networks(prev);
        let e = aps.last();
        lemma_ssid_index_found(list, e.ssid@);
        let i = ssid_index(list, e.ssid@);
        let out = insert_network(list, e);
        assert(out == merge_networks(aps));
        // Every SSID of `list` is still named, each once.
        assert forall|k: int| 0 <= k < list.len() implies #[trigger] out[k].ssid@ == list[k].ssid@ by {}
        assert forall|a: int, b: int| 0 <= a < b < out.len() implies #[trigger] out[a].ssid@ != #[trigger] out[b].ssid@ by {
            if b < list.len() {
                assert(out[a].ssid@ == list[a].ssid@);
                assert(out[b].ssid@ == list[b].ssid@);
            } else {
                assert(i < 0 && out[b] == e);
                assert(out[a].ssid@ == list[a].ssid@);
            }
        }
        assert(has_ssid(out, e.ssid@)) by {
            if i < 0 {
                assert(out[list.len() as int] == e);
            } else {
                assert(out[i].ssid@ == e.ssid@);
            }
        }
        assert forall|k: int| 0 <= k < aps.len() implies has_ssid(out, #[trigger] aps[k].ssid@) by {
            if k < prev.len() {
                assert(prev[k] == aps[k]);
                assert(has_ssid(list, prev[k].ssid@));
                let w = choose|w: int| 0 <= w < list.len() && #[trigger] list[w].ssid@ == prev[k].ssid@;
                assert(out[w].ssid@ == list[w].ssid@);
            } else {
                assert(aps[k] == e);
            }
        }
    }
}

/// `kept` wins over every access point `ap` with its SSID: a connected one
/// is kept when there is one, and the kept entry's signal is at least that
/// of each access point of the same kind.
pub open spec fn wins_over(kept: WifiNetwork, ap: WifiNetwork) -> bool {
    &&& ap.connected ==> kept.connected
    &&& kept.connected == ap.connected ==> kept.signal >= ap.signal
}

/// For each SSID the Wi-Fi list keeps the best access point: a connected
/// one over any other, and the strongest signal among those of that kind.
pub proof fn law_strongest_per_ssid(aps: Seq<WifiNetwork>)
    ensures
        forall|k: int, j: int|
            0 <= k < aps.len() && 0 <= j < merge_networks(aps).len() && #[trigger] merge_networks(aps)[j].ssid@
                == #[trigger] aps[k].ssid@ ==> wins_over(merge_networks(aps)[j], aps[k]),
    decreases aps.len(),
{
    if aps.len() > 0 {
        let prev = aps.drop_last();
        law_strongest_per_ssid(prev);
        law_one_network_per_ssid(prev);
        let list = merge_networks(prev);
        let e = aps.last();
        lemma_ssid_index_found(list, e.ssid@);
        let i = ssid_index(list, e.ssid@);
        let out = insert_network(list, e);
        assert(out == merge_networks(aps));
        assert forall|k: int, j: int| 0 <= k < aps.len() && 0 <= j < out.len() && #[trigger] out[j].ssid@
            == #[trigger] aps[k].ssid@ implies wins_over(out[j], aps[k]) by {
            if k < prev.len() {
                assert(prev[k] == aps[k]);
                if j < list.len() {
                    if i >= 0 && j == i && replaces(list[i], e) {
                        assert(out[j] == e);
                        assert(list[i].ssid@ == prev[k].ssid@);
                        assert(wins_over(list[i], prev[k]));
                    } else {
                        assert(out[j] == list[j]);
                        assert(list[j].ssid@ == prev[k].ssid@);
                    }
                } else {
                    assert(i < 0 && out[j] == e);
                    assert(has_ssid(list, prev[k].ssid@));
                    let w = choose|w: int| 0 <= w < list.len() && #[trigger] list[w].ssid@ == prev[k].ssid@;
                    assert(list[w].ssid@ != e.ssid@);
                }
            } else {
                assert(aps[k] == e);
                if i >= 0 && j < list.len() {
                    if j != i {
                        if j < i {
                            assert(list[j].ssid@ != list[i].ssid@);
                        } else {
                            assert(list[i].ssid@ != list[j].ssid@);
                        }
                        assert(out[j] == list[j]);
                    }
                } else if j < list.len() {
                    assert(out[j] == list[j]);
                    assert(list[j].ssid@ != e.ssid@);
                }
            }
        }
    }
}

/// An event that reports Wi-Fi being switched on or off.
pub open spec fn is_wifi_switch(e: NetEvent) -> bool {
    e is WifiEnabled || e is WifiDisabled
}

/// The Wi-Fi switch events tell the truth about the new status: one comes
/// exactly when there was no status before or Wi-Fi was switched, it says
/// `WifiEnabled` exactly when Wi-Fi is now on, and there is never more than
/// one.
pub proof fn law_wifi_event_reports_new_state(last: Option<NetStatus>, s: NetStatus)
    ensures
        ({
            let evs = status_events(last, s);
            let switched = match last {
                Some(prev) => prev.wifi_enabled != s.wifi_enabled,
                None => true,
            };
            &&& switched ==> exists|i: int| 0 <= i < evs.len() && #[trigger] is_wifi_switch(evs[i])
            &&& forall|i: int| 0 <= i < evs.len() && #[trigger] is_wifi_switch(evs[i]) ==> switched
                && (evs[i] is WifiEnabled <==> s.wifi_enabled)
            &&& forall|i: int, j: int| 0 <= i < j < evs.len() && #[trigger] is_wifi_switch(evs[i])
                ==> !#[trigger] is_wifi_switch(evs[j])
        }),
{
    let evs = status_events(last, s);
    let tail = match s.active_ssid {
        Some(ssid) => if s.interfaces@.len() > 0 {
            seq![NetEvent::Connected { ssid: Some(ssid), iface: s.interfaces@[0].name }]
        } else {
            Seq::<NetEvent>::empty()
        },
        None => Seq::<NetEvent>::empty(),
    };
    let w = if s.wifi_enabled { NetEvent::WifiEnabled } else { NetEvent::WifiDisabled };
    assert(forall|k: int| 0 <= k < tail.len() ==> !is_wifi_switch(#[trigger] tail[k]));
    match last {
        Some(prev) => {
            let a = if prev.connectivity@ != s.connectivity@ {
                seq![NetEvent::ConnectivityChanged { state: s.connectivity }]
            } else {
                Seq::<NetEvent>::empty()
            };
            let b = if prev.wifi_enabled != s.wifi_enabled {
                seq![w]
            } else {
                Seq::<NetEvent>::empty()
            };
            let c = if prev.mode != s.mode {
                seq![NetEvent::ModeChanged { mode: s.mode }]
            } else {
                Seq::<NetEvent>::empty()
            };
            assert(evs == a + b + c + tail);
            assert(forall|k: int| 0 <= k < a.len() ==> !is_wifi_switch(#[trigger] a[k]));
            assert(forall|k: int| 0 <= k < c.len() ==> !is_wifi_switch(#[trigger] c[k]));
            assert forall|i: int| 0 <= i < evs.len() && #[trigger] is_wifi_switch(evs[i]) implies i == a.len()
                && b.len() == 1 && evs[i] == w by {
                if i < a.len() {
                    assert(evs[i] == a[i]);
                } else if i < a.len() + b.len() {
                    assert(evs[i] == b[i - a.len()]);
                } else if i < a.len() + b.len() + c.len() {
                    assert(evs[i] == c[i - a.len() - b.len()]);
                } else {
                    assert(evs[i] == tail[i - a.len() - b.len() - c.len()]);
                }
            }
            if prev.wifi_enabled != s.wifi_enabled {
                assert(evs[a.len() as int] == w);
                assert(is_wifi_switch(evs[a.len() as int]));
            }
        },
        None => {
            let head = seq![
                NetEvent::ConnectivityChanged { state: s.connectivity },
                w,
                NetEvent::ModeChanged { mode: s.mode },
            ];
            assert(evs == head + tail);
            assert forall|i: int| 0 <= i < evs.len() && #[trigger] is_wifi_switch(evs[i]) implies i == 1 && evs[i] == w by {
                if i < 3 {
                    assert(evs[i] == head[i]);
                } else {
                    assert(evs[i] == tail[i - 3]);
                }
            }
            assert(evs[1] == w);
            assert(is_wifi_switch(evs[1]));
        },
    }
}

/// A status equal to the last one announces no change: only that the device
/// is connected, when it is.
pub proof fn law_unchanged_status_is_quiet(s: NetStatus)
    ensures
        status_events(Some(s), s) == (match s.active_ssid {
            Some(ssid) => if s.interfaces@.len() > 0 {
                seq![NetEvent::Connected { ssid: Some(ssid), iface: s.interfaces@[0].name }]
            } else {
                Seq::<NetEvent>::empty()
            },
            None => Seq::<NetEvent>::empty(),
        }),
{
    assert(Seq::<NetEvent>::empty() + Seq::<NetEvent>::empty() + Seq::<NetEvent>::empty() =~= Seq::<NetEvent>::empty());
    let t = match s.active_ssid {
        Some(ssid) => if s.interfaces@.len() > 0 {
            seq![NetEvent::Connected { ssid: Some(ssid), iface: s.interfaces@[0].name }]
        } else {
            Seq::<NetEvent>::empty()
        },
        None => Seq::<NetEvent>::empty(),
    };
    assert(Seq::<NetEvent>::empty() + t =~= t);
}

} // verus!
