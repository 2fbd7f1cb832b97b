//! The table rows the command-line client prints for audio devices,
//! Bluetooth devices, network interfaces and the wallpaper status.

use vstd::prelude::*;
use vstd::string::StringExecFns;
use crate::ipc_types::{AudioDevice, BtDevice, NetInterface};
use crate::text::{decimal, push_decimal};
use crate::format::{truncate, truncated};
use vstd::string::StringSliceAdditionalSpecFns;
use vstd::utf8::{encode_utf8, is_char_boundary};

verus! {

/// A table's cells as the contracts see them.
pub open spec fn table_view(rows: Seq<Vec<String>>) -> Seq<Seq<Seq<char>>> {
    Seq::new(rows.len(), |i: int| Seq::new(rows[i]@.len(), |j: int| rows[i]@[j]@))
}

/// `Yes` or `No`.
pub open spec fn yes_no(b: bool) -> Seq<char> {
    if b { "Yes"@ } else { "No"@ }
}

/// A percentage as shown: the number and `%`.
pub open spec fn percent_text(n: nat) -> Seq<char> {
    decimal(n) + "%"@
}

/// The row of an audio device: name, volume, muted, and a check mark for the
/// default device.
pub open spec fn audio_row(d: AudioDevice) -> Seq<Seq<char>> {
    seq![d.name@, percent_text(d.volume_percent as nat), yes_no(d.muted), if d.is_default { "✓"@ } else { ""@ }]
}

/// The row of a Bluetooth device: address, name (`(unknown)` when it has
/// none), connected, paired, and battery level (`—` when unknown).
pub open spec fn bt_row(d: BtDevice) -> Seq<Seq<char>> {
    seq![
        d.address@,
        match d.name { Some(n) => n@, None => "(unknown)"@ },
        yes_no(d.connected),
        yes_no(d.paired),
        match d.battery { Some(b) => percent_text(b as nat), None => "—"@ },
    ]
}

/// The row of a network interface: name, state, IPv4 address and MAC
/// address (`—` for one it has not).
pub open spec fn interface_row(i: NetInterface) -> Seq<Seq<char>> {
    seq![
        i.name@,
        i.state@,
        match i.ip4 { Some(a) => a@, None => "—"@ },
        match i.mac { Some(m) => m@, None => "—"@ },
    ]
}

fn lit(s: &str) -> (r: String)
    ensures
        r@ == s@,
{
    String::from_str(s)
}

fn yes_no_text(b: bool) -> (r: String)
    ensures
        r@ == yes_no(b),
{
    if b { lit("Yes") } else { lit("No") }
}

fn percent(n: u64) -> (r: String)
    ensures
        r@ == percent_text(n as nat),
{
    let mut r = String::new();
    push_decimal(&mut r, n);
    r.append("%");
    r
}

fn cells4(a: String, b: String, c: String, d: String) -> (v: Vec<String>)
    ensures
        Seq::new(v@.len(), |j: int| v@[j]@) == seq![a@, b@, c@, d@],
{
    let mut v: Vec<String> = Vec::new();
    v.push(a);
    v.push(b);
    v.push(c);
    v.push(d);
    assert(Seq::new(v@.len(), |j: int| v@[j]@) =~= seq![a@, b@, c@, d@]);
    v
}

/// One row per audio device, in order.
pub fn audio_rows(devices: &Vec<AudioDevice>) -> (rows: Vec<Vec<String>>)
    ensures
        table_view(rows@) == Seq::new(devices@.len(), |i: int| audio_row(devices@[i])),
{
    let mut rows: Vec<Vec<String>> = Vec::new();
    let mut i: usize = 0;
    while i < devices.len()
        invariant
            i <= devices.len(),
            table_view(rows@) == Seq::new(i as nat, |k: int| audio_row(devices@[k])),
        decreases devices.len() - i,
    {
        let d = &devices[i];
        let row = cells4(
            d.name.clone(),
            percent(d.volume_percent as u64),
            yes_no_text(d.muted),
            if d.is_default { lit("✓") } else { lit("") },
        );
        let ghost before = table_view(rows@);
        rows.push(row);
        assert(table_view(rows@) =~= before.push(audio_row(devices@[i as int])));
        i = i + 1;
        assert(table_view(rows@) =~= Seq::new(i as nat, |k: int| audio_row(devices@[k])));
    }
    rows
}

/// One row per Bluetooth device, in order.
pub fn bt_rows(devices: &Vec<BtDevice>) -> (rows: Vec<Vec<String>>)
    ensures
        table_view(rows@) == Seq::new(devices@.len(), |i: int| bt_row(devices@[i])),
{
    let mut rows: Vec<Vec<String>> = Vec::new();
    let mut i: usize = 0;
    while i < devices.len()
        invariant
            i <= devices.len(),
            table_view(rows@) == Seq::new(i as nat, |k: int| bt_row(devices@[k])),
        decreases devices.len() - i,
    {
        let d = &devices[i];
        let name = match &d.name {
            Some(n) => n.clone(),
            None => lit("(unknown)"),
        };
        let battery = match d.battery {
            Some(b) => percent(b as u64),
            None => lit("—"),
        };
        let mut row = cells4(d.address.clone(), name, yes_no_text(d.connected), yes_no_text(d.paired));
        let ghost four = Seq::new(row@.len(), |j: int| row@[j]@);
        row.push(battery);
        assert(Seq::new(row@.len(), |j: int| row@[j]@) =~= four.push(battery@));
        assert(Seq::new(row@.len(), |j: int| row@[j]@) =~= bt_row(devices@[i as int]));
        let ghost before = table_view(rows@);
        rows.push(row);
        assert(table_view(rows@) =~= before.push(bt_row(devices@[i as int])));
        i = i + 1;
        assert(table_view(rows@) =~= Seq::new(i as nat, |k: int| bt_row(devices@[k])));
    }
    rows
}

/// One row per network interface, in order.
pub fn interface_rows(interfaces: &Vec<NetInterface>) -> (rows: Vec<Vec<String>>)
    ensures
        table_view(rows@) == Seq::new(interfaces@.len(), |i: int| interface_row(interfaces@[i])),
{
    let mut rows: Vec<Vec<String>> = Vec::new();
    let mut i: usize = 0;
    while i < interfaces.len()
        invariant
            i <= interfaces.len(),
            table_view(rows@) == Seq::new(i as nat, |k: int| interface_row(interfaces@[k])),
        decreases interfaces.len() - i,
    {
        let n = &interfaces[i];
        let ip = match &n.ip4 {
            Some(a) => a.clone(),
            None => lit("—"),
        };
        let mac = match &n.mac {
            Some(m) => m.clone(),
            None => lit("—"),
        };
        let row = cells4(n.name.clone(), n.state.clone(), ip, mac);
        assert(Seq::new(row@.len(), |j: int| row@[j]@) =~= interface_row(interfaces@[i as int]));
        let ghost before = table_view(rows@);
        rows.push(row);
        assert(table_view(rows@) =~= before.push(interface_row(interfaces@[i as int])));
        i = i + 1;
        assert(table_view(rows@) =~= Seq::new(i as nat, |k: int| interface_row(interfaces@[k])));
    }
    rows
}

/// The rows of the audio status: the default output device's name, volume
/// and mute state (`true` or `false`); none when no device is the default.
pub open spec fn audio_status_rows(devices: Seq<AudioDevice>) -> Seq<Seq<Seq<char>>> {
    if exists|i: int| 0 <= i < devices.len() && devices[i].is_default {
        let d = devices[choose|i: int| 0 <= i < devices.len() && devices[i].is_default
            && forall|j: int| 0 <= j < i ==> !devices[j].is_default];
        seq![
            seq!["Default"@, d.name@],
            seq!["Volume"@, percent_text(d.volume_percent as nat)],
            seq!["Muted"@, if d.muted { "true"@ } else { "false"@ }],
        ]
    } else {
        seq![]
    }
}

fn pair(a: String, b: String) -> (v: Vec<String>)
    ensures
        Seq::new(v@.len(), |j: int| v@[j]@) == seq![a@, b@],
{
    let mut v: Vec<String> = Vec::new();
    v.push(a);
    v.push(b);
    assert(Seq::new(v@.len(), |j: int| v@[j]@) =~= seq![a@, b@]);
    v
}

/// The rows of the audio status.
pub fn audio_status(devices: &Vec<AudioDevice>) -> (rows: Vec<Vec<String>>)
    ensures
        table_view(rows@) == audio_status_rows(devices@),
{
    let mut i: usize = 0;
    while i < devices.len()
        invariant
            i <= devices.len(),
            forall|j: int| 0 <= j < i ==> !devices@[j].is_default,
        decreases devices.len() - i,
    {
        if devices[i].is_default {
            let d = &devices[i];
            proof {
                let k = choose|k: int| 0 <= k < devices@.len() && devices@[k].is_default
                    && forall|j: int| 0 <= j < k ==> !devices@[j].is_default;
                assert(0 <= i < devices@.len() && devices@[i as int].is_default);
                if k < i {
                    assert(!devices@[k].is_default);
                } else if k > i {
                    assert(!devices@[i as int].is_default);
                }
                assert(k == i);
            }
            let mut rows: Vec<Vec<String>> = Vec::new();
            rows.push(pair(lit("Default"), d.name.clone()));
            rows.push(pair(lit("Volume"), percent(d.volume_percent as u64)));
            rows.push(pair(lit("Muted"), if d.muted { lit("true") } else { lit("false") }));
            assert(table_view(rows@) =~= audio_status_rows(devices@));
            return rows;
        }
        i = i + 1;
    }
    let rows: Vec<Vec<String>> = Vec::new();
    assert(table_view(rows@) =~= audio_status_rows(devices@));
    rows
}

/// The wallpaper status as the daemon reports it: the global wallpaper,
/// whether monitors have their own, and each monitor's path (`None` when it
/// is not a text).
#[derive(Debug, Clone)]
pub struct WallpaperReport {
    pub current: Option<String>,
    pub per_monitor_mode: bool,
    pub per_monitor: Vec<(String, Option<String>)>,
}

/// A text that can be shortened to a cell of `max` bytes: it fits in memory
/// and, when longer, is cut on a character boundary.
pub open spec fn cuttable(s: Seq<char>, max: nat) -> bool {
    &&& encode_utf8(s).len() <= usize::MAX
    &&& encode_utf8(s).len() > max ==> is_char_boundary(encode_utf8(s), (if max == 0 { 0 } else { max - 1 }) as int)
}

/// A monitor's path as shown: `-` when it is not a text.
pub open spec fn monitor_path(p: Option<String>) -> Seq<char> {
    match p {
        Some(s) => s@,
        None => "-"@,
    }
}

/// The wallpaper table: the global wallpaper (`Default`), `Mode` when
/// monitors have their own, then one row per monitor; paths are cut to
/// cells of 30 bytes.
pub open spec fn wallpaper_table(r: WallpaperReport) -> Seq<Seq<Seq<char>>> {
    (match r.current {
        Some(c) => seq![seq!["Default"@, truncated(c@, 30)]],
        None => Seq::<Seq<Seq<char>>>::empty(),
    }) + (if r.per_monitor_mode {
        seq![seq!["Mode"@, "Per-monitor"@]]
    } else {
        Seq::<Seq<Seq<char>>>::empty()
    }) + Seq::new(
        r.per_monitor@.len(),
        |i: int| seq![r.per_monitor@[i].0@, truncated(monitor_path(r.per_monitor@[i].1), 30)],
    )
}

fn cell(s: &str) -> (r: String)
    requires
        cuttable(s@, 30),
    ensures
        r@ == truncated(s@, 30),
{
    proof {
        assert(s.spec_bytes() == encode_utf8(s@));
    }
    truncate(s, 30)
}

/// The rows of the wallpaper status.
pub fn wallpaper_rows(r: &WallpaperReport) -> (rows: Vec<Vec<String>>)
    requires
        r.current matches Some(c) ==> cuttable(c@, 30),
        forall|i: int| 0 <= i < r.per_monitor@.len() ==> cuttable(monitor_path(#[trigger] r.per_monitor@[i].1), 30),
    ensures
        table_view(rows@) == wallpaper_table(*r),
{
    let mut rows: Vec<Vec<String>> = Vec::new();
    match &r.current {
        Some(c) => rows.push(pair(lit("Default"), cell(c.as_str()))),
        None => {},
    }
    if r.per_monitor_mode {
        rows.push(pair(lit("Mode"), lit("Per-monitor")));
    }
    let ghost head = table_view(rows@);
    assert(head =~= (match r.current {
        Some(c) => seq![seq!["Default"@, truncated(c@, 30)]],
        None => Seq::<Seq<Seq<char>>>::empty(),
    }) + (if r.per_monitor_mode {
        seq![seq!["Mode"@, "Per-monitor"@]]
    } else {
        Seq::<Seq<Seq<char>>>::empty()
    }));
    let mut i: usize = 0;
    while i < r.per_monitor.len()
        invariant
            i <= r.per_monitor@.len(),
            forall|k: int| 0 <= k < r.per_monitor@.len() ==> cuttable(monitor_path(#[trigger] r.per_monitor@[k].1), 30),
            table_view(rows@) == head + Seq::new(
                i as nat,
                |k: int| seq![r.per_monitor@[k].0@, truncated(monitor_path(r.per_monitor@[k].1), 30)],
            ),
        decreases r.per_monitor.len() - i,
    {
        let (name, path) = &r.per_monitor[i];
        assert(cuttable(monitor_path(r.per_monitor@[i as int].1), 30));
        let text: &str = match path {
            Some(p) => p.as_str(),
            None => "-",
        };
        assert(text@ == monitor_path(r.per_monitor@[i as int].1));
        let shown = cell(text);
        let ghost before = table_view(rows@);
        rows.push(pair(name.clone(), shown));
        assert(table_view(rows@) =~= before.push(seq![r.per_monitor@[i as int].0@, truncated(monitor_path(r.per_monitor@[i as int].1), 30)]));
        i = i + 1;
        assert(table_view(rows@) =~= head + Seq::new(
            i as nat,
            |k: int| seq![r.per_monitor@[k].0@, truncated(monitor_path(r.per_monitor@[k].1), 30)],
        ));
    }
    rows
}

} // verus!
