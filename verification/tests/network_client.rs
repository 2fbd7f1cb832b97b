use crawl::cli_tables::{audio_rows, audio_status, bt_rows, interface_rows};
use crawl::client::{CrawlClient, RequestIds};
use crawl::clipboard::{clipboard_content, ClipEntry, ClipHistory, ClipWatcher, ClipboardError, PasteOutcome};
use crawl::format::{daemon_socket_path, format_uptime, join_dir, parse_hex_rgb, parse_uid, socket_path_from, truncate, uid_or_default};
use crawl::ipc_types::{AudioDevice, AudioDeviceKind, BtDevice, NetInterface, NetMode, WallpaperSetOptions};
use crawl::network::{
    access_point_entry, nm_connectivity_str, nm_device_state_str, ssid_to_string, wifi_networks, AccessPointReading,
    NetworkSnapshot, NetworkState,
};
use crawl::nm_devices::{
    access_point_for, build_status, ethernet_deactivation, ethernet_for_connect, ethernet_for_disconnect, format_ipv4,
    wifi_deactivation, wifi_for_connect, wifi_for_disconnect, DeviceProbe, DeviceReading, NetError,
};
use crawl::events::NetEvent;
use crawl::sysinfo_view::{collect_pairs, logo_text, CompositorSummary, HardwareSummary, MonitorSummary, OsSummary, SessionSummary, SysinfoSummary};
use crawl::theme::{parse_variant, variant_from_request, Variant};

fn entry(content: &str) -> ClipEntry {
    ClipEntry { content: content.into(), mime: "text/plain".into(), timestamp_ms: 1 }
}

#[test]
fn clip_history_skips_repeats_and_stays_bounded() {
    let mut h = ClipHistory::new(2);
    h.push(entry("a"));
    h.push(entry("a"));
    h.push(entry("b"));
    h.push(entry("c"));
    let list: Vec<String> = h.list().into_iter().map(|e| e.content).collect();
    assert_eq!(list, vec!["c".to_string(), "b".to_string()]);
    assert_eq!(h.latest().unwrap().content, "c");
}

#[test]
fn clip_history_of_capacity_zero_keeps_nothing() {
    let mut h = ClipHistory::new(0);
    h.push(entry("a"));
    h.push(entry("b"));
    assert!(h.list().is_empty());
    assert!(h.latest().is_none());
}

#[test]
fn clip_history_lists_pushes_newest_first() {
    let mut h = ClipHistory::new(3);
    h.push(entry("a"));
    h.push(entry("b"));
    h.push(entry("a"));
    let list: Vec<String> = h.list().into_iter().map(|e| e.content).collect();
    assert_eq!(list, vec!["a".to_string(), "b".to_string(), "a".to_string()]);
    let again: Vec<String> = h.list().into_iter().map(|e| e.content).collect();
    assert_eq!(again, list);
}

#[test]
fn clip_watcher_publishes_changes_only() {
    let mut w = ClipWatcher::new(5);
    let e = w.on_read("hello".into(), 10).unwrap();
    assert_eq!((e.content.as_str(), e.mime.as_str(), e.timestamp_ms), ("hello", "text/plain", 10));
    assert!(w.on_read("hello".into(), 11).is_none());
    assert!(w.on_read("bye".into(), 12).is_some());
    assert_eq!(w.history.list().len(), 2);
}

#[test]
fn clipboard_outcomes() {
    let r = clipboard_content(PasteOutcome::Read { content: Ok("x".into()), mime: "text/plain".into() }, 5).unwrap().unwrap();
    assert_eq!((r.content.as_str(), r.timestamp_ms), ("x", 5));
    assert!(clipboard_content(PasteOutcome::Empty, 5).unwrap().is_none());
    assert!(clipboard_content(PasteOutcome::NoSeats, 5).unwrap().is_none());
    match clipboard_content(PasteOutcome::Failed("broken pipe".into()), 5) {
        Err(ClipboardError::Paste(m)) => assert_eq!(m, "broken pipe"),
        _ => panic!("expected a paste error"),
    }
    assert_eq!(ClipboardError::Copy("no".into()).message(), "copy error: no");
    assert_eq!(ClipboardError::NoDisplay.message(), "Wayland display unavailable (WAYLAND_DISPLAY not set?)");
}

#[test]
fn connectivity_and_device_state_names() {
    assert_eq!(nm_connectivity_str(4), "full");
    assert_eq!(nm_connectivity_str(9), "unknown");
    assert_eq!(nm_device_state_str(100), "activated");
    assert_eq!(nm_device_state_str(20), "unavailable");
    assert_eq!(nm_device_state_str(5), "unknown");
    assert_eq!(nm_device_state_str(70), "ip-config");
    assert_eq!(nm_device_state_str(50), "prepare");
    assert_eq!(nm_device_state_str(30), "disconnected");
    assert_eq!(nm_device_state_str(55), "unknown");
}

#[test]
fn ssids_lose_nul_padding() {
    assert_eq!(ssid_to_string(vec![0, b'h', b'o', 0, 0]), "ho");
    assert_eq!(ssid_to_string(vec![0xff, b'a']), "\u{fffd}a");
}

fn ap(ssid: &str, strength: u8, active: bool) -> AccessPointReading {
    AccessPointReading { ssid: ssid.as_bytes().to_vec(), strength, flags: 0, wpa_flags: 0, rsn_flags: 0, active }
}

#[test]
fn access_points_become_networks() {
    let mut r = ap("cafe", 40, false);
    r.rsn_flags = 0x100;
    let n = access_point_entry(&r).unwrap();
    assert_eq!((n.ssid.as_str(), n.signal, n.secured, n.connected), ("cafe", 40, true, false));
    assert!(access_point_entry(&ap("", 90, false)).is_none());
}

#[test]
fn wifi_list_keeps_one_per_ssid_strongest_first() {
    let readings = vec![ap("home", 50, false), ap("work", 70, false), ap("home", 80, false), ap("home", 30, true), ap("", 99, false)];
    let list = wifi_networks(&readings);
    let got: Vec<(String, u8, bool)> = list.into_iter().map(|n| (n.ssid, n.signal, n.connected)).collect();
    assert_eq!(got, vec![("work".to_string(), 70, false), ("home".to_string(), 30, true)]);
}

#[test]
fn wifi_list_keeps_the_best_access_point_per_ssid() {
    let readings = vec![ap("lab", 20, false), ap("lab", 60, false), ap("lab", 40, false), ap("cafe", 10, true), ap("cafe", 80, false)];
    let got: Vec<(String, u8, bool)> = wifi_networks(&readings).into_iter().map(|n| (n.ssid, n.signal, n.connected)).collect();
    assert_eq!(got, vec![("lab".to_string(), 60, false), ("cafe".to_string(), 10, true)]);
}

fn status_snapshot(connectivity: &str, wifi: bool, ssid: Option<&str>) -> NetworkSnapshot {
    let devices = vec![DeviceReading {
        interface: "wlan0".into(),
        state: 100,
        ip4: 0,
        mac: None,
        device_type: 2,
        active_ssid: ssid.map(|s| s.as_bytes().to_vec()),
    }];
    let c = match connectivity {
        "full" => 4,
        _ => 1,
    };
    NetworkSnapshot { status: build_status(c, wifi, true, &devices) }
}

#[test]
fn network_events_on_first_and_changed_status() {
    let mut st = NetworkState::new();
    let first = status_snapshot("full", true, None);
    let ev = st.diff_events(&first);
    assert_eq!(ev.len(), 3);
    assert!(matches!(&ev[0], NetEvent::ConnectivityChanged { state } if state == "full"));
    assert!(matches!(ev[1], NetEvent::WifiEnabled));
    st.set_snapshot(first.clone());
    assert!(st.diff_events(&first).is_empty());
    let later = status_snapshot("none", false, Some("home"));
    let ev = st.diff_events(&later);
    assert_eq!(ev.len(), 4);
    assert!(matches!(ev[1], NetEvent::WifiDisabled));
    assert!(matches!(&ev[3], NetEvent::Connected { ssid: Some(s), iface } if s == "home" && iface == "wlan0"));
}

#[test]
fn build_status_lists_wifi_and_ethernet() {
    let devices = vec![
        DeviceReading { interface: "lo".into(), state: 10, ip4: 0, mac: None, device_type: 14, active_ssid: None },
        DeviceReading { interface: "eth0".into(), state: 100, ip4: 0xC0A8_0102, mac: Some("aa:bb".into()), device_type: 1, active_ssid: None },
        DeviceReading { interface: "wlan0".into(), state: 30, ip4: 0, mac: None, device_type: 2, active_ssid: Some(vec![0]) },
    ];
    let s = build_status(4, true, true, &devices);
    assert_eq!(s.connectivity, "full");
    assert_eq!(s.interfaces.len(), 2);
    assert_eq!(s.interfaces[0].ip4, Some("192.168.1.2".to_string()));
    assert_eq!(s.interfaces[1].state, "disconnected");
    assert_eq!(s.active_ssid, None);
    assert!(matches!(s.mode, NetMode::Unknown));
    assert!(s.wifi_available && s.ethernet_available);
    assert_eq!(format_ipv4(0x0A00_0001), "10.0.0.1");
}

fn probe(t: Option<u32>, name: Option<&str>, active: Option<&str>) -> DeviceProbe {
    DeviceProbe { device_type: t, interface: name.map(|s| s.into()), active_connection: active.map(|s| s.into()) }
}

#[test]
fn ethernet_choices() {
    let probes = vec![probe(Some(2), Some("wlan0"), Some("/c/1")), probe(Some(1), Some("eth0"), Some("/")), probe(Some(1), Some("eth1"), Some("/c/2"))];
    assert_eq!(ethernet_for_connect(&probes, None).unwrap(), (1, "eth0".to_string()));
    assert_eq!(ethernet_for_connect(&probes, Some("eth1")).unwrap(), (2, "eth1".to_string()));
    assert_eq!(ethernet_for_disconnect(&probes, None).unwrap(), (2, "eth1".to_string()));
    match ethernet_for_connect(&probes, Some("eth9")) {
        Err(NetError::NotFound(m)) => assert_eq!(m, "ethernet interface 'eth9'"),
        _ => panic!("expected not found"),
    }
    let broken = vec![probe(None, None, None), probe(Some(1), Some("eth0"), Some("/c"))];
    match ethernet_for_connect(&broken, None) {
        Err(NetError::NotFound(m)) => assert_eq!(m, "ethernet device"),
        _ => panic!("expected not found"),
    }
    match ethernet_for_disconnect(&vec![probe(Some(1), Some("eth0"), Some("/"))], None) {
        Err(NetError::NotFound(m)) => assert_eq!(m, "active ethernet device"),
        _ => panic!("expected not found"),
    }
    match ethernet_deactivation("/", "eth0") {
        Err(NetError::NotFound(m)) => assert_eq!(m, "no active connection for 'eth0'"),
        _ => panic!("expected not found"),
    }
    assert!(ethernet_deactivation("/c/3", "eth0").is_ok());
}

#[test]
fn wifi_choices() {
    let probes = vec![probe(Some(1), Some("eth0"), Some("/c")), probe(Some(2), Some("wlan0"), Some("/"))];
    assert_eq!(wifi_for_connect(&probes).unwrap(), 1);
    match wifi_for_disconnect(&probes) {
        Err(NetError::NotFound(m)) => assert_eq!(m, "active wifi connection"),
        _ => panic!("expected not found"),
    }
    match wifi_for_connect(&vec![probe(Some(1), None, None)]) {
        Err(NetError::NotFound(m)) => assert_eq!(m, "wifi device"),
        _ => panic!("expected not found"),
    }
    let aps = vec![Some(b"other".to_vec()), Some(b"home\0".to_vec())];
    assert_eq!(access_point_for(&aps, "home").unwrap(), 1);
    match access_point_for(&vec![None, Some(b"home".to_vec())], "home") {
        Err(NetError::NotFound(m)) => assert_eq!(m, "ssid 'home'"),
        _ => panic!("expected not found"),
    }
    assert!(wifi_deactivation("/").is_err());
    assert!(wifi_deactivation("/c/1").is_ok());
    assert_eq!(NetError::Unavailable.message(), "NetworkManager unavailable");
}

#[test]
fn client_paths_and_ids() {
    let c = CrawlClient::new("/run/user/1000/crawl.sock".into());
    assert_eq!(c.socket_path(), "/run/user/1000/crawl.sock");
    let mut ids = RequestIds::new();
    assert_eq!(ids.next_id(), 1);
    assert_eq!(ids.next_id(), 2);
}

#[test]
fn socket_paths() {
    assert_eq!(socket_path_from(Some("/s".into()), Some("/r".into()), Some(1)), "/s");
    assert_eq!(socket_path_from(None, Some("/r/".into()), Some(1)), "/r/crawl.sock");
    assert_eq!(socket_path_from(None, None, Some(42)), "/run/user/42/crawl.sock");
    assert_eq!(socket_path_from(None, None, None), "/tmp/crawl.sock");
    assert_eq!(daemon_socket_path("/run/user/5"), "/run/user/5/crawl.sock");
    assert_eq!(join_dir("a".into(), "b"), "a/b");
    assert_eq!(join_dir(String::new(), "b"), "b");
    assert_eq!(parse_uid(" 1001\n"), Some(1001));
    assert_eq!(parse_uid("x"), None);
    assert_eq!(uid_or_default(Some("77")), 77);
    assert_eq!(uid_or_default(Some("-1")), 1000);
    assert_eq!(uid_or_default(None), 1000);
}

#[test]
fn text_formats() {
    assert_eq!(format_uptime(90061), "1 days, 1 hours");
    assert_eq!(format_uptime(3720), "1 hours, 2 mins");
    assert_eq!(format_uptime(59), "0 mins");
    assert_eq!(truncate("abcdef", 4), "abc…");
    assert_eq!(truncate("abc", 4), "abc");
    assert_eq!(parse_hex_rgb("#ff8000"), Some((255, 128, 0)));
    assert_eq!(parse_hex_rgb("ff80"), None);
    assert_eq!(parse_hex_rgb("#gg0000"), None);
}

#[test]
fn theme_variants() {
    assert_eq!(parse_variant(Some("light"), Variant::Dark), Variant::Light);
    assert_eq!(parse_variant(Some("sepia"), Variant::Light), Variant::Light);
    assert_eq!(parse_variant(None, Variant::Dark), Variant::Dark);
    assert_eq!(variant_from_request("light"), Variant::Light);
    assert_eq!(variant_from_request("anything"), Variant::Dark);
}

#[test]
fn wallpaper_options_builder() {
    let o = WallpaperSetOptions::new("/w.png".into()).with_monitor("DP-1".into()).with_transition("fade".into());
    assert_eq!((o.path.as_str(), o.monitor.as_deref(), o.transition.as_deref()), ("/w.png", Some("DP-1"), Some("fade")));
}

#[test]
fn table_rows() {
    let dev = AudioDevice {
        id: 1,
        name: "Speakers".into(),
        description: None,
        kind: AudioDeviceKind::Sink,
        volume_percent: 65,
        muted: false,
        is_default: true,
    };
    assert_eq!(audio_rows(&vec![dev.clone()]), vec![vec!["Speakers".to_string(), "65%".into(), "No".into(), "✓".into()]]);
    assert_eq!(
        audio_status(&vec![dev]),
        vec![
            vec!["Default".to_string(), "Speakers".into()],
            vec!["Volume".to_string(), "65%".into()],
            vec!["Muted".to_string(), "false".into()],
        ]
    );
    assert!(audio_status(&vec![]).is_empty());
    let bt = BtDevice { address: "AA".into(), name: None, connected: true, paired: false, rssi: None, battery: Some(80), icon: None };
    assert_eq!(bt_rows(&vec![bt]), vec![vec!["AA".to_string(), "(unknown)".into(), "Yes".into(), "No".into(), "80%".into()]]);
    let iface = NetInterface { name: "eth0".into(), state: "activated".into(), ip4: None, ip6: None, mac: Some("m".into()) };
    assert_eq!(interface_rows(&vec![iface]), vec![vec!["eth0".to_string(), "activated".into(), "—".into(), "m".into()]]);
}

#[test]
fn sysinfo_rows() {
    let info = SysinfoSummary {
        os: Some(OsSummary { name: Some("Arch".into()), kernel: None, hostname: Some("box".into()) }),
        session: Some(SessionSummary { user: Some("me".into()), uptime_seconds: Some(120), shell: None, terminal: None }),
        compositor: Some(CompositorSummary { name: Some("niri".into()), kind: None }),
        monitor: Some(MonitorSummary { width: Some(2560), height: None, scale_text: "1.5".into() }),
        hardware: Some(HardwareSummary { cpu_model: None, cpu_cores: Some(8), memory_text: "15.5".into(), gpu: None, disk_text: None }),
    };
    let rows = collect_pairs(&info);
    let want: Vec<(String, String)> = vec![
        ("OS", "Arch"),
        ("Kernel", "-"),
        ("Host", "box"),
        ("User", "me"),
        ("Uptime", "2 mins"),
        ("DE/WM", "niri (unknown)"),
        ("Resolution", "2560x0 @ 1.5x"),
        ("CPU", "- (8 cores)"),
        ("Memory", "15.5 GB"),
    ]
    .into_iter()
    .map(|(a, b)| (a.to_string(), b.to_string()))
    .collect();
    assert_eq!(rows, want);
}

#[test]
fn logo_layout() {
    let lines = vec!["/\\".to_string(), "\\/".to_string()];
    let pairs = vec![("OS".to_string(), "Arch".to_string())];
    let out = logo_text(&lines, 3, &pairs, 80);
    assert_eq!(out, "/\\   OS  Arch\n\\/   \n");
    let out = logo_text(&vec![], 2, &pairs, 3);
    assert_eq!(out, "    OSArch\n");
}
