use crawl::cli_tables::{wallpaper_rows, WallpaperReport};
use crawl::cli::{
    audio_request, bt_request, daemon_step, display_request, installed_version, net_request, service_result_message,
    sysinfo_request, theme_request, updater_args, AudioAction, AudioArgs, BtAction, BtArgs, CliCall, DaemonAction,
    DaemonArgs, DaemonStep, DisplayAction, DisplayArgs, EthAction, HotspotAction, NetAction, NetArgs, Param,
    ParamValue, ThemeArgs, UpdateArgs, WifiAction,
};
use crawl::client::{daemon_error_message, request_params};

/// A call's method and parameters as plain text, for comparing.
fn rpc(call: &CliCall) -> (String, Option<Vec<(String, String)>>) {
    match call {
        CliCall::Rpc { method, params } => (
            method.clone(),
            params.as_ref().map(|ps| ps.iter().map(|p| (p.key.clone(), show(&p.value))).collect()),
        ),
        _ => panic!("expected an RPC call"),
    }
}

fn show(v: &ParamValue) -> String {
    match v {
        ParamValue::Null => "null".to_string(),
        ParamValue::Bool(b) => b.to_string(),
        ParamValue::Int(i) => i.to_string(),
        ParamValue::Str(s) => format!("'{s}'"),
    }
}

fn kv(k: &str, v: &str) -> (String, String) {
    (k.to_string(), v.to_string())
}

#[test]
fn audio_volume_defaults_to_fifty() {
    let c = audio_request(&AudioArgs { action: AudioAction::Volume { value: None } });
    assert_eq!(rpc(&c), ("Audio".to_string(), Some(vec![kv("action", "'volume'"), kv("percent", "50")])));
    let c = audio_request(&AudioArgs { action: AudioAction::Volume { value: Some(80) } });
    assert_eq!(rpc(&c).1.unwrap()[1], kv("percent", "80"));
}

#[test]
fn audio_status_and_list_read_sinks() {
    for action in [AudioAction::Status, AudioAction::List] {
        let c = audio_request(&AudioArgs { action });
        assert_eq!(rpc(&c), ("Audio".to_string(), Some(vec![kv("action", "'sinks'")])));
    }
    let c = audio_request(&AudioArgs { action: AudioAction::Input });
    assert_eq!(rpc(&c).1.unwrap(), vec![kv("action", "'sources'")]);
}

#[test]
fn bluetooth_power_only_on_means_on() {
    let on = bt_request(&BtArgs { action: BtAction::Power { state: "on".into() } });
    assert_eq!(rpc(&on), ("BtPower".to_string(), Some(vec![kv("enabled", "true")])));
    let other = bt_request(&BtArgs { action: BtAction::Power { state: "yes".into() } });
    assert_eq!(rpc(&other).1.unwrap(), vec![kv("enabled", "false")]);
}

#[test]
fn bluetooth_trust_and_alias() {
    let c = bt_request(&BtArgs { action: BtAction::Trust { address: "AA:BB".into(), trusted: "on".into() } });
    assert_eq!(rpc(&c), ("BtTrust".to_string(), Some(vec![kv("address", "'AA:BB'"), kv("trusted", "true")])));
    let c = bt_request(&BtArgs { action: BtAction::Alias { address: "AA".into(), alias: "Phone".into() } });
    assert_eq!(rpc(&c), ("BtAlias".to_string(), Some(vec![kv("address", "'AA'"), kv("alias", "'Phone'")])));
    let c = bt_request(&BtArgs { action: BtAction::List });
    assert_eq!(rpc(&c), ("BtStatus".to_string(), Some(vec![])));
}

#[test]
fn network_power_accepts_on_true_one() {
    for (s, want) in [("on", "true"), ("true", "true"), ("1", "true"), ("off", "false"), ("ON", "false")] {
        let c = net_request(&NetArgs { action: NetAction::Power { state: s.into() } });
        assert_eq!(rpc(&c), ("NetPower".to_string(), Some(vec![kv("on", want)])));
    }
}

#[test]
fn wifi_connect_sends_null_password() {
    let c = net_request(&NetArgs {
        action: NetAction::Wifi { action: WifiAction::Connect { ssid: "home".into(), password: None } },
    });
    assert_eq!(rpc(&c), ("NetWifiConnect".to_string(), Some(vec![kv("ssid", "'home'"), kv("password", "null")])));
}

#[test]
fn hotspot_start_sends_only_given_options() {
    let c = net_request(&NetArgs {
        action: NetAction::Hotspot {
            action: HotspotAction::Start {
                ssid: "Crawl-Hotspot".into(),
                password: None,
                band: Some("5GHz".into()),
                channel: Some(36),
                backend: None,
            },
        },
    });
    assert_eq!(
        rpc(&c),
        ("NetHotspotStart".to_string(), Some(vec![kv("ssid", "'Crawl-Hotspot'"), kv("band", "'5GHz'"), kv("channel", "36")]))
    );
}

#[test]
fn ethernet_connect_names_the_interface() {
    let c = net_request(&NetArgs { action: NetAction::Eth { action: EthAction::Connect { iface: Some("eth0".into()) } } });
    assert_eq!(rpc(&c), ("NetEthConnect".to_string(), Some(vec![kv("interface", "'eth0'")])));
    let c = net_request(&NetArgs { action: NetAction::List });
    assert_eq!(rpc(&c).0, "NetStatus");
}

#[test]
fn display_requests() {
    let c = display_request(&DisplayArgs { action: DisplayAction::Brightness });
    assert_eq!(rpc(&c), ("BrightnessGet".to_string(), None));
    let c = display_request(&DisplayArgs { action: DisplayAction::BrightnessSet { value: 70 } });
    assert_eq!(rpc(&c), ("BrightnessSet".to_string(), Some(vec![kv("value", "70")])));
    let c = display_request(&DisplayArgs { action: DisplayAction::BrightnessSet { value: 3_000_000_000 } });
    assert_eq!(rpc(&c).1.unwrap(), vec![kv("value", &(3_000_000_000u32 as i32).to_string())]);
    let c = display_request(&DisplayArgs { action: DisplayAction::BrightnessDec { value: 5 } });
    assert_eq!(rpc(&c), ("BrightnessDec".to_string(), Some(vec![kv("value", "5")])));
}

#[test]
fn wallpaper_set_and_get_requests() {
    let c = display_request(&DisplayArgs {
        action: DisplayAction::WallpaperSet {
            path: "/w.png".into(),
            monitor: Some("DP-1".into()),
            mode: "fill".into(),
            transition: None,
            fps: 30,
        },
    });
    assert_eq!(
        rpc(&c),
        ("WallpaperSet".to_string(), Some(vec![kv("path", "'/w.png'"), kv("mode", "'fill'"), kv("monitor", "'DP-1'")]))
    );
    let c = display_request(&DisplayArgs { action: DisplayAction::WallpaperGet { monitor: None } });
    assert_eq!(rpc(&c), ("WallpaperGet".to_string(), Some(vec![kv("monitor", "'*'")])));
}

#[test]
fn daemon_steps() {
    match daemon_step(&DaemonArgs { action: DaemonAction::Restart }) {
        DaemonStep::Service { verb } => assert_eq!(verb, "restart"),
        _ => panic!("expected a service step"),
    }
    match daemon_step(&DaemonArgs { action: DaemonAction::Status }) {
        DaemonStep::Query(c) => assert_eq!(rpc(&c), ("Health".to_string(), Some(vec![]))),
        _ => panic!("expected a query"),
    }
    assert_eq!(service_result_message("stop", true), "crawl daemon stoped");
    assert_eq!(service_result_message("restart", false), "failed to restart crawl daemon");
}

#[test]
fn sysinfo_request_has_null_params() {
    assert_eq!(rpc(&sysinfo_request()), ("Sysinfo".to_string(), None));
}

fn theme_args() -> ThemeArgs {
    ThemeArgs {
        set_custom: None,
        set_dynamic: None,
        wallpaper: None,
        no_generate: false,
        dark: false,
        light: false,
        regenerate: false,
        list: None,
        status: false,
    }
}

#[test]
fn theme_custom_wins_and_carries_the_variant() {
    let mut a = theme_args();
    a.set_custom = Some("mocha".into());
    a.light = true;
    a.regenerate = true;
    match theme_request(&a) {
        CliCall::Post { path, body } => {
            assert_eq!(path, "/theme/custom");
            let b: Vec<(String, String)> = body.iter().map(|p: &Param| (p.key.clone(), show(&p.value))).collect();
            assert_eq!(b, vec![kv("name", "'mocha'"), kv("variant", "'light'")]);
        }
        _ => panic!("expected a post"),
    }
}

#[test]
fn theme_list_and_status_paths() {
    let mut a = theme_args();
    a.list = Some("current".into());
    match theme_request(&a) {
        CliCall::Get { path } => assert_eq!(path, "/theme/list"),
        _ => panic!("expected a get"),
    }
    a.list = Some("light".into());
    match theme_request(&a) {
        CliCall::Get { path } => assert_eq!(path, "/theme/list?variant=light"),
        _ => panic!("expected a get"),
    }
    match theme_request(&theme_args()) {
        CliCall::Get { path } => assert_eq!(path, "/theme/status"),
        _ => panic!("expected a get"),
    }
}

#[test]
fn theme_dark_switches_the_variant() {
    let mut a = theme_args();
    a.dark = true;
    match theme_request(&a) {
        CliCall::Post { path, body } => {
            assert_eq!(path, "/theme/variant");
            assert_eq!(body.len(), 1);
            assert_eq!(show(&body[0].value), "'dark'");
        }
        _ => panic!("expected a post"),
    }
}

#[test]
fn updater_args_put_dry_run_first() {
    let a = UpdateArgs { pass_through: vec!["--force".into()], dry_run: true };
    assert_eq!(updater_args(&a), vec!["--dry-run".to_string(), "--force".to_string()]);
    let b = UpdateArgs { pass_through: vec!["x".into()], dry_run: false };
    assert_eq!(updater_args(&b), vec!["x".to_string()]);
}

#[test]
fn installed_version_reads_pacman_output() {
    let out = "Name            : crawl\nVersion         : 0.3.1-1\nDescription     : x\n";
    assert_eq!(installed_version(out), Some("0.3.1-1".to_string()));
    assert_eq!(installed_version("Name : crawl\n"), None);
    assert_eq!(installed_version("Version without colon\nVersion : 1\n"), None);
    assert_eq!(installed_version("Version :   \nVersion : 2.0\n"), Some("2.0".to_string()));
}

#[test]
fn request_params_start_with_the_method() {
    let ps = vec![
        Param { key: "ssid".into(), value: ParamValue::Str("home".into()) },
        Param { key: "method".into(), value: ParamValue::Str("other".into()) },
        Param { key: "ssid".into(), value: ParamValue::Str("work".into()) },
    ];
    let r = request_params("NetWifiConnect", &Some(ps));
    let shown: Vec<(String, String)> = r.iter().map(|p| (p.key.clone(), show(&p.value))).collect();
    assert_eq!(shown, vec![kv("method", "'other'"), kv("ssid", "'work'")]);
    let r = request_params("Ping", &None);
    assert_eq!(r.len(), 1);
    assert_eq!(show(&r[0].value), "'Ping'");
}

#[test]
fn daemon_error_text() {
    assert_eq!(daemon_error_message("boom"), "daemon error: boom");
}

#[test]
fn wallpaper_table_rows() {
    let report = WallpaperReport {
        current: Some("/home/me/Pictures/wallpapers/very-long-name.png".to_string()),
        per_monitor_mode: true,
        per_monitor: vec![("DP-1".to_string(), Some("/a.png".to_string())), ("HDMI-A-1".to_string(), None)],
    };
    let rows = wallpaper_rows(&report);
    assert_eq!(
        rows,
        vec![
            vec!["Default".to_string(), "/home/me/Pictures/wallpapers/…".to_string()],
            vec!["Mode".to_string(), "Per-monitor".to_string()],
            vec!["DP-1".to_string(), "/a.png".to_string()],
            vec!["HDMI-A-1".to_string(), "-".to_string()],
        ]
    );
    let empty = WallpaperReport { current: None, per_monitor_mode: false, per_monitor: vec![] };
    assert!(wallpaper_rows(&empty).is_empty());
}
