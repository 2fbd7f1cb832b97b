use crawl::api_errors::{audio_error, disk_error, missing_name, network_error, not_implemented, proc_error, DiskError};
use crawl::nm_devices::NetError;
use crawl::config_file::{lookup_config_value, set_config_value};
use crawl::daemon_config::{validate, AudioError, ConfigChecks, DaemonConfig};
use crawl::framing::{decode_frame, encode_frame, frame_header, frame_len};
use crawl::proc_order::{key_order, name_order};
use crawl::procs::{kill_outcome, kill_signal, name_matches, KillSignal, ProcError};
use crawl::rpc::{
    builtin_method, rest_mute_call, rest_volume_call, invalid_params, invalid_request, BuiltinMethod, read_step, request_step, server_audio_call, service_audio_call, service_failure,
    subscribed_after, AudioCall, LineStep, RequestStep,
};
use crawl::sysmon::{disk_status_from, disk_statuses, mem_status_from_bytes, DiskReading, SysmonError};

#[test]
fn config_get_reads_the_section_key() {
    let content = "[daemon]\nlog_level = \"info\"\n[sysmon]\npoll_interval_ms = 1000\n";
    assert_eq!(lookup_config_value(content, "sysmon.poll_interval_ms"), Some("1000".to_string()));
    assert_eq!(lookup_config_value(content, "daemon.log_level"), Some("\"info\"".to_string()));
    assert_eq!(lookup_config_value(content, "daemon.socket_path"), None);
}

#[test]
fn config_set_rewrites_the_line() {
    let content = "[daemon]\nlog_level = \"info\"\n[sysmon]\npoll_interval_ms = 1000\n";
    let out = set_config_value(content, "sysmon.poll_interval_ms", "500").unwrap();
    assert_eq!(out, "[daemon]\nlog_level = \"info\"\n[sysmon]\npoll_interval_ms = 500");
    assert_eq!(lookup_config_value(&out, "sysmon.poll_interval_ms"), Some("500".to_string()));
    assert_eq!(set_config_value(content, "audio.server", "1"), None);
}

#[test]
fn frames_round_trip() {
    assert_eq!(frame_header(258), [0, 0, 1, 2]);
    assert_eq!(frame_len([0, 0, 1, 2]), 258);
    let f = encode_frame(b"hi");
    assert_eq!(f, vec![0, 0, 0, 2, b'h', b'i']);
    assert_eq!(decode_frame(&f), Some(b"hi".to_vec()));
    assert_eq!(decode_frame(&f[..5]), None);
    assert_eq!(decode_frame(&[0, 0]), None);
}

#[test]
fn request_lines() {
    match read_step("  {\"method\":\"Ping\"}\n") {
        LineStep::Parse(t) => assert_eq!(t, "{\"method\":\"Ping\"}"),
        LineStep::Skip => panic!("expected a request"),
    }
    assert!(matches!(read_step(" \t\n"), LineStep::Skip));
    assert_eq!(request_step("Subscribe"), RequestStep::Subscribe);
    assert_eq!(request_step("Ping"), RequestStep::Execute);
    assert!(subscribed_after(false, RequestStep::Subscribe));
    assert!(subscribed_after(true, RequestStep::Execute));
    assert!(!subscribed_after(false, RequestStep::Execute));
}

#[test]
fn rpc_errors() {
    let e = invalid_request();
    assert_eq!((e.code, e.message.as_str()), (-32600, "Invalid JSON-RPC request"));
    let e = invalid_params("missing field `key`");
    assert_eq!((e.code, e.message.as_str()), (-32602, "Invalid params: missing field `key`"));
    let e = service_failure("down".to_string());
    assert_eq!((e.code, e.message.as_str()), (-32000, "down"));
}

#[test]
fn server_audio_actions() {
    assert_eq!(server_audio_call(&Some("sinks".into()), None).unwrap(), AudioCall::ListSinks);
    assert_eq!(server_audio_call(&Some("volume".into()), Some(40)).unwrap(), AudioCall::SetVolume(40));
    assert_eq!(server_audio_call(&Some("input_volume".into()), Some(5)).unwrap(), AudioCall::SetInputVolume(5));
    assert_eq!(server_audio_call(&Some("mute".into()), None).unwrap(), AudioCall::ToggleMute);
    assert_eq!(server_audio_call(&Some("unmute".into()), None).unwrap(), AudioCall::UnmuteOutput);
    let e = server_audio_call(&Some("volume".into()), None).unwrap_err();
    assert_eq!((e.code, e.message.as_str()), (-32602, "percent required"));
    let e = server_audio_call(&None, None).unwrap_err();
    assert_eq!((e.code, e.message.as_str()), (-32602, "unknown action"));
}

#[test]
fn service_audio_actions() {
    assert_eq!(service_audio_call(&None, None).unwrap(), AudioCall::ListSinks);
    assert_eq!(service_audio_call(&Some("volume".into()), None).unwrap(), AudioCall::SetVolume(0));
    assert_eq!(service_audio_call(&Some("volume".into()), Some(0x1_0000_0007)).unwrap(), AudioCall::SetVolume(7));
    assert_eq!(service_audio_call(&Some("unmute".into()), None).unwrap(), AudioCall::UnmuteOutput);
    assert_eq!(service_audio_call(&Some("mute".into()), None).unwrap(), AudioCall::ToggleOutputMute);
    let e = service_audio_call(&Some("loud".into()), None).unwrap_err();
    assert_eq!((e.code, e.message.as_str()), (-32601, "Unknown audio action: loud"));
}

#[test]
fn api_error_answers() {
    let e = proc_error(ProcError::NotFound(7), 42);
    assert_eq!((e.status, e.domain.as_str(), e.code.as_str(), e.message.as_str()), (404, "proc", "not_found", "process not found: PID 42"));
    let e = proc_error(ProcError::PermissionDenied(1), 1);
    assert_eq!((e.status, e.message.as_str()), (403, "permission denied killing PID 1"));
    let e = proc_error(ProcError::SignalFailed("kill(3) failed".into()), 3);
    assert_eq!((e.status, e.code.as_str(), e.message.as_str()), (500, "signal_failed", "kill(3) failed"));
    let e = audio_error(AudioError::SinkNotFound("hdmi".into()));
    assert_eq!((e.status, e.message.as_str()), (404, "sink not found: hdmi"));
    let e = audio_error(AudioError::Connection("refused".into()));
    assert_eq!((e.status, e.code.as_str()), (503, "connection_failed"));
    let e = audio_error(AudioError::OperationFailed("x".into()));
    assert_eq!(e.status, 500);
    let e = disk_error(DiskError::NotFound("/dev/sdz".into()));
    assert_eq!((e.status, e.message.as_str()), (404, "device not found: /dev/sdz"));
    assert_eq!(disk_error(DiskError::MountFailed("m".into())).code, "mount_failed");
    assert_eq!(disk_error(DiskError::UnmountFailed("u".into())).code, "unmount_failed");
    assert_eq!(disk_error(DiskError::DBus("bus".into())).message, "bus");
    let e = missing_name();
    assert_eq!((e.status, e.message.as_str()), (400, "query param 'name' is required"));
    let e = not_implemented("media");
    assert_eq!((e.status, e.domain.as_str(), e.code.as_str()), (501, "media", "not_implemented"));
}

#[test]
fn error_texts() {
    assert_eq!(ProcError::NotFound(12).message(), "process not found: PID 12");
    assert_eq!(ProcError::SignalFailed("x".into()).message(), "signal failed: x");
    assert_eq!(AudioError::Connection("no server".into()).message(), "PulseAudio connection failed: no server");
    assert_eq!(SysmonError::ReadError("io".into()).message(), "failed to read system info: io");
}

#[test]
fn kill_outcomes() {
    assert_eq!(kill_outcome(9, None), Err(ProcError::NotFound(9)));
    assert_eq!(kill_outcome(9, Some(None)), Err(ProcError::SignalFailed("kill(9) failed".into())));
    assert_eq!(kill_outcome(9, Some(Some(false))), Ok(()));
    assert_eq!(kill_signal(true), KillSignal::Kill);
    assert_eq!(kill_signal(false), KillSignal::Term);
}

#[test]
fn process_names_match_case_insensitively() {
    assert!(name_matches("Firefox", "fire"));
    assert!(name_matches("firefox", "FOX"));
    assert!(!name_matches("firefox", "chrome"));
    assert!(name_matches("anything", ""));
}

#[test]
fn memory_is_reported_in_kib() {
    let m = mem_status_from_bytes(8192, 4097, 2047, 0, 1024);
    assert_eq!((m.total_kb, m.used_kb, m.available_kb, m.swap_total_kb, m.swap_used_kb), (8, 4, 1, 0, 1));
}

#[test]
fn disk_used_space_saturates() {
    let r = DiskReading { mount: "/".into(), total_space: 100, available_space: 30, file_system: "ext4".into() };
    let d = disk_status_from(&r);
    assert_eq!((d.mount.as_str(), d.total_bytes, d.used_bytes, d.available_bytes), ("/", 100, 70, 30));
    assert_eq!(d.filesystem, Some("ext4".to_string()));
    let odd = DiskReading { mount: "/x".into(), total_space: 10, available_space: 20, file_system: "".into() };
    assert_eq!(disk_status_from(&odd).used_bytes, 0);
    let all = disk_statuses(&vec![r, odd]);
    assert_eq!(all.len(), 2);
    assert_eq!(all[1].mount, "/x");
}

#[test]
fn daemon_config_defaults() {
    let c = DaemonConfig::with_runtime(Some("/run/user/7"), 7);
    assert_eq!((c.log_level.as_str(), c.socket_path.as_str()), ("info", "/run/user/7/crawl.sock"));
    let c = DaemonConfig::with_runtime(None, 1000);
    assert_eq!(c.socket_path, "/run/user/1000/crawl.sock");
}

#[test]
fn config_checks_in_order() {
    let ok = ConfigChecks {
        socket_path: "/s".into(),
        cpu_spike_threshold_in_range: true,
        mem_pressure_threshold_in_range: true,
        poll_interval_ms: 1000,
        processes_top: 30,
        processes_top_interval_ms: 1000,
    };
    assert_eq!(validate(&ok), Ok(()));
    let mut bad = ok.clone();
    bad.socket_path = String::new();
    bad.poll_interval_ms = 0;
    assert_eq!(validate(&bad), Err("daemon.socket_path cannot be empty".to_string()));
    let mut bad = ok.clone();
    bad.mem_pressure_threshold_in_range = false;
    assert_eq!(validate(&bad), Err("sysmon.mem_pressure_threshold must be 0.0-100.0".to_string()));
    let mut bad = ok.clone();
    bad.cpu_spike_threshold_in_range = false;
    assert_eq!(validate(&bad), Err("sysmon.cpu_spike_threshold must be 0.0-100.0".to_string()));
    let mut bad = ok.clone();
    bad.poll_interval_ms = 0;
    assert_eq!(validate(&bad), Err("sysmon.poll_interval_ms must be > 0".to_string()));
    let mut bad = ok.clone();
    bad.processes_top = 0;
    assert_eq!(validate(&bad), Err("processes.top must be > 0".to_string()));
    let mut bad = ok;
    bad.processes_top_interval_ms = 0;
    assert_eq!(validate(&bad), Err("processes.top_interval_ms must be > 0".to_string()));
}

#[test]
fn network_failures_are_bad_requests() {
    let e = network_error(&NetError::NotFound("wifi device".to_string()));
    assert_eq!(e.status, 400);
    assert_eq!(e.domain, "network");
    assert_eq!(e.code, "network_error");
    assert_eq!(e.message, "not found: wifi device");
    let e = network_error(&NetError::Unavailable);
    assert_eq!(e.message, "NetworkManager unavailable");
}

#[test]
fn process_orders_are_stable_and_cut() {
    let mem = vec![5u64, 9, 5, 1, 9];
    assert_eq!(key_order(&mem, true, 10), vec![1, 4, 0, 2, 3]);
    assert_eq!(key_order(&mem, true, 2), vec![1, 4]);
    assert_eq!(key_order(&mem, false, 3), vec![3, 0, 2]);
    assert!(key_order(&mem, false, 0).is_empty());
    let names: Vec<String> = vec!["zsh".into(), "bash".into(), "Xorg".into(), "bash".into(), "ba".into()];
    assert_eq!(name_order(&names, 10), vec![2, 4, 1, 3, 0]);
    assert_eq!(name_order(&names, 1), vec![2]);
}

#[test]
fn builtin_methods_and_unknown_ones() {
    assert_eq!(builtin_method("Ping").unwrap(), BuiltinMethod::Ping);
    assert_eq!(builtin_method("Health").unwrap(), BuiltinMethod::Health);
    assert_eq!(builtin_method("Subscribe").unwrap(), BuiltinMethod::Subscribe);
    let e = builtin_method("Frobnicate").unwrap_err();
    assert_eq!((e.code, e.message.as_str()), (-32601, "Unknown method: Frobnicate"));
}

#[test]
fn rest_audio_requests_pick_the_device() {
    assert_eq!(rest_volume_call(&Some("input".into()), 30), AudioCall::SetInputVolume(30));
    assert_eq!(rest_volume_call(&Some("speakers".into()), 30), AudioCall::SetVolume(30));
    assert_eq!(rest_volume_call(&None, 5), AudioCall::SetVolume(5));
    assert_eq!(rest_mute_call(&Some("input".into())), AudioCall::ToggleInputMute);
    assert_eq!(rest_mute_call(&None), AudioCall::ToggleOutputMute);
}
