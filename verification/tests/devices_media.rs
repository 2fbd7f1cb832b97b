use crawl::disks::{block_device, is_listed, listed_devices, BlockDevice, BlockReading};
use crawl::media::{
    build_player_info, extract_i64, extract_string, extract_string_list, is_player_bus, playback_status,
    player_change, player_name, MediaError, MetaValue, PlaybackStatus, PlayerChange, PlayerReading,
};

fn reading(device: &[u8], size: u64, mounts: Vec<Vec<u8>>) -> BlockReading {
    BlockReading {
        device: device.to_vec(),
        label: String::new(),
        size_bytes: size,
        id_type: "ext4".to_string(),
        mount_points: mounts,
    }
}

#[test]
fn block_device_trims_trailing_nuls() {
    let d = block_device(&reading(b"/dev/sda1\0\0", 5_000_000, vec![b"/mnt/usb\0".to_vec(), b"/other\0".to_vec()]));
    assert_eq!(d.device, "/dev/sda1");
    assert_eq!(d.label, None);
    assert_eq!(d.filesystem, Some("ext4".to_string()));
    assert_eq!(d.mount_point, Some("/mnt/usb".to_string()));
    assert!(d.mounted);
    assert!(!d.removable);
    assert_eq!(d.size_bytes, 5_000_000);
}

#[test]
fn block_device_without_mount_points_is_unmounted() {
    let mut r = reading(b"\0/dev/sdb\0", 10, vec![]);
    r.label = "BACKUP".to_string();
    r.id_type = String::new();
    let d = block_device(&r);
    // Only trailing NULs go.
    assert_eq!(d.device, "\0/dev/sdb");
    assert_eq!(d.label, Some("BACKUP".to_string()));
    assert_eq!(d.filesystem, None);
    assert_eq!(d.mount_point, None);
    assert!(!d.mounted);
}

fn dev(node: &str, size: u64) -> BlockDevice {
    BlockDevice {
        device: node.to_string(),
        label: None,
        size_bytes: size,
        filesystem: None,
        mount_point: None,
        mounted: false,
        removable: false,
    }
}

#[test]
fn listing_skips_small_devices_and_loop_names() {
    assert!(is_listed(&dev("/dev/sda", 1_048_577)));
    assert!(!is_listed(&dev("/dev/sda", 1_048_576)));
    assert!(!is_listed(&dev("/dev/loop", 9_000_000)));
    // A numbered loop device does not end in `loop`.
    assert!(is_listed(&dev("/dev/loop0", 9_000_000)));
    let shown = listed_devices(&vec![dev("/dev/a", 2_000_000), dev("/dev/b", 10), dev("/dev/c", 3_000_000)]);
    let names: Vec<&str> = shown.iter().map(|d| d.device.as_str()).collect();
    assert_eq!(names, vec!["/dev/a", "/dev/c"]);
}

#[test]
fn playback_status_names() {
    assert_eq!(playback_status("Playing"), PlaybackStatus::Playing);
    assert_eq!(playback_status("Paused"), PlaybackStatus::Paused);
    assert_eq!(playback_status("Stopped"), PlaybackStatus::Stopped);
    assert_eq!(playback_status("playing"), PlaybackStatus::Stopped);
}

#[test]
fn player_name_prefers_identity_then_trims_prefixes() {
    assert_eq!(player_name(Some("Spotify".to_string()), "org.mpris.MediaPlayer2.spotify"), "Spotify");
    assert_eq!(player_name(None, "org.mpris.MediaPlayer2.vlc"), "vlc");
    assert_eq!(player_name(None, "org.mpris.MediaPlayer2.org.mpris.MediaPlayer2.x"), "x");
    assert_eq!(player_name(None, "com.example.player"), "com.example.player");
}

#[test]
fn player_bus_changes() {
    assert!(is_player_bus("org.mpris.MediaPlayer2.mpv"));
    assert!(!is_player_bus("org.freedesktop.DBus"));
    assert_eq!(player_change("org.mpris.MediaPlayer2.mpv", "", ":1.42"), PlayerChange::Appeared);
    assert_eq!(player_change("org.mpris.MediaPlayer2.mpv", ":1.42", ""), PlayerChange::Vanished);
    assert_eq!(player_change("org.mpris.MediaPlayer2.mpv", ":1.1", ":1.2"), PlayerChange::Unchanged);
    assert_eq!(player_change("org.example", "", ":1.2"), PlayerChange::Unchanged);
}

fn metadata() -> Vec<(String, MetaValue)> {
    vec![
        ("xesam:title".to_string(), MetaValue::Text("Song".to_string())),
        ("xesam:artist".to_string(), MetaValue::Other),
        ("mpris:length".to_string(), MetaValue::Int(180_000_000)),
        ("xesam:album".to_string(), MetaValue::Int(3)),
    ]
}

#[test]
fn metadata_is_read_by_type() {
    let m = metadata();
    assert_eq!(extract_string(&m, "xesam:title"), Some("Song".to_string()));
    assert_eq!(extract_string_list(&m, "xesam:artist"), None);
    assert_eq!(extract_string(&m, "xesam:album"), None);
    assert_eq!(extract_string(&m, "missing"), None);
    assert_eq!(extract_i64(&m, "mpris:length"), Some(180_000_000));
    assert_eq!(extract_i64(&m, "xesam:title"), None);
}

#[test]
fn player_report_from_readings() {
    let p = build_player_info(PlayerReading {
        bus_name: "org.mpris.MediaPlayer2.mpv".to_string(),
        status: "Paused".to_string(),
        metadata: metadata(),
        identity: None,
        position_us: Some(42),
        can_play: true,
        can_pause: false,
        can_next: true,
        can_prev: false,
    });
    assert_eq!(p.player_name, "mpv");
    assert_eq!(p.bus_name, "org.mpris.MediaPlayer2.mpv");
    assert_eq!(p.status, PlaybackStatus::Paused);
    assert_eq!(p.title, Some("Song".to_string()));
    assert_eq!(p.artist, None);
    assert_eq!(p.album, None);
    assert_eq!(p.art_url, None);
    assert_eq!(p.position_us, Some(42));
    assert_eq!(p.length_us, Some(180_000_000));
    assert!(p.can_play && !p.can_pause && p.can_next && !p.can_prev);
}

#[test]
fn media_error_texts() {
    assert_eq!(MediaError::DBus("boom".to_string()).message(), "D-Bus error: boom");
    assert_eq!(MediaError::NoPlayer.message(), "no active player found");
    assert_eq!(MediaError::PlayerNotFound("vlc".to_string()).message(), "player not found: vlc");
}

#[test]
fn listing_twice_changes_nothing() {
    let all = vec![dev("/dev/a", 2_000_000), dev("/dev/loop", 5_000_000), dev("/dev/c", 7), dev("/dev/d", 9_000_000)];
    let once = listed_devices(&all);
    let twice = listed_devices(&once);
    let names = |v: &Vec<BlockDevice>| v.iter().map(|d| d.device.clone()).collect::<Vec<_>>();
    assert_eq!(names(&once), vec!["/dev/a".to_string(), "/dev/d".to_string()]);
    assert_eq!(names(&twice), names(&once));
    assert!(once.iter().all(is_listed));
}
