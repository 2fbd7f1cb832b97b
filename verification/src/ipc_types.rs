//! Shared data types of the IPC protocol: what the daemon reports about the
//! system, audio, bluetooth, network, wallpaper and memory/disk usage.

use vstd::prelude::*;

verus! {

// ── System information ───────────────────────────────────────────────────────

#[derive(Debug, Clone)]
pub struct CompositorInfo {
    pub compositor_type: String,
    pub name: String,
    pub capabilities: CompositorCapabilities,
}

#[derive(Debug, Clone)]
pub struct CompositorCapabilities {
    pub layer_shell: bool,
    pub blur: bool,
    pub screencopy: bool,
    pub wallpaper_control: bool,
    pub dpms: bool,
    pub socket_ipc: bool,
    pub http_ipc: bool,
}

#[derive(Debug, Clone)]
pub struct OsInfo {
    pub name: String,
    pub kernel: String,
    pub pretty_name: String,
    pub hostname: String,
    pub id: String,
}

#[derive(Debug, Clone)]
pub struct SessionInfo {
    pub session_type: String,
    pub user: String,
    pub seat: Option<String>,
    pub home: String,
    pub shell: Option<String>,
    pub terminal: Option<String>,
    pub uptime_seconds: Option<u64>,
}

#[derive(Debug, Clone)]
pub struct HardwareInfo {
    pub cpu_model: String,
    pub cpu_cores: usize,
    pub memory_total: u64,
    pub gpu: Option<String>,
    pub disk_total: Option<u64>,
    pub disk_used: Option<u64>,
}

// ── Audio ────────────────────────────────────────────────────────────────────

#[derive(Debug, Clone, Copy, PartialEq, Eq)]
pub enum AudioDeviceKind {
    Sink,
    Source,
}

#[derive(Debug, Clone)]
pub struct AudioDevice {
    pub id: u32,
    pub name: String,
    pub description: Option<String>,
    pub kind: AudioDeviceKind,
    pub volume_percent: u32,
    pub muted: bool,
    pub is_default: bool,
}

// ── Bluetooth ────────────────────────────────────────────────────────────────

#[derive(Debug, Clone)]
pub struct BtDevice {
    pub address: String,
    pub name: Option<String>,
    pub connected: bool,
    pub paired: bool,
    pub rssi: Option<i16>,
    pub battery: Option<u8>,
    pub icon: Option<String>,
}

#[derive(Debug, Clone)]
pub struct BtStatus {
    pub powered: bool,
    pub discovering: bool,
    pub devices: Vec<BtDevice>,
}

// ── Network ──────────────────────────────────────────────────────────────────

#[derive(Debug, Clone)]
pub struct NetInterface {
    pub name: String,
    pub state: String,
    pub ip4: Option<String>,
    pub ip6: Option<String>,
    pub mac: Option<String>,
}

#[derive(Debug, Clone)]
pub struct WifiNetwork {
    pub ssid: String,
    pub signal: u8,
    pub secured: bool,
    pub connected: bool,
    pub existing: bool,
    pub cached: bool,
    pub password_required: bool,
    pub security: String,
    pub frequency_mhz: Option<u32>,
    pub bssid: Option<String>,
    pub last_seen_ms: Option<u64>,
}

#[derive(Debug, Clone)]
pub struct ActiveWifiDetails {
    pub ifname: Option<String>,
    pub ssid: Option<String>,
    pub signal: Option<u8>,
    pub frequency_mhz: Option<u32>,
    pub band: Option<String>,
    pub channel: Option<u32>,
    pub rate_mbps: Option<u32>,
    pub ip4: Option<String>,
    pub ip6: Vec<String>,
    pub gateway4: Option<String>,
    pub gateway6: Vec<String>,
    pub dns4: Vec<String>,
    pub dns6: Vec<String>,
    pub security: Option<String>,
    pub bssid: Option<String>,
    pub mac: Option<String>,
}

#[derive(Debug, Clone)]
pub struct EthernetInterface {
    pub ifname: String,
    pub connected: bool,
    pub mac: Option<String>,
    pub ip4: Option<String>,
    pub ip6: Vec<String>,
}

#[derive(Debug, Clone)]
pub struct ActiveEthernetDetails {
    pub ifname: String,
    pub speed: Option<String>,
    pub ipv4: Option<String>,
    pub ipv6: Vec<String>,
    pub gateway4: Option<String>,
    pub gateway6: Vec<String>,
    pub dns4: Vec<String>,
    pub dns6: Vec<String>,
    pub mac: Option<String>,
}

/// How the wireless device operates: client, access point, or not known.
#[derive(Debug, Clone, Copy, PartialEq, Eq, Structural)]
pub enum NetMode {
    Station,
    Ap,
    Unknown,
}

#[derive(Debug, Clone)]
pub struct NetStatus {
    pub connectivity: String,
    pub wifi_enabled: bool,
    pub network_enabled: bool,
    pub wifi_available: bool,
    pub ethernet_available: bool,
    pub mode: NetMode,
    pub active_ssid: Option<String>,
    pub interfaces: Vec<NetInterface>,
}

// ── Hotspot ──────────────────────────────────────────────────────────────────

#[derive(Debug, Clone, Copy, PartialEq, Eq, Structural)]
pub enum HotspotBackend {
    NetworkManager,
    Hostapd,
}

impl Default for HotspotBackend {
    fn default() -> (r: Self)
        ensures
            r == HotspotBackend::NetworkManager,
    {
        HotspotBackend::NetworkManager
    }
}

#[derive(Debug, Clone)]
pub struct HotspotConfig {
    pub ssid: String,
    pub password: Option<String>,
    pub iface: Option<String>,
    pub band: Option<String>,
    pub channel: Option<u32>,
    pub backend: Option<HotspotBackend>,
}

#[derive(Debug, Clone, PartialEq, Eq)]
pub struct HotspotClient {
    pub mac: String,
    pub ip: Option<String>,
}

#[derive(Debug, Clone, PartialEq, Eq)]
pub struct HotspotStatus {
    pub active: bool,
    pub ssid: Option<String>,
    pub iface: Option<String>,
    pub band: Option<String>,
    pub channel: Option<u32>,
    pub clients: Vec<HotspotClient>,
    pub backend: HotspotBackend,
    pub supports_virtual_ap: bool,
}

// ── Wallpaper ────────────────────────────────────────────────────────────────

#[derive(Debug, Clone, Copy, PartialEq, Eq, Structural)]
pub enum WallpaperBackend {
    Awww,
    Unknown,
}

impl Default for WallpaperBackend {
    fn default() -> (r: Self)
        ensures
            r == WallpaperBackend::Unknown,
    {
        WallpaperBackend::Unknown
    }
}

#[derive(Debug, Clone)]
pub struct WallpaperMonitorState {
    pub name: String,
    pub current: Option<String>,
    pub transition: Option<String>,
}

#[derive(Debug, Clone)]
pub struct WallpaperStatus {
    pub backend: WallpaperBackend,
    pub backend_available: bool,
    pub monitors: Vec<WallpaperMonitorState>,
}

/// Options of a wallpaper change: the image, and optionally one monitor and a transition.
#[derive(Debug, Clone)]
pub struct WallpaperSetOptions {
    pub path: String,
    pub monitor: Option<String>,
    pub transition: Option<String>,
}

impl WallpaperSetOptions {
    /// Options that set `path` on every monitor with the default transition.
    pub fn new(path: String) -> (r: Self)
        ensures
            r.path == path,
            r.monitor is None,
            r.transition is None,
    {
        Self { path, monitor: None, transition: None }
    }

    /// The same options, restricted to one monitor.
    pub fn with_monitor(self, monitor: String) -> (r: Self)
        ensures
            r.path == self.path,
            r.monitor == Some(monitor),
            r.transition == self.transition,
    {
        let mut s = self;
        s.monitor = Some(monitor);
        s
    }

    /// The same options, with the named transition.
    pub fn with_transition(self, transition: String) -> (r: Self)
        ensures
            r.path == self.path,
            r.monitor == self.monitor,
            r.transition == Some(transition),
    {
        let mut s = self;
        s.transition = Some(transition);
        s
    }
}

// ── Memory, traffic and disks ────────────────────────────────────────────────

#[derive(Debug, Clone, Copy, PartialEq, Eq)]
pub struct MemStatus {
    pub total_kb: u64,
    pub used_kb: u64,
    pub available_kb: u64,
    pub swap_total_kb: u64,
    pub swap_used_kb: u64,
}

#[derive(Debug, Clone, Copy, PartialEq, Eq)]
pub struct NetTraffic {
    pub rx_bytes: u64,
    pub tx_bytes: u64,
    pub rx_bps: u64,
    pub tx_bps: u64,
}

#[derive(Debug, Clone)]
pub struct DiskStatus {
    pub mount: String,
    pub total_bytes: u64,
    pub used_bytes: u64,
    pub available_bytes: u64,
    pub filesystem: Option<String>,
}

} // verus!
