//! Events that the daemon broadcasts to its subscribers, one enum per domain.

use vstd::prelude::*;
use crate::ipc_types::{
    ActiveEthernetDetails, ActiveWifiDetails, AudioDevice, BtDevice, EthernetInterface,
    HotspotClient, HotspotStatus, NetMode, WallpaperBackend, WifiNetwork,
};

verus! {

#[derive(Debug, Clone)]
pub enum AudioEvent {
    VolumeChanged { device: AudioDevice },
    MuteToggled { device: AudioDevice },
    DefaultSinkChanged { device: AudioDevice },
    DefaultSourceChanged { device: AudioDevice },
    DeviceAdded { device: AudioDevice },
    DeviceRemoved { id: u32 },
}

#[derive(Debug, Clone)]
pub enum BtEvent {
    DeviceDiscovered { device: BtDevice },
    DeviceConnected { device: BtDevice },
    DeviceDisconnected { address: String },
    DeviceRemoved { address: String },
    AdapterPowered { on: bool },
    ScanStarted,
    ScanStopped,
}

#[derive(Debug, Clone)]
pub enum NetEvent {
    Connected { ssid: Option<String>, iface: String },
    Disconnected { iface: String },
    IpChanged { iface: String, ip: String },
    WifiEnabled,
    WifiDisabled,
    WifiScanStarted,
    WifiScanFinished,
    WifiListUpdated { networks: Vec<WifiNetwork> },
    ActiveWifiDetailsChanged { details: ActiveWifiDetails },
    EthernetInterfacesChanged { interfaces: Vec<EthernetInterface> },
    ActiveEthernetDetailsChanged { details: ActiveEthernetDetails },
    ModeChanged { mode: NetMode },
    ConnectivityChanged { state: String },
    HotspotStarted { status: HotspotStatus },
    HotspotStopped,
    HotspotStatusChanged { status: HotspotStatus },
    HotspotClientJoined { client: HotspotClient },
    HotspotClientLeft { mac: String },
}

#[derive(Debug, Clone, Copy, PartialEq, Eq)]
pub enum SysinfoEvent {
    Changed,
}

#[derive(Debug, Clone)]
pub enum DaemonEvent {
    Ready,
    Started,
    Stopping,
    DomainError { domain: String, message: String },
}

#[derive(Debug, Clone)]
pub enum WallpaperEvent {
    Changed { screen: String, path: String },
    BackendChanged { backend: WallpaperBackend },
    BackendNotAvailable { backend: WallpaperBackend },
    Error { message: String },
}

} // verus!
