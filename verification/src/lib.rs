//! Verified core of the crawl system-services stack: IPC data types,
//! request routing, clipboard history, wallpaper state, NetworkManager
//! state diffing, config-file editing, framing and pixel conversions.

pub mod text;
pub mod ipc_types;
pub mod events;
pub mod network;
pub mod config_file;
pub mod clipboard;
pub mod named_map;
pub mod wallpaper;
pub mod transition;
pub mod framing;
pub mod format;
pub mod theme;
pub mod client;
pub mod sysmon;
pub mod procs;
pub mod proc_order;
pub mod canvas;
pub mod image_ops;
pub mod image_cache;
pub mod cli;
pub mod sysinfo_view;
pub mod cli_tables;
pub mod rpc;
pub mod api_errors;
pub mod backend;
pub mod surfaces;
pub mod daemon_config;
pub mod nm_devices;
pub mod disks;
pub mod media;
