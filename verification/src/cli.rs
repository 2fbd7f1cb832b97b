//! The command-line client's commands and the request each one sends to the
//! daemon: a JSON-RPC method with its parameters, or an HTTP path.

use vstd::prelude::*;
use vstd::string::StringExecFns;
use crate::text::{chars_of, push_chars, range_starts_with, starts_with, str_eq, trim, trim_bounds};
use crate::config_file::{find_first, find_in, line_ranges, lines};

verus! {

// ── Requests ─────────────────────────────────────────────────────────────────

/// A parameter value as JSON holds it.
#[derive(Debug)]
pub enum ParamValue {
    Null,
    Bool(bool),
    Int(i64),
    Str(String),
}

/// A parameter value as the contracts see it.
pub enum ParamView {
    Null,
    Bool(bool),
    Int(int),
    Str(Seq<char>),
}

impl View for ParamValue {
    type V = ParamView;

    open spec fn view(&self) -> ParamView {
        match self {
            ParamValue::Null => ParamView::Null,
            ParamValue::Bool(b) => ParamView::Bool(*b),
            ParamValue::Int(i) => ParamView::Int(*i as int),
            ParamValue::Str(s) => ParamView::Str(s@),
        }
    }
}

/// One key of a JSON object of parameters.
#[derive(Debug)]
pub struct Param {
    pub key: String,
    pub value: ParamValue,
}

impl Clone for ParamValue {
    fn clone(&self) -> (r: Self)
        ensures
            r@ == self@,
    {
        match self {
            ParamValue::Null => ParamValue::Null,
            ParamValue::Bool(b) => ParamValue::Bool(*b),
            ParamValue::Int(i) => ParamValue::Int(*i),
            ParamValue::Str(s) => ParamValue::Str(s.clone()),
        }
    }
}

impl Clone for Param {
    fn clone(&self) -> (r: Self)
        ensures
            r@ == self@,
    {
        Param { key: self.key.clone(), value: self.value.clone() }
    }
}

impl View for Param {
    type V = (Seq<char>, ParamView);

    open spec fn view(&self) -> (Seq<char>, ParamView) {
        (self.key@, self.value@)
    }
}

/// The keys and values of a parameter object, in order.
pub open spec fn params_view(ps: Seq<Param>) -> Seq<(Seq<char>, ParamView)> {
    Seq::new(ps.len(), |i: int| ps[i]@)
}

/// A request to the daemon.
#[derive(Debug, Clone)]
pub enum CliCall {
    /// A JSON-RPC call; `None` parameters are sent as JSON `null`.
    Rpc { method: String, params: Option<Vec<Param>> },
    /// An HTTP `POST` of a JSON object.
    Post { path: String, body: Vec<Param> },
    /// An HTTP `GET`.
    Get { path: String },
}

/// A request as the contracts see it.
pub enum CallView {
    Rpc(Seq<char>, Option<Seq<(Seq<char>, ParamView)>>),
    Post(Seq<char>, Seq<(Seq<char>, ParamView)>),
    Get(Seq<char>),
}

impl View for CliCall {
    type V = CallView;

    open spec fn view(&self) -> CallView {
        match self {
            CliCall::Rpc { method, params } => CallView::Rpc(
                method@,
                match params {
                    Some(ps) => Some(params_view(ps@)),
                    None => None,
                },
            ),
            CliCall::Post { path, body } => CallView::Post(path@, params_view(body@)),
            CliCall::Get { path } => CallView::Get(path@),
        }
    }
}

/// An optional string as JSON holds it: the string, or `null`.
pub open spec fn opt_str_view(o: Option<String>) -> ParamView {
    match o {
        Some(s) => ParamView::Str(s@),
        None => ParamView::Null,
    }
}

/// A JSON-RPC call of `method` with the object `params`.
pub open spec fn rpc_view(method: Seq<char>, params: Seq<(Seq<char>, ParamView)>) -> CallView {
    CallView::Rpc(method, Some(params))
}

fn str_param(key: &str, v: &String) -> (p: Param)
    ensures
        p@ == (key@, ParamView::Str(v@)),
{
    Param { key: String::from_str(key), value: ParamValue::Str(v.clone()) }
}

fn opt_str_param(key: &str, v: &Option<String>) -> (p: Param)
    ensures
        p@ == (key@, opt_str_view(*v)),
{
    let value = match v {
        Some(s) => ParamValue::Str(s.clone()),
        None => ParamValue::Null,
    };
    Param { key: String::from_str(key), value }
}

fn bool_param(key: &str, b: bool) -> (p: Param)
    ensures
        p@ == (key@, ParamView::Bool(b)),
{
    Param { key: String::from_str(key), value: ParamValue::Bool(b) }
}

fn int_param(key: &str, i: i64) -> (p: Param)
    ensures
        p@ == (key@, ParamView::Int(i as int)),
{
    Param { key: String::from_str(key), value: ParamValue::Int(i) }
}

fn rpc0(method: &str) -> (c: CliCall)
    ensures
        c@ == rpc_view(method@, seq![]),
{
    let ps: Vec<Param> = Vec::new();
    let c = CliCall::Rpc { method: String::from_str(method), params: Some(ps) };
    assert(params_view(ps@) =~= seq![]);
    c
}

fn rpc1(method: &str, a: Param) -> (c: CliCall)
    ensures
        c@ == rpc_view(method@, seq![a@]),
{
    let mut ps: Vec<Param> = Vec::new();
    ps.push(a);
    let c = CliCall::Rpc { method: String::from_str(method), params: Some(ps) };
    assert(params_view(ps@) =~= seq![a@]);
    c
}

fn rpc2(method: &str, a: Param, b: Param) -> (c: CliCall)
    ensures
        c@ == rpc_view(method@, seq![a@, b@]),
{
    let mut ps: Vec<Param> = Vec::new();
    ps.push(a);
    ps.push(b);
    let c = CliCall::Rpc { method: String::from_str(method), params: Some(ps) };
    assert(params_view(ps@) =~= seq![a@, b@]);
    c
}

fn rpc_null(method: &str) -> (c: CliCall)
    ensures
        c@ == CallView::Rpc(method@, None),
{
    CliCall::Rpc { method: String::from_str(method), params: None }
}

/// An on/off argument: only `on` means on.
pub open spec fn is_on(state: Seq<char>) -> bool {
    state == "on"@
}

// ── Audio ────────────────────────────────────────────────────────────────────

pub struct AudioArgs {
    pub action: AudioAction,
}

pub enum AudioAction {
    /// Show audio status
    Status,
    /// List/set volume (0-100)
    Volume { value: Option<u32> },
    /// List/input control input devices (microphones)
    Input,
    /// Toggle mute
    Mute,
    /// Unmute
    Unmute,
    /// List all devices
    List,
}

/// The volume an `audio volume` command sets: the one given, else 50.
pub open spec fn volume_or_default(value: Option<u32>) -> u32 {
    match value {
        Some(v) => v,
        None => 50,
    }
}

/// The `Audio` call each audio command makes: the status and the device
/// list read the sinks, `input` the sources, and the others their action.
pub open spec fn audio_call(a: AudioAction) -> CallView {
    match a {
        AudioAction::Status => rpc_view("Audio"@, seq![("action"@, ParamView::Str("sinks"@))]),
        AudioAction::Volume { value } => rpc_view(
            "Audio"@,
            seq![("action"@, ParamView::Str("volume"@)), ("percent"@, ParamView::Int(volume_or_default(value) as int))],
        ),
        AudioAction::Input => rpc_view("Audio"@, seq![("action"@, ParamView::Str("sources"@))]),
        AudioAction::Mute => rpc_view("Audio"@, seq![("action"@, ParamView::Str("mute"@))]),
        AudioAction::Unmute => rpc_view("Audio"@, seq![("action"@, ParamView::Str("unmute"@))]),
        AudioAction::List => rpc_view("Audio"@, seq![("action"@, ParamView::Str("sinks"@))]),
    }
}

fn action_param(action: &str) -> (p: Param)
    ensures
        p@ == ("action"@, ParamView::Str(action@)),
{
    Param { key: String::from_str("action"), value: ParamValue::Str(String::from_str(action)) }
}

/// The request an audio command sends.
pub fn audio_request(args: &AudioArgs) -> (c: CliCall)
    ensures
        c@ == audio_call(args.action),
{
    match &args.action {
        AudioAction::Status => rpc1("Audio", action_param("sinks")),
        AudioAction::Volume { value } => {
            let vol: u32 = match value {
                Some(v) => *v,
                None => 50,
            };
            rpc2("Audio", action_param("volume"), int_param("percent", vol as i64))
        },
        AudioAction::Input => rpc1("Audio", action_param("sources")),
        AudioAction::Mute => rpc1("Audio", action_param("mute")),
        AudioAction::Unmute => rpc1("Audio", action_param("unmute")),
        AudioAction::List => rpc1("Audio", action_param("sinks")),
    }
}

// ── Bluetooth ────────────────────────────────────────────────────────────────

pub struct BtArgs {
    pub action: BtAction,
}

pub enum BtAction {
    /// List paired/known devices
    List,
    /// Start device discovery scan
    Scan,
    /// Show adapter status
    Status,
    /// Connect to a device by address
    Connect { address: String },
    /// Disconnect a device by address
    Disconnect { address: String },
    /// Power the adapter on or off
    Power { state: String },
    /// Set adapter discoverable on/off
    Discoverable { state: String },
    /// Set adapter pairable on/off
    Pairable { state: String },
    /// Set device alias (name)
    Alias { address: String, alias: String },
    /// Pair with a device by address
    Pair { address: String },
    /// Trust or untrust a device by address
    Trust { address: String, trusted: String },
    /// Remove/forget a device by address
    Remove { address: String },
}

/// The call each Bluetooth command makes; `list` reads the status, which
/// holds the devices.
pub open spec fn bt_call(a: BtAction) -> CallView {
    match a {
        BtAction::List => rpc_view("BtStatus"@, seq![]),
        BtAction::Scan => rpc_view("BtScan"@, seq![]),
        BtAction::Status => rpc_view("BtStatus"@, seq![]),
        BtAction::Connect { address } => rpc_view("BtConnect"@, seq![("address"@, ParamView::Str(address@))]),
        BtAction::Disconnect { address } => rpc_view("BtDisconnect"@, seq![("address"@, ParamView::Str(address@))]),
        BtAction::Power { state } => rpc_view("BtPower"@, seq![("enabled"@, ParamView::Bool(is_on(state@)))]),
        BtAction::Discoverable { state } => rpc_view("BtDiscoverable"@, seq![("on"@, ParamView::Bool(is_on(state@)))]),
        BtAction::Pairable { state } => rpc_view("BtPairable"@, seq![("on"@, ParamView::Bool(is_on(state@)))]),
        BtAction::Alias { address, alias } => rpc_view(
            "BtAlias"@,
            seq![("address"@, ParamView::Str(address@)), ("alias"@, ParamView::Str(alias@))],
        ),
        BtAction::Pair { address } => rpc_view("BtPair"@, seq![("address"@, ParamView::Str(address@))]),
        BtAction::Trust { address, trusted } => rpc_view(
            "BtTrust"@,
            seq![("address"@, ParamView::Str(address@)), ("trusted"@, ParamView::Bool(is_on(trusted@)))],
        ),
        BtAction::Remove { address } => rpc_view("BtRemove"@, seq![("address"@, ParamView::Str(address@))]),
    }
}

fn on_flag(state: &String) -> (b: bool)
    ensures
        b == is_on(state@),
{
    str_eq(state.as_str(), "on")
}

/// The request a Bluetooth command sends.
pub fn bt_request(args: &BtArgs) -> (c: CliCall)
    ensures
        c@ == bt_call(args.action),
{
    match &args.action {
        BtAction::List => rpc0("BtStatus"),
        BtAction::Scan => rpc0("BtScan"),
        BtAction::Status => rpc0("BtStatus"),
        BtAction::Connect { address } => rpc1("BtConnect", str_param("address", address)),
        BtAction::Disconnect { address } => rpc1("BtDisconnect", str_param("address", address)),
        BtAction::Power { state } => rpc1("BtPower", bool_param("enabled", on_flag(state))),
        BtAction::Discoverable { state } => rpc1("BtDiscoverable", bool_param("on", on_flag(state))),
        BtAction::Pairable { state } => rpc1("BtPairable", bool_param("on", on_flag(state))),
        BtAction::Alias { address, alias } => rpc2("BtAlias", str_param("address", address), str_param("alias", alias)),
        BtAction::Pair { address } => rpc1("BtPair", str_param("address", address)),
        BtAction::Trust { address, trusted } => rpc2(
            "BtTrust",
            str_param("address", address),
            bool_param("trusted", on_flag(trusted)),
        ),
        BtAction::Remove { address } => rpc1("BtRemove", str_param("address", address)),
    }
}

// ── Network ──────────────────────────────────────────────────────────────────

pub struct NetArgs {
    pub action: NetAction,
}

pub enum NetAction {
    /// Show network status
    Status,
    /// List network interfaces
    List,
    /// WiFi operations
    Wifi { action: WifiAction },
    /// Ethernet operations
    Eth { action: EthAction },
    /// Hotspot operations
    Hotspot { action: HotspotAction },
    /// Enable or disable network
    Power { state: String },
}

pub enum WifiAction {
    /// List WiFi networks
    List,
    /// Scan for WiFi networks
    Scan,
    /// Show WiFi details
    Details,
    /// Connect to a WiFi network
    Connect { ssid: String, password: Option<String> },
    /// Disconnect from WiFi
    Disconnect,
    /// Forget a WiFi network
    Forget { ssid: String },
}

pub enum EthAction {
    /// List Ethernet interfaces
    List,
    /// Show Ethernet details
    Details,
    /// Connect Ethernet
    Connect { iface: Option<String> },
    /// Disconnect Ethernet
    Disconnect,
}

pub enum HotspotAction {
    /// Show hotspot status
    Status,
    /// Start hotspot (the SSID defaults to `Crawl-Hotspot`)
    Start {
        ssid: String,
        password: Option<String>,
        band: Option<String>,
        channel: Option<u32>,
        backend: Option<String>,
    },
    /// Stop hotspot
    Stop,
}

/// A network power argument means on when it is `on`, `true` or `1`.
pub open spec fn power_on(state: Seq<char>) -> bool {
    state == "on"@ || state == "true"@ || state == "1"@
}

/// The entry `key` of an object holding an optional string: present only
/// when there is a string.
pub open spec fn opt_entry(key: Seq<char>, o: Option<String>) -> Seq<(Seq<char>, ParamView)> {
    match o {
        Some(s) => seq![(key, ParamView::Str(s@))],
        None => seq![],
    }
}

/// The parameters of a hotspot start: the SSID, then each option given.
pub open spec fn hotspot_start_params(
    ssid: String,
    password: Option<String>,
    band: Option<String>,
    channel: Option<u32>,
    backend: Option<String>,
) -> Seq<(Seq<char>, ParamView)> {
    seq![("ssid"@, ParamView::Str(ssid@))] + opt_entry("password"@, password) + opt_entry("band"@, band) + (match channel {
        Some(c) => seq![("channel"@, ParamView::Int(c as int))],
        None => seq![],
    }) + opt_entry("backend"@, backend)
}

/// The call each network command makes; `list` reads the status, which
/// holds the interfaces.
pub open spec fn net_call(a: NetAction) -> CallView {
    match a {
        NetAction::Status => rpc_view("NetStatus"@, seq![]),
        NetAction::List => rpc_view("NetStatus"@, seq![]),
        NetAction::Wifi { action } => match action {
            WifiAction::List => rpc_view("NetWifiList"@, seq![]),
            WifiAction::Scan => rpc_view("NetWifiScan"@, seq![]),
            WifiAction::Details => rpc_view("NetWifiDetails"@, seq![]),
            WifiAction::Connect { ssid, password } => rpc_view(
                "NetWifiConnect"@,
                seq![("ssid"@, ParamView::Str(ssid@)), ("password"@, opt_str_view(password))],
            ),
            WifiAction::Disconnect => rpc_view("NetWifiDisconnect"@, seq![]),
            WifiAction::Forget { ssid } => rpc_view("NetWifiForget"@, seq![("ssid"@, ParamView::Str(ssid@))]),
        },
        NetAction::Eth { action } => match action {
            EthAction::List => rpc_view("NetEthList"@, seq![]),
            EthAction::Details => rpc_view("NetEthDetails"@, seq![]),
            EthAction::Connect { iface } => rpc_view("NetEthConnect"@, seq![("interface"@, opt_str_view(iface))]),
            EthAction::Disconnect => rpc_view("NetEthDisconnect"@, seq![]),
        },
        NetAction::Hotspot { action } => match action {
            HotspotAction::Status => rpc_view("NetHotspotStatus"@, seq![]),
            HotspotAction::Start { ssid, password, band, channel, backend } => rpc_view(
                "NetHotspotStart"@,
                hotspot_start_params(ssid, password, band, channel, backend),
            ),
            HotspotAction::Stop => rpc_view("NetHotspotStop"@, seq![]),
        },
        NetAction::Power { state } => rpc_view("NetPower"@, seq![("on"@, ParamView::Bool(power_on(state@)))]),
    }
}

fn push_opt_str(ps: &mut Vec<Param>, key: &str, o: &Option<String>)
    ensures
        params_view(final(ps)@) == params_view(old(ps)@) + opt_entry(key@, *o),
{
    let ghost before = params_view(ps@);
    match o {
        Some(s) => {
            ps.push(str_param(key, s));
        },
        None => {},
    }
    assert(params_view(ps@) =~= before + opt_entry(key@, *o));
}

fn hotspot_start(
    ssid: &String,
    password: &Option<String>,
    band: &Option<String>,
    channel: &Option<u32>,
    backend: &Option<String>,
) -> (c: CliCall)
    ensures
        c@ == rpc_view("NetHotspotStart"@, hotspot_start_params(*ssid, *password, *band, *channel, *backend)),
{
    let mut ps: Vec<Param> = Vec::new();
    ps.push(str_param("ssid", ssid));
    assert(params_view(ps@) =~= seq![("ssid"@, ParamView::Str(ssid@))]);
    push_opt_str(&mut ps, "password", password);
    push_opt_str(&mut ps, "band", band);
    let ghost mid = params_view(ps@);
    match channel {
        Some(ch) => {
            ps.push(int_param("channel", *ch as i64));
        },
        None => {},
    }
    assert(params_view(ps@) =~= mid + (match *channel {
        Some(c) => seq![("channel"@, ParamView::Int(c as int))],
        None => seq![],
    }));
    push_opt_str(&mut ps, "backend", backend);
    CliCall::Rpc { method: String::from_str("NetHotspotStart"), params: Some(ps) }
}

fn power_flag(state: &String) -> (b: bool)
    ensures
        b == power_on(state@),
{
    let s = state.as_str();
    str_eq(s, "on") || str_eq(s, "true") || str_eq(s, "1")
}

/// The request a network command sends.
pub fn net_request(args: &NetArgs) -> (c: CliCall)
    ensures
        c@ == net_call(args.action),
{
    match &args.action {
        NetAction::Status => rpc0("NetStatus"),
        NetAction::List => rpc0("NetStatus"),
        NetAction::Wifi { action } => match action {
            WifiAction::List => rpc0("NetWifiList"),
            WifiAction::Scan => rpc0("NetWifiScan"),
            WifiAction::Details => rpc0("NetWifiDetails"),
            WifiAction::Connect { ssid, password } => rpc2(
                "NetWifiConnect",
                str_param("ssid", ssid),
                opt_str_param("password", password),
            ),
            WifiAction::Disconnect => rpc0("NetWifiDisconnect"),
            WifiAction::Forget { ssid } => rpc1("NetWifiForget", str_param("ssid", ssid)),
        },
        NetAction::Eth { action } => match action {
            EthAction::List => rpc0("NetEthList"),
            EthAction::Details => rpc0("NetEthDetails"),
            EthAction::Connect { iface } => rpc1("NetEthConnect", opt_str_param("interface", iface)),
            EthAction::Disconnect => rpc0("NetEthDisconnect"),
        },
        NetAction::Hotspot { action } => match action {
            HotspotAction::Status => rpc0("NetHotspotStatus"),
            HotspotAction::Start { ssid, password, band, channel, backend } => hotspot_start(
                ssid,
                password,
                band,
                channel,
                backend,
            ),
            HotspotAction::Stop => rpc0("NetHotspotStop"),
        },
        NetAction::Power { state } => rpc1("NetPower", bool_param("on", power_flag(state))),
    }
}


// ── Display ──────────────────────────────────────────────────────────────────

pub struct DisplayArgs {
    pub action: DisplayAction,
}

pub enum DisplayAction {
    /// Show all brightness info
    Brightness,
    /// Set brightness (0-100)
    BrightnessSet { value: u32 },
    /// Increase brightness
    BrightnessInc { value: i32 },
    /// Decrease brightness
    BrightnessDec { value: i32 },
    /// Get wallpaper status
    Wallpaper,
    /// Set wallpaper (`mode` defaults to `fill`, `fps` to 30)
    WallpaperSet { path: String, monitor: Option<String>, mode: String, transition: Option<String>, fps: u32 },
    /// Get wallpaper
    WallpaperGet { monitor: Option<String> },
}

/// The call each display command makes. A brightness to set is sent as an
/// `i32`; the wallpaper frame rate is not sent; a wallpaper query without a
/// monitor asks for `*`.
pub open spec fn display_call(a: DisplayAction) -> CallView {
    match a {
        DisplayAction::Brightness => CallView::Rpc("BrightnessGet"@, None),
        DisplayAction::BrightnessSet { value } => rpc_view("BrightnessSet"@, seq![("value"@, ParamView::Int((value as i32) as int))]),
        DisplayAction::BrightnessInc { value } => rpc_view("BrightnessInc"@, seq![("value"@, ParamView::Int(value as int))]),
        DisplayAction::BrightnessDec { value } => rpc_view("BrightnessDec"@, seq![("value"@, ParamView::Int(value as int))]),
        DisplayAction::Wallpaper => CallView::Rpc("WallpaperStatus"@, None),
        DisplayAction::WallpaperSet { path, monitor, mode, transition, fps } => rpc_view(
            "WallpaperSet"@,
            seq![("path"@, ParamView::Str(path@)), ("mode"@, ParamView::Str(mode@))] + opt_entry("monitor"@, monitor)
                + opt_entry("transition"@, transition),
        ),
        DisplayAction::WallpaperGet { monitor } => rpc_view(
            "WallpaperGet"@,
            seq![("monitor"@, ParamView::Str(match monitor { Some(m) => m@, None => "*"@ }))],
        ),
    }
}

/// The request a display command sends.
pub fn display_request(args: &DisplayArgs) -> (c: CliCall)
    ensures
        c@ == display_call(args.action),
{
    match &args.action {
        DisplayAction::Brightness => rpc_null("BrightnessGet"),
        DisplayAction::BrightnessSet { value } => rpc1("BrightnessSet", int_param("value", (*value as i32) as i64)),
        DisplayAction::BrightnessInc { value } => rpc1("BrightnessInc", int_param("value", *value as i64)),
        DisplayAction::BrightnessDec { value } => rpc1("BrightnessDec", int_param("value", *value as i64)),
        DisplayAction::Wallpaper => rpc_null("WallpaperStatus"),
        DisplayAction::WallpaperSet { path, monitor, mode, transition, fps: _ } => {
            let mut ps: Vec<Param> = Vec::new();
            ps.push(str_param("path", path));
            ps.push(str_param("mode", mode));
            assert(params_view(ps@) =~= seq![("path"@, ParamView::Str(path@)), ("mode"@, ParamView::Str(mode@))]);
            push_opt_str(&mut ps, "monitor", monitor);
            push_opt_str(&mut ps, "transition", transition);
            CliCall::Rpc { method: String::from_str("WallpaperSet"), params: Some(ps) }
        },
        DisplayAction::WallpaperGet { monitor } => {
            let m = match monitor {
                Some(m) => m.clone(),
                None => String::from_str("*"),
            };
            rpc1("WallpaperGet", str_param("monitor", &m))
        },
    }
}

// ── Daemon ───────────────────────────────────────────────────────────────────

pub struct DaemonArgs {
    pub action: DaemonAction,
}

pub enum DaemonAction {
    /// Daemon status
    Status,
    /// Stop daemon
    Stop,
    /// Restart daemon
    Restart,
}

/// What a daemon command does: ask the daemon for its health, or have the
/// user's service manager stop or restart it (the daemon cannot stop itself
/// cleanly through its socket).
#[derive(Debug, Clone)]
pub enum DaemonStep {
    Query(CliCall),
    Service { verb: String },
}

/// The step of each daemon command: `Health` for the status, the service
/// verb `stop` or `restart` for the others.
pub open spec fn daemon_step_is(a: DaemonAction, s: DaemonStep) -> bool {
    match a {
        DaemonAction::Status => s matches DaemonStep::Query(c) && c@ == rpc_view("Health"@, seq![]),
        DaemonAction::Stop => s matches DaemonStep::Service { verb } && verb@ == "stop"@,
        DaemonAction::Restart => s matches DaemonStep::Service { verb } && verb@ == "restart"@,
    }
}

/// The step a daemon command takes.
pub fn daemon_step(args: &DaemonArgs) -> (s: DaemonStep)
    ensures
        daemon_step_is(args.action, s),
{
    match args.action {
        DaemonAction::Status => DaemonStep::Query(rpc0("Health")),
        DaemonAction::Stop => DaemonStep::Service { verb: String::from_str("stop") },
        DaemonAction::Restart => DaemonStep::Service { verb: String::from_str("restart") },
    }
}

/// What the client prints after asking the service manager to `verb` the
/// daemon: `crawl daemon <verb>ed` on success, else `failed to <verb> crawl daemon`.
pub open spec fn service_message(verb: Seq<char>, success: bool) -> Seq<char> {
    if success {
        "crawl daemon "@ + verb + "ed"@
    } else {
        "failed to "@ + verb + " crawl daemon"@
    }
}

/// The message after a service-manager request.
pub fn service_result_message(verb: &str, success: bool) -> (m: String)
    ensures
        m@ == service_message(verb@, success),
{
    if success {
        let mut m = String::from_str("crawl daemon ");
        m.append(verb);
        m.append("ed");
        m
    } else {
        let mut m = String::from_str("failed to ");
        m.append(verb);
        m.append(" crawl daemon");
        m
    }
}

// ── System information ───────────────────────────────────────────────────────

pub struct SysinfoArgs {
    /// Show only specific field (compositor, os, session, hardware, display)
    pub field: Option<String>,
    /// Logo to display (default: autodetect from OS)
    pub logo: Option<String>,
    /// Don't show logo
    pub no_logo: bool,
    /// Use table format instead of logo
    pub table: bool,
}

/// The request the system-information command sends: `Sysinfo`, no parameters.
pub fn sysinfo_request() -> (c: CliCall)
    ensures
        c@ == CallView::Rpc("Sysinfo"@, None),
{
    rpc_null("Sysinfo")
}

// ── Theme ────────────────────────────────────────────────────────────────────

pub struct ThemeArgs {
    /// Switch to a named predefined theme
    pub set_custom: Option<String>,
    /// Switch to dynamic theme with optional matugen scheme
    pub set_dynamic: Option<String>,
    /// Set wallpaper and generate a dynamic palette via matugen
    pub wallpaper: Option<String>,
    /// Set wallpaper without running matugen (keep current palette)
    pub no_generate: bool,
    /// Switch variant to dark
    pub dark: bool,
    /// Switch variant to light
    pub light: bool,
    /// Force regenerate dynamic palette from current wallpaper
    pub regenerate: bool,
    /// List available themes for a variant (dark/light); `current` when given without a value
    pub list: Option<String>,
    /// Show current theme status
    pub status: bool,
}

/// The variant a theme switch asks for: dark, light, or none given.
pub open spec fn variant_override(args: ThemeArgs) -> ParamView {
    if args.dark {
        ParamView::Str("dark"@)
    } else if args.light {
        ParamView::Str("light"@)
    } else {
        ParamView::Null
    }
}

/// The request of a theme command. The first option given, in the order
/// custom theme, dynamic scheme, wallpaper, dark, light, regenerate, list,
/// decides; with none, the status is read.
pub open spec fn theme_call(args: ThemeArgs) -> CallView {
    if args.set_custom is Some {
        CallView::Post(
            "/theme/custom"@,
            seq![("name"@, ParamView::Str(args.set_custom->Some_0@)), ("variant"@, variant_override(args))],
        )
    } else if args.set_dynamic is Some {
        CallView::Post(
            "/theme/dynamic"@,
            seq![("scheme"@, ParamView::Str(args.set_dynamic->Some_0@)), ("variant"@, variant_override(args))],
        )
    } else if args.wallpaper is Some {
        CallView::Post(
            "/theme/wallpaper"@,
            seq![("path"@, ParamView::Str(args.wallpaper->Some_0@)), ("no_generate"@, ParamView::Bool(args.no_generate))],
        )
    } else if args.dark {
        CallView::Post("/theme/variant"@, seq![("variant"@, ParamView::Str("dark"@))])
    } else if args.light {
        CallView::Post("/theme/variant"@, seq![("variant"@, ParamView::Str("light"@))])
    } else if args.regenerate {
        CallView::Post("/theme/regenerate"@, seq![])
    } else if args.list is Some {
        if args.list->Some_0@ == "current"@ {
            CallView::Get("/theme/list"@)
        } else {
            CallView::Get("/theme/list?variant="@ + args.list->Some_0@)
        }
    } else {
        CallView::Get("/theme/status"@)
    }
}

fn variant_param(args: &ThemeArgs) -> (p: Param)
    ensures
        p@ == ("variant"@, variant_override(*args)),
{
    let value = if args.dark {
        ParamValue::Str(String::from_str("dark"))
    } else if args.light {
        ParamValue::Str(String::from_str("light"))
    } else {
        ParamValue::Null
    };
    Param { key: String::from_str("variant"), value }
}

fn post(path: &str, body: Vec<Param>) -> (c: CliCall)
    ensures
        c@ == CallView::Post(path@, params_view(body@)),
{
    CliCall::Post { path: String::from_str(path), body }
}

fn two(a: Param, b: Param) -> (v: Vec<Param>)
    ensures
        params_view(v@) == seq![a@, b@],
{
    let mut v: Vec<Param> = Vec::new();
    v.push(a);
    v.push(b);
    assert(params_view(v@) =~= seq![a@, b@]);
    v
}

/// The request a theme command sends.
pub fn theme_request(args: &ThemeArgs) -> (c: CliCall)
    ensures
        c@ == theme_call(*args),
{
    if let Some(name) = &args.set_custom {
        post("/theme/custom", two(str_param("name", name), variant_param(args)))
    } else if let Some(scheme) = &args.set_dynamic {
        post("/theme/dynamic", two(str_param("scheme", scheme), variant_param(args)))
    } else if let Some(path) = &args.wallpaper {
        post("/theme/wallpaper", two(str_param("path", path), bool_param("no_generate", args.no_generate)))
    } else if args.dark || args.light {
        let mut v: Vec<Param> = Vec::new();
        let variant = if args.dark { String::from_str("dark") } else { String::from_str("light") };
        v.push(str_param("variant", &variant));
        assert(params_view(v@) =~= seq![("variant"@, ParamView::Str(variant@))]);
        post("/theme/variant", v)
    } else if args.regenerate {
        let v: Vec<Param> = Vec::new();
        assert(params_view(v@) =~= seq![]);
        post("/theme/regenerate", v)
    } else if let Some(variant) = &args.list {
        if str_eq(variant.as_str(), "current") {
            CliCall::Get { path: String::from_str("/theme/list") }
        } else {
            let mut path = String::from_str("/theme/list?variant=");
            path.append(variant.as_str());
            CliCall::Get { path }
        }
    } else {
        CliCall::Get { path: String::from_str("/theme/status") }
    }
}

// ── Update ───────────────────────────────────────────────────────────────────

pub struct UpdateArgs {
    /// Pass additional args to the updater script
    pub pass_through: Vec<String>,
    /// Only print the latest release tag (no install)
    pub dry_run: bool,
}

/// The arguments handed to the updater script: those passed through,
/// after `--dry-run` when only the latest tag is wanted.
pub open spec fn updater_args_view(args: UpdateArgs) -> Seq<Seq<char>> {
    let passed = Seq::new(args.pass_through.len() as nat, |i: int| args.pass_through@[i]@);
    if args.dry_run {
        seq!["--dry-run"@] + passed
    } else {
        passed
    }
}

/// The arguments for the updater script.
pub fn updater_args(args: &UpdateArgs) -> (v: Vec<String>)
    ensures
        v.len() == updater_args_view(*args).len(),
        forall|i: int| 0 <= i < v.len() ==> #[trigger] v@[i]@ == updater_args_view(*args)[i],
{
    let mut v: Vec<String> = Vec::new();
    let offset: usize = if args.dry_run { 1 } else { 0 };
    if args.dry_run {
        v.push(String::from_str("--dry-run"));
    }
    let mut i: usize = 0;
    while i < args.pass_through.len()
        invariant
            i <= args.pass_through.len(),
            offset == (if args.dry_run { 1usize } else { 0usize }),
            v.len() == offset + i,
            args.dry_run ==> v@[0]@ == "--dry-run"@,
            forall|j: int| 0 <= j < i ==> #[trigger] v@[offset + j]@ == args.pass_through@[j]@,
        decreases args.pass_through.len() - i,
    {
        v.push(args.pass_through[i].clone());
        i = i + 1;
    }
    proof {
        let want = updater_args_view(*args);
        assert forall|k: int| 0 <= k < v.len() implies #[trigger] v@[k]@ == want[k] by {
            if args.dry_run && k == 0 {
            } else {
                assert(v@[offset + (k - offset)]@ == args.pass_through@[k - offset]@);
            }
        }
    }
    v
}


/// The installed version in `pacman -Qi` output: on the first line that
/// starts with `Version`, the trimmed text after its first `:`. A `Version`
/// line without `:` ends the search with nothing; one with an empty value
/// is passed over.
pub open spec fn version_scan(ls: Seq<Seq<char>>, i: int) -> Option<Seq<char>>
    decreases ls.len() - i,
{
    if i < 0 || i >= ls.len() {
        None
    } else if starts_with(ls[i], "Version"@) {
        let rest = ls[i].subrange(7, ls[i].len() as int);
        let c = find_first(rest, ':');
        if c < 0 {
            None
        } else {
            let v = trim(rest.subrange(c + 1, rest.len() as int));
            if v.len() > 0 {
                Some(v)
            } else {
                version_scan(ls, i + 1)
            }
        }
    } else {
        version_scan(ls, i + 1)
    }
}

/// The installed version reported in the output of `pacman -Qi crawl`.
pub fn installed_version(output: &str) -> (r: Option<String>)
    ensures
        match r {
            Some(s) => version_scan(lines(output@), 0) == Some(s@),
            None => version_scan(lines(output@), 0) is None,
        },
{
    let v = chars_of(output);
    let prefix = chars_of("Version");
    proof {
        reveal_strlit("Version");
    }
    let ranges = line_ranges(&v);
    let ghost ls = lines(v@);
    let mut i: usize = 0;
    while i < ranges.len()
        invariant
            ls == lines(v@),
            v@ == output@,
            prefix@ == "Version"@,
            prefix@.len() == 7,
            i <= ranges@.len() == ls.len(),
            forall|q: int| 0 <= q < ranges@.len() ==> #[trigger] ranges@[q].0 <= ranges@[q].1 <= v@.len(),
            forall|q: int|
                0 <= q < ranges@.len() ==> #[trigger] ls[q] == v@.subrange(ranges@[q].0 as int, ranges@[q].1 as int),
            version_scan(ls, 0) == version_scan(ls, i as int),
        decreases ranges.len() - i,
    {
        let (a, b) = ranges[i];
        proof {
            assert(ls[i as int] == v@.subrange(a as int, b as int));
        }
        if range_starts_with(&v, a, b, &prefix) {
            let lo = a + 7;
            proof {
                let l = v@.subrange(a as int, b as int);
                assert(l.subrange(7, l.len() as int) == v@.subrange(lo as int, b as int));
            }
            match find_in(&v, lo, b, ':') {
                None => {
                    return None;
                },
                Some(e) => {
                    let (vl, vh) = trim_bounds(&v, e + 1, b);
                    proof {
                        let rest = v@.subrange(lo as int, b as int);
                        assert(rest.subrange(e - lo + 1, rest.len() as int) == v@.subrange(e + 1, b as int));
                    }
                    if vl < vh {
                        let mut out = String::new();
                        push_chars(&mut out, &v, vl, vh);
                        return Some(out);
                    }
                },
            }
        }
        i = i + 1;
    }
    None
}

} // verus!
