//! Wallpaper domain model: fill modes, the per-monitor wallpaper state, the
//! requests the wallpaper service takes, and how request fields are read.

use vstd::prelude::*;
use crate::named_map::NamedMap;
use crate::text::{prefixed, str_eq};
use crate::format::{join_dir, join_path};
use crate::events::WallpaperEvent;
use vstd::string::StringExecFns;

verus! {

/// Why a wallpaper operation failed.
#[derive(Debug, Clone)]
pub enum CrawlbgError {
    ImageNotFound(String),
    /// The image at `path` could not be decoded; `source` describes why.
    ImageLoad { path: String, source: String },
    Wayland(String),
    OutputNotFound(String),
    Transition(String),
    Cache(String),
}

/// Fill mode for wallpaper display.
#[derive(Debug, Clone, Copy, PartialEq, Eq, Structural)]
pub enum WallpaperMode {
    /// Fill the entire screen, potentially cropping edges.
    Fill,
    /// Fit the image within screen bounds, preserving aspect ratio.
    Fit,
    /// Stretch to fill screen (distorts aspect ratio).
    Stretch,
    /// Center the image at its own size.
    Center,
    /// Tile the image to fill screen.
    Tile,
}

impl Default for WallpaperMode {
    fn default() -> (r: Self)
        ensures
            r == WallpaperMode::Fill,
    {
        WallpaperMode::Fill
    }
}

/// The fill mode a request names: `fit`, `stretch`, `center` and `tile` name
/// theirs, anything else means `Fill`.
pub open spec fn mode_named(name: Seq<char>) -> WallpaperMode {
    if name == "fit"@ {
        WallpaperMode::Fit
    } else if name == "stretch"@ {
        WallpaperMode::Stretch
    } else if name == "center"@ {
        WallpaperMode::Center
    } else if name == "tile"@ {
        WallpaperMode::Tile
    } else {
        WallpaperMode::Fill
    }
}

/// The fill mode named by a request's `mode` field.
pub fn wallpaper_mode_from_name(name: &str) -> (r: WallpaperMode)
    ensures
        r == mode_named(name@),
{
    if str_eq(name, "fit") {
        WallpaperMode::Fit
    } else if str_eq(name, "stretch") {
        WallpaperMode::Stretch
    } else if str_eq(name, "center") {
        WallpaperMode::Center
    } else if str_eq(name, "tile") {
        WallpaperMode::Tile
    } else {
        WallpaperMode::Fill
    }
}

/// The word a request uses for each fill mode.
pub open spec fn mode_word(m: WallpaperMode) -> Seq<char> {
    match m {
        WallpaperMode::Fill => "fill"@,
        WallpaperMode::Fit => "fit"@,
        WallpaperMode::Stretch => "stretch"@,
        WallpaperMode::Center => "center"@,
        WallpaperMode::Tile => "tile"@,
    }
}

/// Every fill mode is reached by its own word, and a word that names no
/// mode means `Fill`.
pub proof fn law_mode_words_name_their_modes(m: WallpaperMode, name: Seq<char>)
    ensures
        mode_named(mode_word(m)) == m,
        (forall|k: WallpaperMode| name != #[trigger] mode_word(k)) ==> mode_named(name) == WallpaperMode::Fill,
{
    reveal_strlit("fill");
    reveal_strlit("fit");
    reveal_strlit("stretch");
    reveal_strlit("center");
    reveal_strlit("tile");
    assert("fill"@.len() != "fit"@.len());
    assert("fill"@[0] != "stretch"@[0]);
    assert("fill"@[0] != "center"@[0]);
    assert("fill"@[0] != "tile"@[0]);
    assert("fit"@[0] != "stretch"@[0]);
    assert("fit"@[0] != "center"@[0]);
    assert("fit"@[0] != "tile"@[0]);
    assert("stretch"@[0] != "center"@[0]);
    assert("stretch"@[0] != "tile"@[0]);
    assert("center"@[0] != "tile"@[0]);
    if forall|k: WallpaperMode| name != #[trigger] mode_word(k) {
        assert(name != mode_word(WallpaperMode::Fit));
        assert(name != mode_word(WallpaperMode::Stretch));
        assert(name != mode_word(WallpaperMode::Center));
        assert(name != mode_word(WallpaperMode::Tile));
    }
}

/// Transition a request uses when it names none.
pub fn default_transition() -> (r: String)
    ensures
        r@ == "fade"@,
{
    String::from_str("fade")
}

/// Transition length a request uses when it gives none, in milliseconds.
pub fn default_duration_ms() -> (r: u64)
    ensures
        r == 500,
{
    500
}

/// Transition frame rate a request uses when it gives none.
pub fn default_fps() -> (r: u32)
    ensures
        r == 30,
{
    30
}

/// Request to set wallpaper on one or all monitors.
#[derive(Debug, Clone)]
pub struct SetWallpaperRequest {
    /// Path to the wallpaper image.
    pub path: String,
    /// Target monitor name (None = all monitors).
    pub monitor: Option<String>,
    /// Fill mode for the wallpaper.
    pub mode: WallpaperMode,
    /// Transition type for the wallpaper change.
    pub wallpaper_transition: String,
    /// Transition duration in milliseconds.
    pub wallpaper_transition_duration_ms: u64,
    /// Frames per second for transition animation.
    pub wallpaper_transition_fps: u32,
}

/// IPC request envelope of the wallpaper backend.
#[derive(Debug, Clone)]
pub enum IpcRequest {
    SetWallpaper {
        path: String,
        monitor: Option<String>,
        mode: Option<WallpaperMode>,
        transition: Option<String>,
    },
    GetState,
    Preload { path: String },
    GetWallpaper { monitor: Option<String> },
}

/// Whether an IPC request succeeded (`"ok"` or `"error"` on the wire).
#[derive(Debug, Clone, Copy, PartialEq, Eq, Structural)]
pub enum ResponseStatus {
    Success,
    Error,
}

// ── State ────────────────────────────────────────────────────────────────────

/// Current wallpaper state.
pub struct WallpaperState {
    /// Current wallpaper path (None if not set).
    pub current: Option<String>,
    /// Per-monitor wallpaper paths.
    pub per_monitor: NamedMap<String>,
    /// Whether wallpaper varies per monitor.
    pub per_monitor_mode: bool,
}

/// What a wallpaper state holds: the global path, the path of each monitor
/// that has its own, and whether any monitor has its own.
pub struct WallpaperView {
    pub current: Option<Seq<char>>,
    pub per_monitor: Map<Seq<char>, Seq<char>>,
    pub per_monitor_mode: bool,
}

/// The view of an optional string.
pub open spec fn opt_view(s: Option<String>) -> Option<Seq<char>> {
    match s {
        Some(v) => Some(v@),
        None => None,
    }
}

impl View for WallpaperState {
    type V = WallpaperView;

    open spec fn view(&self) -> WallpaperView {
        WallpaperView {
            current: opt_view(self.current),
            per_monitor: self.per_monitor@.map_values(|p: String| p@),
            per_monitor_mode: self.per_monitor_mode,
        }
    }
}

/// The wallpaper shown on `monitor`, or the global one when no monitor is named.
pub open spec fn wallpaper_of(st: WallpaperView, monitor: Option<Seq<char>>) -> Option<Seq<char>> {
    match monitor {
        Some(m) => if st.per_monitor.contains_key(m) {
            Some(st.per_monitor[m])
        } else {
            None
        },
        None => st.current,
    }
}

/// The state after `path` is set on `monitor`, or globally when no monitor is named.
pub open spec fn with_wallpaper(st: WallpaperView, path: Seq<char>, monitor: Option<Seq<char>>) -> WallpaperView {
    match monitor {
        Some(m) => WallpaperView {
            current: st.current,
            per_monitor: st.per_monitor.insert(m, path),
            per_monitor_mode: true,
        },
        None => WallpaperView { current: Some(path), ..st },
    }
}

impl Default for WallpaperState {
    fn default() -> (r: Self)
        ensures
            r@.current is None,
            r@.per_monitor == Map::<Seq<char>, Seq<char>>::empty(),
            !r@.per_monitor_mode,
    {
        let r = WallpaperState { current: None, per_monitor: NamedMap::new(), per_monitor_mode: false };
        assert(r@.per_monitor =~= Map::<Seq<char>, Seq<char>>::empty());
        r
    }
}

impl WallpaperState {
    /// Get wallpaper for a specific monitor, or the global wallpaper.
    pub fn get(&self, monitor: Option<&str>) -> (r: Option<&str>)
        ensures
            match r {
                Some(s) => wallpaper_of(self@, match monitor { Some(m) => Some(m@), None => None }) == Some(s@),
                None => wallpaper_of(self@, match monitor { Some(m) => Some(m@), None => None }) is None,
            },
    {
        match monitor {
            Some(mon) => match self.per_monitor.get(mon) {
                Some(s) => Some(s.as_str()),
                None => None,
            },
            None => match &self.current {
                Some(s) => Some(s.as_str()),
                None => None,
            },
        }
    }

    /// Set wallpaper for a specific monitor or globally.
    pub fn set(&mut self, path: String, monitor: Option<String>)
        ensures
            final(self)@ == with_wallpaper(old(self)@, path@, opt_view(monitor)),
    {
        match monitor {
            Some(mon) => {
                let ghost m = mon@;
                self.per_monitor.insert(mon, path);
                self.per_monitor_mode = true;
                assert(self@.per_monitor =~= old(self)@.per_monitor.insert(m, path@));
            },
            None => {
                self.current = Some(path);
            },
        }
    }
}

/// Reading a monitor's wallpaper right after setting it gives the new path,
/// and setting one monitor's wallpaper leaves the global wallpaper and every
/// other monitor's wallpaper as they were.
pub proof fn law_wallpaper_get_after_set(
    st: WallpaperView,
    path: Seq<char>,
    monitor: Option<Seq<char>>,
    other: Option<Seq<char>>,
)
    ensures
        wallpaper_of(with_wallpaper(st, path, monitor), monitor) == Some(path),
        other != monitor && (monitor is Some || other is Some) ==> wallpaper_of(
            with_wallpaper(st, path, monitor),
            other,
        ) == wallpaper_of(st, other),
{
}

/// What a wallpaper error says.
pub open spec fn crawlbg_error_text(e: CrawlbgError) -> Seq<char> {
    match e {
        CrawlbgError::ImageNotFound(p) => "Image not found: "@ + p@,
        CrawlbgError::ImageLoad { path, source } => "Failed to load image "@ + path@ + ": "@ + source@,
        CrawlbgError::Wayland(m) => "Wayland error: "@ + m@,
        CrawlbgError::OutputNotFound(o) => "Output not found: "@ + o@,
        CrawlbgError::Transition(m) => "Transition error: "@ + m@,
        CrawlbgError::Cache(m) => "Cache error: "@ + m@,
    }
}

impl CrawlbgError {
    /// The error's text.
    pub fn message(&self) -> (m: String)
        ensures
            m@ == crawlbg_error_text(*self),
    {
        match self {
            CrawlbgError::ImageNotFound(p) => prefixed("Image not found: ", p.as_str()),
            CrawlbgError::ImageLoad { path, source } => {
                let mut m = prefixed("Failed to load image ", path.as_str());
                m.append(": ");
                m.append(source.as_str());
                m
            },
            CrawlbgError::Wayland(m) => prefixed("Wayland error: ", m.as_str()),
            CrawlbgError::OutputNotFound(o) => prefixed("Output not found: ", o.as_str()),
            CrawlbgError::Transition(m) => prefixed("Transition error: ", m.as_str()),
            CrawlbgError::Cache(m) => prefixed("Cache error: ", m.as_str()),
        }
    }
}

// ── The wallpaper service ────────────────────────────────────────────────────

/// The request the `WallpaperSet` command makes: the mode named (`fill` when
/// none is), the transition named (empty when none is), 500 ms at 30 frames
/// per second.
pub fn wallpaper_set_request(
    path: String,
    monitor: Option<String>,
    mode: Option<&str>,
    transition: Option<String>,
) -> (r: SetWallpaperRequest)
    ensures
        r.path@ == path@,
        opt_view(r.monitor) == opt_view(monitor),
        r.mode == mode_named(match mode { Some(m) => m@, None => "fill"@ }),
        r.wallpaper_transition@ == (match transition { Some(t) => t@, None => Seq::<char>::empty() }),
        r.wallpaper_transition_duration_ms == 500,
        r.wallpaper_transition_fps == 30,
{
    let m = match mode {
        Some(m) => wallpaper_mode_from_name(m),
        None => wallpaper_mode_from_name("fill"),
    };
    let t = match transition {
        Some(t) => t,
        None => String::new(),
    };
    SetWallpaperRequest {
        path,
        monitor,
        mode: m,
        wallpaper_transition: t,
        wallpaper_transition_duration_ms: 500,
        wallpaper_transition_fps: 30,
    }
}

/// The screen a change event names: the monitor, or `*` for all.
pub open spec fn event_screen(monitor: Option<String>) -> Seq<char> {
    match monitor {
        Some(m) => m@,
        None => "*"@,
    }
}

/// Records a wallpaper the backend has shown: the state takes the path for
/// the request's monitor (or globally), and the change event to publish is
/// returned.
pub fn record_wallpaper(state: &mut WallpaperState, request: &SetWallpaperRequest) -> (e: WallpaperEvent)
    ensures
        final(state)@ == with_wallpaper(old(state)@, request.path@, opt_view(request.monitor)),
        e matches WallpaperEvent::Changed { screen, path } && screen@ == event_screen(request.monitor)
            && path@ == request.path@,
{
    state.set(request.path.clone(), request.monitor.clone());
    let screen = match &request.monitor {
        Some(m) => m.clone(),
        None => String::from_str("*"),
    };
    WallpaperEvent::Changed { screen, path: request.path.clone() }
}

/// The error of a request whose image file does not exist.
pub fn missing_file_message(path: &str) -> (m: String)
    ensures
        m@ == "Wallpaper file not found: "@ + path@,
{
    prefixed("Wallpaper file not found: ", path)
}

/// The error of a request the backend could not carry out.
pub fn set_failed_message(reason: &str) -> (m: String)
    ensures
        m@ == "Failed to set wallpaper: "@ + reason@,
{
    prefixed("Failed to set wallpaper: ", reason)
}

/// The wallpaper settings of the display configuration.
#[derive(Debug, Clone)]
pub struct WallpaperDefaults {
    pub transition: String,
    pub transition_duration_ms: u64,
    pub transition_fps: u32,
    /// The configured wallpaper; empty or absent for the bundled one.
    pub wallpaper: Option<String>,
}

/// The wallpaper shown when nothing was restored: the configured one when it
/// is set and not empty, else the bundled asset.
pub open spec fn default_wallpaper_spec(configured: Option<String>, asset: Seq<char>) -> Seq<char> {
    match configured {
        Some(p) => if p@.len() > 0 { p@ } else { asset },
        None => asset,
    }
}

/// The wallpaper shown when nothing was restored.
pub fn default_wallpaper_path(defaults: &WallpaperDefaults, asset: &str) -> (r: String)
    ensures
        r@ == default_wallpaper_spec(defaults.wallpaper, asset@),
{
    match &defaults.wallpaper {
        Some(p) => if !p.as_str().is_empty() { p.clone() } else { String::from_str(asset) },
        None => String::from_str(asset),
    }
}

/// The request that shows `path` at start-up on every monitor: the default
/// mode and the configured transition.
pub fn startup_request(path: String, defaults: &WallpaperDefaults) -> (r: SetWallpaperRequest)
    ensures
        r.path@ == path@,
        r.monitor is None,
        r.mode == WallpaperMode::Fill,
        r.wallpaper_transition@ == defaults.transition@,
        r.wallpaper_transition_duration_ms == defaults.transition_duration_ms,
        r.wallpaper_transition_fps == defaults.transition_fps,
{
    SetWallpaperRequest {
        path,
        monitor: None,
        mode: WallpaperMode::default(),
        wallpaper_transition: defaults.transition.clone(),
        wallpaper_transition_duration_ms: defaults.transition_duration_ms,
        wallpaper_transition_fps: defaults.transition_fps,
    }
}

/// Where the wallpaper state is kept: `crawl/wallpaper_state.json` under
/// `XDG_STATE_HOME`, or under `.local/state` in the home directory (an
/// unknown home counts as empty).
pub open spec fn state_file_spec(state_home: Option<Seq<char>>, home: Option<Seq<char>>) -> Seq<char> {
    let base = match state_home {
        Some(d) => d,
        None => join_path(
            match home {
                Some(h) => h,
                None => Seq::<char>::empty(),
            },
            ".local/state"@,
        ),
    };
    join_path(base, "crawl/wallpaper_state.json"@)
}

/// Where the wallpaper state is kept.
pub fn state_file_path(state_home: Option<String>, home: Option<String>) -> (r: String)
    ensures
        r@ == state_file_spec(opt_view(state_home), opt_view(home)),
{
    let base = match state_home {
        Some(d) => d,
        None => {
            let h = match home {
                Some(h) => h,
                None => String::new(),
            };
            join_dir(h, ".local/state")
        },
    };
    join_dir(base, "crawl/wallpaper_state.json")
}

} // verus!
