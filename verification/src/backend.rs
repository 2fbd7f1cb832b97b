//! The Wayland wallpaper backend's commands and decisions: what a display
//! request sends to the backend thread, how a new image is shown on one
//! output (stored, shown at once, or animated), how long each frame stays,
//! and an output's logical size.

use vstd::prelude::*;
use vstd::string::StringExecFns;
use crate::canvas::RgbaCanvas;
use crate::text::str_eq;
use crate::transition::{TransitionConfig, TransitionKind};
use crate::wallpaper::WallpaperMode;
use std::sync::mpsc::SyncSender;

verus! {

#[verifier::external_type_specification]
#[verifier::external_body]
#[verifier::reject_recursive_types(T)]
pub struct ExSyncSender<T>(SyncSender<T>);

/// A command for the backend thread.
pub enum BackendCmd {
    DisplayImage {
        /// The output to draw on; `None` for every output.
        output_name: Option<String>,
        path: String,
        cfg: TransitionConfig,
        mode: WallpaperMode,
        fps: u32,
        /// The image, when the caller has decoded it already.
        image_data: Option<RgbaCanvas>,
    },
    Shutdown,
}

/// The output a display request names: `*` means every output.
pub open spec fn target_output(output: Seq<char>) -> Option<Seq<char>> {
    if output == "*"@ {
        None
    } else {
        Some(output)
    }
}

/// The command that shows the image at `path` on `output` (`*` for all).
pub fn display_command(
    output: &str,
    path: &str,
    cfg: &TransitionConfig,
    mode: WallpaperMode,
    fps: u32,
    image: Option<RgbaCanvas>,
) -> (c: BackendCmd)
    ensures
        c matches BackendCmd::DisplayImage { output_name, path: p, cfg: k, mode: m, fps: f, image_data } && (match output_name {
            Some(n) => target_output(output@) == Some(n@),
            None => target_output(output@) is None,
        }) && p@ == path@ && k == *cfg && m == mode && f == fps && image_data == image,
{
    let output_name = if str_eq(output, "*") {
        None
    } else {
        Some(String::from_str(output))
    };
    BackendCmd::DisplayImage { output_name, path: String::from_str(path), cfg: *cfg, mode, fps, image_data: image }
}

/// `SyncSender::send`: hands the command to the backend thread, waiting
/// while its queue is full; false when the thread has ended.
#[verifier::external_body]
fn send_cmd(tx: &SyncSender<BackendCmd>, cmd: BackendCmd) -> bool {
    tx.send(cmd).is_ok()
}

/// The handle of the backend thread.
pub struct WaylandBackend {
    tx: SyncSender<BackendCmd>,
}

impl WaylandBackend {
    /// The sending end of the channel to the backend thread.
    pub closed spec fn sender(&self) -> SyncSender<BackendCmd> {
        self.tx
    }

    /// The handle that talks to the backend thread through `tx`.
    pub fn from_sender(tx: SyncSender<BackendCmd>) -> (b: Self)
        ensures
            b.sender() == tx,
    {
        WaylandBackend { tx }
    }

    /// Asks the backend thread to show the image at `path` on `output`
    /// (`*` for every output). Returns whether the thread took the command.
    pub fn display_image(
        &self,
        output: &str,
        path: &str,
        cfg: &TransitionConfig,
        mode: WallpaperMode,
        fps: u32,
        image: Option<RgbaCanvas>,
    ) -> bool {
        send_cmd(&self.tx, display_command(output, path, cfg, mode, fps, image))
    }

    /// Asks the backend thread to end.
    pub fn shutdown(&self) -> bool {
        send_cmd(&self.tx, BackendCmd::Shutdown)
    }
}

// ── Showing an image on one output ───────────────────────────────────────────

/// How a new image reaches an output.
#[derive(Debug, Clone, Copy, PartialEq, Eq, Structural)]
pub enum ShowPlan {
    /// The surface is not configured yet: keep the arranged image for later.
    StoreOnly,
    /// Draw the arranged image at once.
    SingleFrame,
    /// Animate from the image shown now to the new one.
    Animate,
}

/// An unconfigured surface only keeps the image; a transition is played when
/// there is one (not `none`), an image is shown already and the duration is
/// not zero; otherwise the image is drawn at once.
pub open spec fn show_plan_spec(configured: bool, has_current: bool, cfg: TransitionConfig) -> ShowPlan {
    if !configured {
        ShowPlan::StoreOnly
    } else if cfg.kind != TransitionKind::Instant && has_current && cfg.duration_ms > 0 {
        ShowPlan::Animate
    } else {
        ShowPlan::SingleFrame
    }
}

/// How a new image reaches an output.
pub fn show_plan(configured: bool, has_current: bool, cfg: &TransitionConfig) -> (p: ShowPlan)
    ensures
        p == show_plan_spec(configured, has_current, *cfg),
{
    if !configured {
        ShowPlan::StoreOnly
    } else if cfg.kind != TransitionKind::Instant && has_current && cfg.duration_ms > 0 {
        ShowPlan::Animate
    } else {
        ShowPlan::SingleFrame
    }
}

/// How long each frame of an animation stays: a second divided by the frame
/// rate, or 16 ms when no rate is given.
pub fn frame_delay_ms(fps: u32) -> (d: u32)
    ensures
        d == (if fps > 0 { 1000u32 / fps } else { 16u32 }),
{
    if fps > 0 { 1000 / fps } else { 16 }
}

/// The row stride and size in bytes of an XRGB8888 buffer for a `width` by
/// `height` surface, as the shared-memory pool takes them.
pub fn shm_layout(width: u32, height: u32) -> (r: (i32, usize))
    requires
        width * 4 <= i32::MAX,
        width * 4 * height <= usize::MAX,
    ensures
        r.0 == width * 4,
        r.1 == width * 4 * height,
{
    let stride: i32 = (width as i32) * 4;
    proof {
        assert((stride as usize) * (height as usize) == width * 4 * height);
    }
    (stride, (stride as usize) * (height as usize))
}

// ── Output geometry ──────────────────────────────────────────────────────────

/// How an output's image is rotated or flipped.
#[derive(Debug, Clone, Copy, PartialEq, Eq, Structural)]
pub enum OutputTransform {
    Normal,
    Rotated90,
    Rotated180,
    Rotated270,
    Flipped,
    Flipped90,
    Flipped180,
    Flipped270,
}

/// One video mode an output reports.
#[derive(Debug, Clone, Copy, PartialEq, Eq)]
pub struct OutputMode {
    pub width: i32,
    pub height: i32,
    /// Whether the output uses this mode now.
    pub current: bool,
}

/// The transforms that turn the output a quarter turn.
pub open spec fn swaps_sides(t: OutputTransform) -> bool {
    t == OutputTransform::Rotated90 || t == OutputTransform::Rotated270 || t == OutputTransform::Flipped90
        || t == OutputTransform::Flipped270
}

/// The index of the first current mode, or `None`.
pub open spec fn first_current(modes: Seq<OutputMode>) -> Option<int> {
    if exists|i: int| 0 <= i < modes.len() && modes[i].current {
        Some(choose|i: int| 0 <= i < modes.len() && modes[i].current && forall|j: int| 0 <= j < i ==> !modes[j].current)
    } else {
        None
    }
}

/// An output's logical size: the pixel size of its current mode (each side
/// taken as `u32`), sides swapped when the output is turned a quarter turn;
/// 1920 by 1080 when no mode is current.
pub open spec fn logical_size_spec(modes: Seq<OutputMode>, transform: OutputTransform) -> (u32, u32) {
    match first_current(modes) {
        Some(i) => {
            let (pw, ph) = (modes[i].width as u32, modes[i].height as u32);
            if swaps_sides(transform) {
                (ph, pw)
            } else {
                (pw, ph)
            }
        },
        None => (1920, 1080),
    }
}

/// An output's logical size.
pub fn logical_size(modes: &Vec<OutputMode>, transform: OutputTransform) -> (r: (u32, u32))
    ensures
        r == logical_size_spec(modes@, transform),
{
    let mut i: usize = 0;
    while i < modes.len()
        invariant
            i <= modes.len(),
            forall|j: int| 0 <= j < i ==> !modes@[j].current,
        decreases modes.len() - i,
    {
        if modes[i].current {
            let pw = modes[i].width as u32;
            let ph = modes[i].height as u32;
            proof {
                assert(0 <= i < modes@.len() && modes@[i as int].current);
                let k = choose|k: int| 0 <= k < modes@.len() && modes@[k].current && forall|j: int| 0 <= j < k ==> !modes@[j].current;
                assert(forall|j: int| 0 <= j < i ==> !modes@[j].current);
                if k < i {
                    assert(!modes@[k].current);
                } else if k > i {
                    assert(!modes@[i as int].current);
                }
                assert(k == i);
            }
            let swap = match transform {
                OutputTransform::Rotated90 | OutputTransform::Rotated270 | OutputTransform::Flipped90
                | OutputTransform::Flipped270 => true,
                _ => false,
            };
            return if swap { (ph, pw) } else { (pw, ph) };
        }
        i = i + 1;
    }
    (1920, 1080)
}

} // verus!
