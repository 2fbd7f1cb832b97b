use crawl::backend::{display_command, frame_delay_ms, logical_size, shm_layout, show_plan, BackendCmd, OutputMode, OutputTransform, ShowPlan};
use crawl::canvas::{Pixel, RgbaCanvas};
use crawl::events::WallpaperEvent;
use crawl::image_cache::ImageCache;
use crawl::surfaces::{OutputInfoExt, OutputManager, OutputSurface, Renderer};
use crawl::transition::{frame_count, transition_config_for, transition_kind_from_name, TransitionConfig, TransitionKind};
use crawl::wallpaper::{
    default_wallpaper_path, missing_file_message, record_wallpaper, set_failed_message, startup_request, state_file_path,
    wallpaper_mode_from_name, wallpaper_set_request, CrawlbgError, WallpaperDefaults, WallpaperMode, WallpaperState,
};

fn canvas(v: u8) -> RgbaCanvas {
    RgbaCanvas::filled(1, 1, Pixel { r: v, g: v, b: v, a: 255 })
}

#[test]
fn wallpaper_state_get_after_set() {
    let mut st = WallpaperState::default();
    st.set("/a.png".into(), None);
    st.set("/b.png".into(), Some("DP-1".into()));
    assert_eq!(st.get(None), Some("/a.png"));
    assert_eq!(st.get(Some("DP-1")), Some("/b.png"));
    assert_eq!(st.get(Some("HDMI-1")), None);
    assert!(st.per_monitor_mode);
}

#[test]
fn wallpaper_set_request_defaults() {
    let r = wallpaper_set_request("/w.png".into(), None, None, None);
    assert_eq!(r.mode, WallpaperMode::Fill);
    assert_eq!(r.wallpaper_transition, "");
    assert_eq!((r.wallpaper_transition_duration_ms, r.wallpaper_transition_fps), (500, 30));
    let r = wallpaper_set_request("/w.png".into(), Some("DP-1".into()), Some("tile"), Some("wipe".into()));
    assert_eq!(r.mode, WallpaperMode::Tile);
    assert_eq!(r.monitor, Some("DP-1".to_string()));
    assert_eq!(wallpaper_mode_from_name("bogus"), WallpaperMode::Fill);
}

#[test]
fn recording_a_wallpaper_updates_state_and_announces_it() {
    let mut st = WallpaperState::default();
    let req = wallpaper_set_request("/w.png".into(), None, Some("fit"), None);
    match record_wallpaper(&mut st, &req) {
        WallpaperEvent::Changed { screen, path } => {
            assert_eq!(screen, "*");
            assert_eq!(path, "/w.png");
        }
        _ => panic!("expected a change event"),
    }
    assert_eq!(st.get(None), Some("/w.png"));
}

#[test]
fn wallpaper_messages_and_paths() {
    assert_eq!(missing_file_message("/nope.png"), "Wallpaper file not found: /nope.png");
    assert_eq!(set_failed_message("no display"), "Failed to set wallpaper: no display");
    assert_eq!(state_file_path(Some("/state".into()), None), "/state/crawl/wallpaper_state.json");
    assert_eq!(state_file_path(None, Some("/home/u".into())), "/home/u/.local/state/crawl/wallpaper_state.json");
    assert_eq!(state_file_path(None, None), ".local/state/crawl/wallpaper_state.json");
    let d = WallpaperDefaults { transition: "wipe".into(), transition_duration_ms: 250, transition_fps: 60, wallpaper: Some(String::new()) };
    assert_eq!(default_wallpaper_path(&d, "/assets/w.png"), "/assets/w.png");
    let d2 = WallpaperDefaults { wallpaper: Some("/mine.png".into()), ..d.clone() };
    assert_eq!(default_wallpaper_path(&d2, "/assets/w.png"), "/mine.png");
    let r = startup_request("/mine.png".into(), &d2);
    assert_eq!((r.wallpaper_transition.as_str(), r.wallpaper_transition_duration_ms, r.wallpaper_transition_fps), ("wipe", 250, 60));
    assert_eq!(r.monitor, None);
}

#[test]
fn crawlbg_error_texts() {
    assert_eq!(CrawlbgError::ImageNotFound("/x".into()).message(), "Image not found: /x");
    assert_eq!(
        CrawlbgError::ImageLoad { path: "/x".into(), source: "bad".into() }.message(),
        "Failed to load image /x: bad"
    );
    assert_eq!(CrawlbgError::OutputNotFound("DP-9".into()).message(), "Output not found: DP-9");
}

#[test]
fn transition_names() {
    assert_eq!(transition_kind_from_name("wave"), TransitionKind::Wave);
    assert_eq!(transition_kind_from_name("none"), TransitionKind::Instant);
    assert_eq!(transition_kind_from_name("sparkle"), TransitionKind::Fade);
    let c = transition_config_for("center", 60, 0x1_0000_0005);
    assert_eq!((c.kind, c.fps, c.duration_ms), (TransitionKind::Center, 60, 5));
    let d = TransitionConfig::default();
    assert_eq!((d.kind, d.fps, d.duration_ms), (TransitionKind::Fade, 30, 400));
}

#[test]
fn show_plans() {
    let fade = TransitionConfig::with_fps(TransitionKind::Fade, 400, 30);
    assert_eq!(show_plan(false, true, &fade), ShowPlan::StoreOnly);
    assert_eq!(show_plan(true, true, &fade), ShowPlan::Animate);
    assert_eq!(show_plan(true, false, &fade), ShowPlan::SingleFrame);
    let none = TransitionConfig::with_fps(TransitionKind::Instant, 400, 30);
    assert_eq!(show_plan(true, true, &none), ShowPlan::SingleFrame);
    let zero = TransitionConfig::with_fps(TransitionKind::Wipe, 0, 30);
    assert_eq!(show_plan(true, true, &zero), ShowPlan::SingleFrame);
    assert_eq!(frame_delay_ms(30), 33);
    assert_eq!(frame_delay_ms(0), 16);
    assert_eq!(shm_layout(1920, 1080), (7680, 7680 * 1080));
}

#[test]
fn display_command_targets() {
    let cfg = TransitionConfig::default();
    match display_command("*", "/w.png", &cfg, WallpaperMode::Fit, 30, None) {
        BackendCmd::DisplayImage { output_name, path, mode, .. } => {
            assert_eq!(output_name, None);
            assert_eq!(path, "/w.png");
            assert_eq!(mode, WallpaperMode::Fit);
        }
        BackendCmd::Shutdown => panic!("expected a display command"),
    }
    match display_command("DP-1", "/w.png", &cfg, WallpaperMode::Fill, 30, None) {
        BackendCmd::DisplayImage { output_name, .. } => assert_eq!(output_name, Some("DP-1".to_string())),
        BackendCmd::Shutdown => panic!("expected a display command"),
    }
}

#[test]
fn logical_size_follows_the_current_mode() {
    let modes = vec![
        OutputMode { width: 1280, height: 720, current: false },
        OutputMode { width: 2560, height: 1440, current: true },
    ];
    assert_eq!(logical_size(&modes, OutputTransform::Normal), (2560, 1440));
    assert_eq!(logical_size(&modes, OutputTransform::Rotated90), (1440, 2560));
    assert_eq!(logical_size(&modes, OutputTransform::Flipped180), (2560, 1440));
    assert_eq!(logical_size(&vec![], OutputTransform::Normal), (1920, 1080));
}

#[test]
fn output_manager_tracks_outputs() {
    let mut m = OutputManager::new();
    let modes = vec![OutputMode { width: 1920, height: 1200, current: true }];
    let info = OutputInfoExt::from_parts(Some("DP-1".into()), &modes, OutputTransform::Rotated270, 2).unwrap();
    m.update_output(info);
    assert_eq!(m.dimensions("DP-1"), Some((1200, 1920)));
    assert_eq!(m.scale("DP-1"), Some(2));
    assert_eq!(m.len(), 1);
    assert!(OutputInfoExt::from_parts(None, &modes, OutputTransform::Normal, 1).is_none());
    assert!(m.remove_output("DP-1"));
    assert!(!m.remove_output("DP-1"));
    assert!(m.is_empty());
}

#[test]
fn renderer_configures_surfaces() {
    let mut r: Renderer<u32> = Renderer::new();
    assert!(r.get_or_create("DP-1", || Some((7u32, 800, 600, 1))));
    assert!(r.get_or_create("DP-1", || None));
    assert!(!r.get_or_create("HDMI-1", || None));
    assert!(r.configure_surface("DP-1", 0, 0));
    let s = r.get("DP-1").unwrap();
    assert_eq!((s.layer, s.width, s.height, s.configured), (7, 800, 600, true));
    assert!(r.configure_surface("DP-1", 1024, 768));
    assert_eq!(r.get("DP-1").unwrap().width, 1024);
    assert!(r.update_scale("DP-1", 2));
    assert!(r.set_current_image("DP-1", canvas(3)));
    assert!(r.get("DP-1").unwrap().current_image.is_some());
    assert!(!r.configure_surface("HDMI-1", 1, 1));
    assert_eq!(r.surface_names(), vec!["DP-1".to_string()]);
    assert!(r.remove("DP-1"));
    assert!(r.get("DP-1").is_none());
}

#[test]
fn cache_get_after_put() {
    let mut c = ImageCache::with_capacity(2);
    c.put("/a".into(), canvas(1));
    assert_eq!(c.get("/a").unwrap().get_pixel(0, 0).r, 1);
    assert!(c.get("/b").is_none());
    assert_eq!(c.len(), 1);
}

#[test]
fn cache_evicts_the_least_recently_used() {
    let mut c = ImageCache::with_capacity(2);
    c.put("/a".into(), canvas(1));
    c.put("/b".into(), canvas(2));
    let _ = c.get("/a");
    c.put("/c".into(), canvas(3));
    assert!(c.contains("/a"));
    assert!(!c.contains("/b"));
    assert!(c.contains("/c"));
    assert_eq!(c.len(), 2);
}

#[test]
fn cache_replaces_and_removes() {
    let mut c = ImageCache::new();
    c.put("/a".into(), canvas(1));
    c.put("/a".into(), canvas(9));
    assert_eq!(c.len(), 1);
    assert_eq!(c.get("/a").unwrap().get_pixel(0, 0).r, 9);
    c.remove("/a");
    assert!(c.is_empty());
    c.put("/b".into(), canvas(2));
    c.clear();
    assert!(c.is_empty());
    let z = ImageCache::with_capacity(0);
    assert!(z.is_empty());
}

#[test]
fn output_surface_updates_keep_the_rest() {
    let mut s = OutputSurface::new("layer", 800, 600, 1);
    s.update_size(1024, 768);
    assert_eq!((s.width, s.height, s.scale, s.configured), (1024, 768, 1, false));
    s.update_scale(2);
    assert_eq!((s.width, s.height, s.scale), (1024, 768, 2));
    assert_eq!(s.layer, "layer");
}

#[test]
fn output_manager_lists_every_output() {
    let modes = vec![OutputMode { width: 1920, height: 1080, current: true }];
    let mut m = OutputManager::new();
    m.update_output(OutputInfoExt::from_parts(Some("DP-1".to_string()), &modes, OutputTransform::Normal, 1).unwrap());
    m.update_output(OutputInfoExt::from_parts(Some("HDMI-A-1".to_string()), &modes, OutputTransform::Rotated90, 2).unwrap());
    let mut all: Vec<(String, u32, u32)> = m.all().into_iter().map(|o| (o.name, o.width, o.height)).collect();
    all.sort();
    assert_eq!(all, vec![("DP-1".to_string(), 1920, 1080), ("HDMI-A-1".to_string(), 1080, 1920)]);
}

#[test]
fn cache_load_decodes_and_keeps_the_image() {
    // A 1x1 red PNG.
    let png: Vec<u8> = vec![
        0x89, 0x50, 0x4e, 0x47, 0x0d, 0x0a, 0x1a, 0x0a, 0x00, 0x00, 0x00, 0x0d, 0x49, 0x48, 0x44, 0x52,
        0x00, 0x00, 0x00, 0x01, 0x00, 0x00, 0x00, 0x01, 0x08, 0x02, 0x00, 0x00, 0x00, 0x90, 0x77, 0x53,
        0xde, 0x00, 0x00, 0x00, 0x0c, 0x49, 0x44, 0x41, 0x54, 0x78, 0x9c, 0x63, 0xf8, 0xcf, 0xc0, 0x00,
        0x00, 0x03, 0x01, 0x01, 0x00, 0xc9, 0xfe, 0x92, 0xef, 0x00, 0x00, 0x00, 0x00, 0x49, 0x45, 0x4e,
        0x44, 0xae, 0x42, 0x60, 0x82,
    ];
    let mut c = ImageCache::with_capacity(2);
    match c.load("/bad.png", b"not an image") {
        Err(e) => assert_eq!(e.message(), "open image /bad.png"),
        Ok(_) => panic!("expected an open error"),
    }
    assert!(c.is_empty());
    let img = c.load("/red.png", &png).unwrap();
    assert_eq!((img.width(), img.height()), (1, 1));
    assert!(c.contains("/red.png"));
    assert_eq!(c.get("/red.png").unwrap().pixels().clone(), img.pixels().clone());
}

#[test]
fn transition_frame_counts() {
    assert_eq!(frame_count(30, 500), 15);
    assert_eq!(frame_count(3, 500), 2);
    assert_eq!(frame_count(60, 1010), 61);
    assert_eq!(frame_count(1, 499), 1);
    assert_eq!(frame_count(0, 2000), 1);
    assert_eq!(frame_count(u32::MAX, u32::MAX), u32::MAX);
    for fps in [1u32, 7, 24, 30, 59, 60, 144] {
        for d in [0u32, 1, 333, 500, 999, 1500, 12345] {
            let f = ((fps as f64 * d as f64) / 1000.0).round() as u32;
            assert_eq!(frame_count(fps, d), f.max(1));
        }
    }
}
