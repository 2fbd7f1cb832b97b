//! Theme state shared over IPC: the colour palette, dark or light variant,
//! and where the palette came from.

use vstd::prelude::*;
use crate::text::str_eq;

verus! {

/// The named colours of a theme, each as `#rrggbb` text.
#[derive(Debug, Clone, PartialEq)]
pub struct Palette {
    pub base: String,
    pub mantle: String,
    pub crust: String,
    pub surface0: String,
    pub surface1: String,
    pub surface2: String,
    pub text: String,
    pub subtext1: String,
    pub subtext0: String,
    pub primary: String,
    pub secondary: String,
    pub tertiary: String,
    pub error: String,
    pub warning: String,
    pub info: String,
    pub overlay0: String,
    pub overlay1: String,
    pub overlay2: String,
}

/// Dark or light theme.
#[derive(Debug, Clone, Copy, PartialEq, Eq, Structural)]
pub enum Variant {
    Dark,
    Light,
}

impl Default for Variant {
    fn default() -> (r: Self)
        ensures
            r == Variant::Dark,
    {
        Variant::Dark
    }
}

/// Where the palette comes from: a predefined theme, or colours taken from a wallpaper.
#[derive(Debug, Clone, PartialEq)]
pub enum ThemeSource {
    Predefined { name: String },
    Dynamic { wallpaper: String },
}

/// The theme in effect.
#[derive(Debug, Clone)]
pub struct ThemeState {
    pub source: ThemeSource,
    pub variant: Variant,
    pub palette: Palette,
    pub wallpaper: Option<String>,
}

/// The variant a request names (`dark` or `light`); anything else keeps `fallback`.
pub open spec fn variant_named(input: Option<Seq<char>>, fallback: Variant) -> Variant {
    match input {
        Some(s) => if s == "dark"@ {
            Variant::Dark
        } else if s == "light"@ {
            Variant::Light
        } else {
            fallback
        },
        None => fallback,
    }
}

/// Reads the variant a theme request asks for.
pub fn parse_variant(input: Option<&str>, fallback: Variant) -> (r: Variant)
    ensures
        r == variant_named(match input { Some(s) => Some(s@), None => None }, fallback),
{
    match input {
        Some(s) => {
            if str_eq(s, "dark") {
                Variant::Dark
            } else if str_eq(s, "light") {
                Variant::Light
            } else {
                fallback
            }
        },
        None => fallback,
    }
}

/// The variant a `variant` request switches to: `light`, or else dark.
pub fn variant_from_request(name: &str) -> (r: Variant)
    ensures
        r == (if name@ == "light"@ { Variant::Light } else { Variant::Dark }),
{
    if str_eq(name, "light") {
        Variant::Light
    } else {
        Variant::Dark
    }
}

} // verus!
