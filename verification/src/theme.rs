//! The palette, and which of its colours stands for what.

use vstd::prelude::*;
use crate::browse::{file_category, name_category, FileCat};

verus! {

/// A colour.
#[derive(Clone, Copy, Debug, PartialEq, Eq, Structural)]
pub struct Rgb {
    pub r: u8,
    pub g: u8,
    pub b: u8,
}

/// A palette.
#[derive(Clone, Copy, Debug, PartialEq, Eq, Structural)]
pub struct Colors {
    pub bg: Rgb,
    pub surface: Rgb,
    pub surface_hi: Rgb,
    pub sidebar: Rgb,
    pub input: Rgb,
    pub border: Rgb,
    pub text: Rgb,
    pub text_muted: Rgb,
    pub accent: Rgb,
    pub accent_hi: Rgb,
    pub ok: Rgb,
    pub warn: Rgb,
    pub err: Rgb,
    pub on_accent: Rgb,
}

impl Colors {
    /// The dark palette.
    pub fn dark() -> (c: Self)
        ensures
            c == dark_palette(),
    {
        Colors {
            bg: Rgb { r: 0x14, g: 0x16, b: 0x1b },
            surface: Rgb { r: 0x1b, g: 0x1e, b: 0x25 },
            surface_hi: Rgb { r: 0x23, g: 0x27, b: 0x30 },
            sidebar: Rgb { r: 0x10, g: 0x12, b: 0x17 },
            input: Rgb { r: 0x0f, g: 0x11, b: 0x16 },
            border: Rgb { r: 0x2c, g: 0x31, b: 0x3c },
            text: Rgb { r: 0xe6, g: 0xe8, b: 0xed },
            text_muted: Rgb { r: 0x8a, g: 0x90, b: 0x9c },
            accent: Rgb { r: 0x4c, g: 0x8d, b: 0xf0 },
            accent_hi: Rgb { r: 0x6a, g: 0xa3, b: 0xf5 },
            ok: Rgb { r: 0x3f, g: 0xb9, b: 0x68 },
            warn: Rgb { r: 0xd9, g: 0xa3, b: 0x3d },
            err: Rgb { r: 0xe0, g: 0x5d, b: 0x5d },
            on_accent: Rgb { r: 0xff, g: 0xff, b: 0xff },
        }
    }

    /// The light palette.
    pub fn light() -> (c: Self)
        ensures
            c == light_palette(),
    {
        Colors {
            bg: Rgb { r: 0xf6, g: 0xf7, b: 0xf9 },
            surface: Rgb { r: 0xff, g: 0xff, b: 0xff },
            surface_hi: Rgb { r: 0xee, g: 0xf0, b: 0xf3 },
            sidebar: Rgb { r: 0xed, g: 0xef, b: 0xf3 },
            input: Rgb { r: 0xf3, g: 0xf5, b: 0xf8 },
            border: Rgb { r: 0xd9, g: 0xdd, b: 0xe3 },
            text: Rgb { r: 0x1b, g: 0x1e, b: 0x25 },
            text_muted: Rgb { r: 0x5e, g: 0x65, b: 0x73 },
            accent: Rgb { r: 0x2f, g: 0x6f, b: 0xe0 },
            accent_hi: Rgb { r: 0x1f, g: 0x5f, b: 0xd6 },
            ok: Rgb { r: 0x2e, g: 0x9e, b: 0x55 },
            warn: Rgb { r: 0xb5, g: 0x7e, b: 0x16 },
            err: Rgb { r: 0xcf, g: 0x44, b: 0x44 },
            on_accent: Rgb { r: 0xff, g: 0xff, b: 0xff },
        }
    }
}

/// The dark palette.
pub open spec fn dark_palette() -> Colors {
    Colors {
        bg: Rgb { r: 0x14, g: 0x16, b: 0x1b },
        surface: Rgb { r: 0x1b, g: 0x1e, b: 0x25 },
        surface_hi: Rgb { r: 0x23, g: 0x27, b: 0x30 },
        sidebar: Rgb { r: 0x10, g: 0x12, b: 0x17 },
        input: Rgb { r: 0x0f, g: 0x11, b: 0x16 },
        border: Rgb { r: 0x2c, g: 0x31, b: 0x3c },
        text: Rgb { r: 0xe6, g: 0xe8, b: 0xed },
        text_muted: Rgb { r: 0x8a, g: 0x90, b: 0x9c },
        accent: Rgb { r: 0x4c, g: 0x8d, b: 0xf0 },
        accent_hi: Rgb { r: 0x6a, g: 0xa3, b: 0xf5 },
        ok: Rgb { r: 0x3f, g: 0xb9, b: 0x68 },
        warn: Rgb { r: 0xd9, g: 0xa3, b: 0x3d },
        err: Rgb { r: 0xe0, g: 0x5d, b: 0x5d },
        on_accent: Rgb { r: 0xff, g: 0xff, b: 0xff },
    }
}

/// The light palette.
pub open spec fn light_palette() -> Colors {
    Colors {
        bg: Rgb { r: 0xf6, g: 0xf7, b: 0xf9 },
        surface: Rgb { r: 0xff, g: 0xff, b: 0xff },
        surface_hi: Rgb { r: 0xee, g: 0xf0, b: 0xf3 },
        sidebar: Rgb { r: 0xed, g: 0xef, b: 0xf3 },
        input: Rgb { r: 0xf3, g: 0xf5, b: 0xf8 },
        border: Rgb { r: 0xd9, g: 0xdd, b: 0xe3 },
        text: Rgb { r: 0x1b, g: 0x1e, b: 0x25 },
        text_muted: Rgb { r: 0x5e, g: 0x65, b: 0x73 },
        accent: Rgb { r: 0x2f, g: 0x6f, b: 0xe0 },
        accent_hi: Rgb { r: 0x1f, g: 0x5f, b: 0xd6 },
        ok: Rgb { r: 0x2e, g: 0x9e, b: 0x55 },
        warn: Rgb { r: 0xb5, g: 0x7e, b: 0x16 },
        err: Rgb { r: 0xcf, g: 0x44, b: 0x44 },
        on_accent: Rgb { r: 0xff, g: 0xff, b: 0xff },
    }
}

/// The palette in use.
pub fn colors(dark: bool) -> (c: Colors)
    ensures
        c == (if dark {
            dark_palette()
        } else {
            light_palette()
        }),
{
    if dark {
        Colors::dark()
    } else {
        Colors::light()
    }
}

/// What a coloured mark says.
#[derive(Clone, Copy, Debug, PartialEq, Eq, Structural)]
pub enum BadgeKind {
    Good,
    Warn,
    Bad,
    Neutral,
    Accent,
}

/// The colour of a mark.
pub fn badge_color(kind: BadgeKind, c: Colors) -> (r: Rgb)
    ensures
        r == (match kind {
            BadgeKind::Good => c.ok,
            BadgeKind::Warn => c.warn,
            BadgeKind::Bad => c.err,
            BadgeKind::Accent => c.accent,
            BadgeKind::Neutral => c.text_muted,
        }),
{
    match kind {
        BadgeKind::Good => c.ok,
        BadgeKind::Warn => c.warn,
        BadgeKind::Bad => c.err,
        BadgeKind::Accent => c.accent,
        BadgeKind::Neutral => c.text_muted,
    }
}

/// The colour of a file's icon.
pub fn file_tint(name: &str, c: Colors) -> (r: Rgb)
    ensures
        r == (match name_category(name@) {
            FileCat::Image => c.ok,
            FileCat::Media => c.accent_hi,
            FileCat::Archive => c.warn,
            FileCat::Code => c.accent,
            FileCat::Other => c.text_muted,
        }),
{
    match file_category(name) {
        FileCat::Image => c.ok,
        FileCat::Media => c.accent_hi,
        FileCat::Archive => c.warn,
        FileCat::Code => c.accent,
        FileCat::Other => c.text_muted,
    }
}

} // verus!
