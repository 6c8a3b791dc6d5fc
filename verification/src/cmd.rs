//! What the Wayland side tells the windowing side.

use vstd::prelude::*;

verus! {

/// Transfer function (electro-optical curve) of a surface's content. `Pq` and
/// `Hlg` are the HDR curves; `Srgb` is ordinary SDR.
#[derive(Clone, Copy, PartialEq, Eq, Debug, Structural)]
pub enum TransferFn {
    Srgb,
    Pq,
    Hlg,
}

/// Color primaries (gamut) of a surface's content.
#[derive(Clone, Copy, PartialEq, Eq, Debug, Structural)]
pub enum Primaries {
    Srgb,
    DisplayP3,
    Bt2020,
}

/// A surface's negotiated color characteristics.
#[derive(Clone, Copy, PartialEq, Eq, Debug, Structural)]
pub struct ColorDesc {
    pub tf: TransferFn,
    pub primaries: Primaries,
    /// Maximum mastering luminance in cd/m2, if the client set it.
    pub max_luminance: Option<u32>,
    /// Reference (SDR) white luminance in cd/m2, if the client set it.
    pub ref_luminance: Option<u32>,
}

impl ColorDesc {
    /// The transfer curve is PQ or HLG.
    pub open spec fn spec_is_hdr(self) -> bool {
        self.tf == TransferFn::Pq || self.tf == TransferFn::Hlg
    }

    /// True when this content needs HDR output.
    pub fn is_hdr(&self) -> (b: bool)
        ensures
            b == self.spec_is_hdr(),
    {
        match self.tf {
            TransferFn::Pq => true,
            TransferFn::Hlg => true,
            TransferFn::Srgb => false,
        }
    }
}

/// Memory layout of raw pixels.
#[derive(Clone, Copy, PartialEq, Eq, Debug, Structural)]
pub enum PixelFormat {
    /// 32 bits, byte order B, G, R, X/A.
    Bgra8888,
    /// 32 bits, packed 2:10:10:10, little-endian.
    Rgb2101010,
    /// 64 bits, four 16-bit floats.
    Rgba16F,
}

/// A command to the windowing side.
///
/// `width`, `height` and `stride` are in buffer pixels and bytes. `dst_w` and
/// `dst_h` are a viewport destination in logical points, or 0 where the client set
/// none. `geom` is the content rectangle (x, y, w, h) inside the buffer, in logical
/// points, or all 0.
#[derive(Debug, PartialEq, Eq)]
pub enum WinCmd {
    /// Create a native window; `decorated` asks for a native titlebar.
    Create {
        id: u32,
        width: i32,
        height: i32,
        dst_w: i32,
        dst_h: i32,
        decorated: bool,
        title: String,
        geom: (i32, i32, i32, i32),
    },
    /// Present a committed buffer in a window.
    Frame {
        id: u32,
        width: i32,
        height: i32,
        stride: i32,
        dst_w: i32,
        dst_h: i32,
        pixels: Vec<u8>,
        format: PixelFormat,
        color: Option<ColorDesc>,
        geom: (i32, i32, i32, i32),
    },
    /// Update a window's title.
    Title { id: u32, title: String },
    /// Begin an interactive move.
    StartMove { id: u32 },
    /// Place a window at an absolute desktop offset: logical points, top-left origin.
    Move { id: u32, x: i32, y: i32 },
    /// Begin an interactive resize on the given edges.
    StartResize { id: u32, edges: u32 },
    /// Create a popup relative to its parent surface's top-left corner. `x_flip` and
    /// `y_flip` are the origin with anchor and gravity inverted on that axis.
    CreatePopup {
        id: u32,
        parent_id: u32,
        x: i32,
        y: i32,
        x_flip: i32,
        y_flip: i32,
        constraint: u32,
        width: i32,
        height: i32,
    },
    /// Set or clear the popup that grabs the pointer.
    SetGrab { window: Option<u32> },
    /// The client asked for a named cursor shape.
    SetCursor { shape: u32 },
    /// The client set a cursor image; `scale` buffer pixels make one point.
    SetCursorImage {
        width: i32,
        height: i32,
        stride: i32,
        hotspot_x: i32,
        hotspot_y: i32,
        scale: i32,
        pixels: Vec<u8>,
    },
    /// Hide the cursor.
    HideCursor,
    /// Show a subsurface as a layer of a window, at (x, y) inside it.
    SubFrame {
        window_id: u32,
        sub_id: u32,
        x: i32,
        y: i32,
        width: i32,
        height: i32,
        stride: i32,
        dst_w: i32,
        dst_h: i32,
        pixels: Vec<u8>,
        format: PixelFormat,
        color: Option<ColorDesc>,
    },
    /// Remove a subsurface's layer.
    SubDestroy { window_id: u32, sub_id: u32 },
    /// Maximize a window, or restore it.
    Maximize { id: u32, on: bool },
    /// Make a window cover its screen, or restore it.
    Fullscreen { id: u32, on: bool },
    /// Minimize a window.
    Minimize { id: u32 },
    /// Set a window's smallest content size.
    SetMinSize { id: u32, width: i32, height: i32 },
    /// Set a window's largest content size; 0 is no limit.
    SetMaxSize { id: u32, width: i32, height: i32 },
    /// Raise and focus a window.
    Activate { id: u32 },
    /// Mark a window as a modal dialog, or clear the mark.
    SetModal { id: u32, modal: bool },
    /// Set the icon of the application that a window belongs to.
    SetIcon { id: u32, width: i32, height: i32, stride: i32, pixels: Vec<u8> },
    /// Destroy a window.
    Destroy { id: u32 },
    /// Create a docked bar. Anchor bits: top 1, bottom 2, left 4, right 8.
    CreateLayer {
        id: u32,
        width: i32,
        height: i32,
        anchor: u32,
        margin_top: i32,
        margin_right: i32,
        margin_bottom: i32,
        margin_left: i32,
        keyboard: bool,
    },
}

} // verus!
