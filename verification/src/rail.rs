//! The back-end that mirrors the windows of a remote (RDP/RAIL) session.
//!
//! Geometry arrives in physical pixels at the session's scale and is turned into
//! logical points here; input goes back as RDP pointer flags and scancodes.

use crate::cmd::{PixelFormat, WinCmd};
use crate::geometry::{points, spec_points, UNIT};
use crate::idmap::IdMap;
use crate::input::{output_size, scale, Display, InputEvent};
use crate::text::{parse_i32, parsed_i32};
use vstd::prelude::*;
use vstd::string::*;

verus! {

/// Pointer flag: motion.
pub const PTR_FLAGS_MOVE: u16 = 0x0800;

/// Pointer flag: a button goes down.
pub const PTR_FLAGS_DOWN: u16 = 0x8000;

/// Pointer flag: left button.
pub const PTR_FLAGS_BUTTON1: u16 = 0x1000;

/// Pointer flag: right button.
pub const PTR_FLAGS_BUTTON2: u16 = 0x2000;

/// Pointer flag: middle button.
pub const PTR_FLAGS_BUTTON3: u16 = 0x4000;

/// Pointer flag: wheel rotation, whose size stands in the low eight bits.
pub const PTR_FLAGS_WHEEL: u16 = 0x0200;

/// Pointer flag: the rotation is downward.
pub const PTR_FLAGS_WHEEL_NEGATIVE: u16 = 0x0100;

/// The flag of an evdev button; buttons other than left, right and middle have none.
pub open spec fn spec_button_flag(button: u32) -> u16 {
    if button == 0x110 {
        PTR_FLAGS_BUTTON1
    } else if button == 0x111 {
        PTR_FLAGS_BUTTON2
    } else if button == 0x112 {
        PTR_FLAGS_BUTTON3
    } else {
        0
    }
}

/// The flag of an evdev button.
pub fn button_flag(button: u32) -> (r: u16)
    ensures
        r == spec_button_flag(button),
        r <= 0x4000,
{
    match button {
        0x110 => PTR_FLAGS_BUTTON1,
        0x111 => PTR_FLAGS_BUTTON2,
        0x112 => PTR_FLAGS_BUTTON3,
        _ => 0,
    }
}

/// A quotient rounded toward 0.
pub open spec fn toward_zero(v: int, by: int) -> int {
    if v >= 0 {
        v / by
    } else {
        -((-v) / by)
    }
}

fn div_toward_zero(v: i32, by: i32) -> (r: i32)
    requires
        by >= 1,
    ensures
        r == toward_zero(v as int, by as int),
{
    let n: i64 = v as i64;
    if n >= 0 {
        let q: u64 = n as u64 / by as u64;
        assert(q <= n) by (nonlinear_arith)
            requires
                q == n as int / by as int,
                by >= 1,
                n >= 0,
        ;
        q as i32
    } else {
        let m: u64 = (-n) as u64;
        let q: u64 = m / by as u64;
        assert(q <= m) by (nonlinear_arith)
            requires
                q == m as int / by as int,
                by >= 1,
                m >= 0,
        ;
        (-(q as i64)) as i32
    }
}

/// A physical side in points; one beyond `i32::MAX` counts as 1.
pub open spec fn side_points(side: u32, scale: i32) -> int {
    if side > i32::MAX {
        1
    } else {
        spec_points(side as i32, scale)
    }
}

fn side(v: u32, s: i32) -> (r: i32)
    requires
        s >= 1,
    ensures
        r == side_points(v, s),
        r >= 1,
{
    if v > 0x7fff_ffff {
        1
    } else {
        points(v as i32, s)
    }
}

/// A coordinate or distance in 1/256 of a point as whole points, rounded toward 0.
pub open spec fn whole(v: i64) -> int {
    let p = toward_zero(v as int, 256);
    if p > i32::MAX {
        i32::MAX as int
    } else if p < i32::MIN {
        i32::MIN as int
    } else {
        p
    }
}

fn whole_points(v: i64) -> (r: i32)
    ensures
        r == whole(v),
{
    let p: i64 = if v >= 0 {
        v / UNIT
    } else if v == i64::MIN {
        -0x80_0000_0000_0000
    } else {
        -((-v) / UNIT)
    };
    if p > 0x7fff_ffff {
        0x7fff_ffff
    } else if p < -0x8000_0000 {
        -0x8000_0000
    } else {
        p as i32
    }
}

/// What the session makes the windowing side do.
#[derive(Debug, PartialEq, Eq)]
pub enum RailOut {
    /// The window has an application of its own, named after its title.
    Assign { id: u32, title: String },
    Post { cmd: WinCmd },
}

/// What is sent to the remote session.
#[derive(Clone, Copy, PartialEq, Eq, Debug, Structural)]
pub enum RailSend {
    Pointer { window_id: u32, x: i32, y: i32, flags: u16 },
    Key { scancode: u16, down: bool },
}

/// Raw 8-bit pixels.
#[derive(Debug)]
pub struct Bitmap {
    pub width: u32,
    pub height: u32,
    pub stride: u32,
    pub pixels: Vec<u8>,
}

/// What is known of a session.
pub struct RailView {
    /// Physical pixels per point.
    pub scale: i32,
    /// The windows that were opened and not deleted yet, in order.
    pub live: Seq<u32>,
    /// Each window's size in points.
    pub logical: Map<u64, (i32, i32)>,
    /// Where the pointer was last.
    pub last: (i32, i32),
}

/// Holds of every window but one.
pub open spec fn other_than(id: u32) -> spec_fn(u32) -> bool {
    |w: u32| w != id
}

/// A window is placed at its position in points.
pub open spec fn moved(id: u32, x: i32, y: i32, scale: i32) -> RailOut {
    RailOut::Post {
        cmd: WinCmd::Move {
            id,
            x: toward_zero(x as int, scale as int) as i32,
            y: toward_zero(y as int, scale as int) as i32,
        },
    }
}

impl RailView {
    /// The size of a window in points.
    pub open spec fn size_of(self, w: u32, h: u32) -> (i32, i32) {
        (side_points(w, self.scale) as i32, side_points(h, self.scale) as i32)
    }

    /// The size that a window's pixels are shown at: the tracked one, or else the
    /// buffer's own in points.
    pub open spec fn shown_size(self, id: u32, w: u32, h: u32) -> (i32, i32) {
        if self.logical.contains_key(id as u64) {
            self.logical[id as u64]
        } else {
            self.size_of(w, h)
        }
    }

    /// Where a pointer event of the session goes and what it says; none for events that
    /// the session has no use for.
    pub open spec fn forward(self, ev: InputEvent) -> (RailView, Option<RailSend>) {
        match ev {
            InputEvent::PointerEnter { window_id, x, y } => self.pointed(window_id, x, y),
            InputEvent::PointerMotion { window_id, x, y } => self.pointed(window_id, x, y),
            InputEvent::PointerButton { window_id, button, pressed } => (
                self,
                Some(
                    RailSend::Pointer {
                        window_id,
                        x: self.last.0,
                        y: self.last.1,
                        flags: (spec_button_flag(button) + if pressed {
                            PTR_FLAGS_DOWN as int
                        } else {
                            0
                        }) as u16,
                    },
                ),
            ),
            InputEvent::PointerAxis { dx, dy } => (
                self,
                if wheel_step(dx, dy) == 0 {
                    None
                } else {
                    Some(
                        RailSend::Pointer {
                            window_id: 0,
                            x: self.last.0,
                            y: self.last.1,
                            flags: wheel_flags(wheel_step(dx, dy)),
                        },
                    )
                },
            ),
            InputEvent::Key { keycode, pressed } => (
                self,
                Some(RailSend::Key { scancode: keycode as u16, down: pressed }),
            ),
            _ => (self, None),
        }
    }

    /// The pointer is at a place.
    pub open spec fn pointed(self, window_id: u32, x: i64, y: i64) -> (RailView, Option<RailSend>) {
        let last = (whole(x) as i32, whole(y) as i32);
        (
            RailView { last, ..self },
            Some(
                RailSend::Pointer { window_id, x: last.0, y: last.1, flags: PTR_FLAGS_MOVE },
            ),
        )
    }
}

/// Destroys each of these windows, in their order.
pub open spec fn destroy_each(live: Seq<u32>) -> Seq<RailOut> {
    live.map_values(|id: u32| RailOut::Post { cmd: WinCmd::Destroy { id } })
}

/// A cursor bitmap as the cursor; none where it has no area.
pub open spec fn cursor_of(b: Bitmap, hotspot_x: u32, hotspot_y: u32) -> Option<RailOut> {
    if b.width == 0 || b.height == 0 {
        None
    } else {
        Some(
            RailOut::Post {
                cmd: WinCmd::SetCursorImage {
                    width: b.width as i32,
                    height: b.height as i32,
                    stride: b.stride as i32,
                    hotspot_x: hotspot_x as i32,
                    hotspot_y: hotspot_y as i32,
                    scale: 1,
                    pixels: b.pixels,
                },
            },
        )
    }
}

/// An icon bitmap as a window's icon; none where it has no area.
pub open spec fn icon_of(id: u32, b: Bitmap) -> Option<RailOut> {
    if b.width == 0 || b.height == 0 {
        None
    } else {
        Some(
            RailOut::Post {
                cmd: WinCmd::SetIcon {
                    id,
                    width: b.width as i32,
                    height: b.height as i32,
                    stride: b.stride as i32,
                    pixels: b.pixels,
                },
            },
        )
    }
}

impl RailView {
    /// A remote window appears; one without an area is skipped.
    pub open spec fn created(
        self,
        id: u32,
        x: i32,
        y: i32,
        w: u32,
        h: u32,
        title: String,
    ) -> (RailView, Seq<RailOut>) {
        if w == 0 || h == 0 {
            (self, Seq::empty())
        } else {
            let size = self.size_of(w, h);
            (
                RailView {
                    live: self.live.push(id),
                    logical: self.logical.insert(id as u64, size),
                    ..self
                },
                seq![
                    RailOut::Assign { id, title },
                    RailOut::Post {
                        cmd: WinCmd::Create {
                            id,
                            width: size.0,
                            height: size.1,
                            dst_w: size.0,
                            dst_h: size.1,
                            decorated: false,
                            title,
                            geom: (0, 0, 0, 0),
                        },
                    },
                    moved(id, x, y, self.scale),
                ],
            )
        }
    }

    /// A remote window moves, and takes a size that has an area.
    pub open spec fn updated(self, id: u32, x: i32, y: i32, w: u32, h: u32) -> (RailView, RailOut) {
        (
            if w > 0 && h > 0 {
                RailView {
                    logical: self.logical.insert(id as u64, self.size_of(w, h)),
                    ..self
                }
            } else {
                self
            },
            moved(id, x, y, self.scale),
        )
    }

    /// A remote window goes.
    pub open spec fn deleted(self, id: u32) -> (RailView, RailOut) {
        (
            RailView {
                live: self.live.filter(other_than(id)),
                logical: self.logical.remove(id as u64),
                ..self
            },
            RailOut::Post { cmd: WinCmd::Destroy { id } },
        )
    }

    /// A remote window's pixels; none where they have no area.
    pub open spec fn shown(self, id: u32, b: Bitmap) -> Option<RailOut> {
        if b.width == 0 || b.height == 0 {
            None
        } else {
            Some(
                RailOut::Post {
                    cmd: WinCmd::Frame {
                        id,
                        width: b.width as i32,
                        height: b.height as i32,
                        stride: b.stride as i32,
                        dst_w: self.shown_size(id, b.width, b.height).0,
                        dst_h: self.shown_size(id, b.width, b.height).1,
                        pixels: b.pixels,
                        format: PixelFormat::Bgra8888,
                        color: None,
                        geom: (0, 0, 0, 0),
                    },
                },
            )
        }
    }

    /// The session ends.
    pub open spec fn disconnected(self) -> (RailView, Seq<RailOut>) {
        (RailView { live: Seq::empty(), ..self }, destroy_each(self.live))
    }
}

/// The size of a number.
pub open spec fn magnitude(v: int) -> int {
    if v < 0 {
        -v
    } else {
        v
    }
}

/// The vertical rotation that counts: none where the horizontal one is larger.
pub open spec fn wheel_step(dx: i64, dy: i64) -> int {
    if magnitude(dy as int) >= magnitude(dx as int) {
        dy as int
    } else {
        0
    }
}

/// Ten units of rotation per point, from 1 to 120.
pub open spec fn wheel_size(step: int) -> int {
    let v = magnitude(step) * 10 / 256;
    if v > 120 {
        120
    } else if v < 1 {
        1
    } else {
        v
    }
}

/// The flags of a rotation.
pub open spec fn wheel_flags(step: int) -> u16 {
    (PTR_FLAGS_WHEEL + wheel_size(step) + if step > 0 {
        PTR_FLAGS_WHEEL_NEGATIVE as int
    } else {
        0
    }) as u16
}

/// A remote session.
pub struct RailSession {
    scale: i32,
    live: Vec<u32>,
    logical: IdMap<(i32, i32)>,
    last: (i32, i32),
}

impl View for RailSession {
    type V = RailView;

    closed spec fn view(&self) -> RailView {
        RailView {
            scale: self.scale,
            live: self.live@,
            logical: self.logical@,
            last: self.last,
        }
    }
}

impl RailSession {
    /// The table is sound and the scale 1 or more.
    pub closed spec fn wf(&self) -> bool {
        self.logical.wf() && self.scale >= 1
    }

    /// A session at a scale; anything below 1 counts as 1.
    pub fn new(scale: i32) -> (r: Self)
        ensures
            r.wf(),
            r@ == (RailView {
                scale: if scale < 1 {
                    1
                } else {
                    scale
                },
                live: Seq::empty(),
                logical: Map::empty(),
                last: (0, 0),
            }),
    {
        let r = RailSession {
            scale: if scale < 1 { 1 } else { scale },
            live: Vec::new(),
            logical: IdMap::new(),
            last: (0, 0),
        };
        assert(r@.live =~= Seq::<u32>::empty());
        r
    }

    /// Physical pixels per point.
    pub fn rail_scale(&self) -> (s: i32)
        requires
            self.wf(),
        ensures
            s == self@.scale,
            s >= 1,
    {
        self.scale
    }

    /// A remote window appears. Windows without an area never get content and are
    /// skipped. The native window is borderless: the application decorates itself.
    pub fn on_window_create(&mut self, id: u32, x: i32, y: i32, w: u32, h: u32, title: String) -> (out:
        Vec<RailOut>)
        requires
            old(self).wf(),
        ensures
            final(self).wf(),
            (final(self)@, out@) == old(self)@.created(id, x, y, w, h, title),
    {
        let mut out: Vec<RailOut> = Vec::new();
        if w == 0 || h == 0 {
            return out;
        }
        let s: i32 = self.scale;
        let lw: i32 = side(w, s);
        let lh: i32 = side(h, s);
        self.live.push(id);
        self.logical.insert(id as u64, (lw, lh));
        out.push(RailOut::Assign { id, title: title.clone() });
        out.push(
            RailOut::Post {
                cmd: WinCmd::Create {
                    id,
                    width: lw,
                    height: lh,
                    dst_w: lw,
                    dst_h: lh,
                    decorated: false,
                    title,
                    geom: (0, 0, 0, 0),
                },
            },
        );
        out.push(
            RailOut::Post {
                cmd: WinCmd::Move { id, x: div_toward_zero(x, s), y: div_toward_zero(y, s) },
            },
        );
        assert(out@ =~= seq![out@[0], out@[1], out@[2]]);
        out
    }

    /// The server moved or resized a window: it owns the position, so the native
    /// window follows. A size without an area is not taken over.
    pub fn on_window_update(&mut self, id: u32, x: i32, y: i32, w: u32, h: u32) -> (out: RailOut)
        requires
            old(self).wf(),
        ensures
            final(self).wf(),
            (final(self)@, out) == old(self)@.updated(id, x, y, w, h),
    {
        let s: i32 = self.scale;
        if w > 0 && h > 0 {
            self.logical.insert(id as u64, (side(w, s), side(h, s)));
        }
        RailOut::Post { cmd: WinCmd::Move { id, x: div_toward_zero(x, s), y: div_toward_zero(y, s) } }
    }

    /// The server deleted a window.
    pub fn on_window_delete(&mut self, id: u32) -> (out: RailOut)
        requires
            old(self).wf(),
        ensures
            final(self).wf(),
            (final(self)@, out) == old(self)@.deleted(id),
    {
        let mut kept: Vec<u32> = Vec::new();
        let ghost all = self.live@;
        let mut i: usize = 0;
        while i < self.live.len()
            invariant
                i <= self.live@.len(),
                *self == *old(self),
                all == self.live@,
                kept@ == all.take(i as int).filter(other_than(id)),
            decreases self.live@.len() - i,
        {
            let w: u32 = self.live[i];
            proof {
                assert(all.take(i + 1) =~= all.take(i as int).push(w));
                all.take(i as int).lemma_filter_push(w, other_than(id));
            }
            if w != id {
                kept.push(w);
            }
            i = i + 1;
        }
        assert(all.take(i as int) =~= all);
        self.live = kept;
        let _ = self.logical.remove(id as u64);
        RailOut::Post { cmd: WinCmd::Destroy { id } }
    }

    /// New pixels for a window, shown at its size in points. Bitmaps without an area are
    /// dropped.
    pub fn on_window_surface(&self, id: u32, b: Bitmap) -> (out: Option<RailOut>)
        requires
            self.wf(),
        ensures
            out == self@.shown(id, b),
    {
        if b.width == 0 || b.height == 0 {
            return None;
        }
        let (dst_w, dst_h): (i32, i32) = match self.logical.get(id as u64) {
            Some(d) => *d,
            None => (side(b.width, self.scale), side(b.height, self.scale)),
        };
        Some(
            RailOut::Post {
                cmd: WinCmd::Frame {
                    id,
                    width: #[verifier::truncate] (b.width as i32),
                    height: #[verifier::truncate] (b.height as i32),
                    stride: #[verifier::truncate] (b.stride as i32),
                    dst_w,
                    dst_h,
                    pixels: b.pixels,
                    format: PixelFormat::Bgra8888,
                    color: None,
                    geom: (0, 0, 0, 0),
                },
            },
        )
    }

    /// The session ended: every window that it still has is destroyed, in the order in
    /// which they were opened, and is no longer among its windows. A late delete of one
    /// of them still posts its own `Destroy`, which finds no native window.
    pub fn on_disconnected(&mut self) -> (out: Vec<RailOut>)
        requires
            old(self).wf(),
        ensures
            final(self).wf(),
            (final(self)@, out@) == old(self)@.disconnected(),
    {
        let mut out: Vec<RailOut> = Vec::new();
        let ghost all = self.live@;
        let mut i: usize = 0;
        while i < self.live.len()
            invariant
                i <= self.live@.len(),
                *self == *old(self),
                all == self.live@,
                out@ =~= all.take(i as int).map_values(
                    |id: u32| RailOut::Post { cmd: WinCmd::Destroy { id } },
                ),
            decreases self.live@.len() - i,
        {
            out.push(RailOut::Post { cmd: WinCmd::Destroy { id: self.live[i] } });
            i = i + 1;
        }
        assert(all.take(i as int) =~= all);
        self.live = Vec::new();
        assert(self@.live =~= Seq::<u32>::empty());
        assert(out@ =~= destroy_each(all));
        out
    }

    /// Turns an input event into what the session understands.
    pub fn forward(&mut self, ev: InputEvent) -> (r: Option<RailSend>)
        requires
            old(self).wf(),
        ensures
            final(self).wf(),
            (final(self)@, r) == old(self)@.forward(ev),
    {
        match ev {
            InputEvent::PointerEnter { window_id, x, y } => {
                self.last = (whole_points(x), whole_points(y));
                Some(
                    RailSend::Pointer {
                        window_id,
                        x: self.last.0,
                        y: self.last.1,
                        flags: PTR_FLAGS_MOVE,
                    },
                )
            },
            InputEvent::PointerMotion { window_id, x, y } => {
                self.last = (whole_points(x), whole_points(y));
                Some(
                    RailSend::Pointer {
                        window_id,
                        x: self.last.0,
                        y: self.last.1,
                        flags: PTR_FLAGS_MOVE,
                    },
                )
            },
            InputEvent::PointerButton { window_id, button, pressed } => {
                let flags: u16 = button_flag(button) + if pressed { PTR_FLAGS_DOWN } else { 0 };
                Some(RailSend::Pointer { window_id, x: self.last.0, y: self.last.1, flags })
            },
            InputEvent::PointerAxis { dx, dy } => {
                let step: i128 = wheel(dx, dy);
                if step == 0 {
                    None
                } else {
                    Some(
                        RailSend::Pointer {
                            window_id: 0,
                            x: self.last.0,
                            y: self.last.1,
                            flags: wheel_word(step),
                        },
                    )
                }
            },
            InputEvent::Key { keycode, pressed } => Some(
                RailSend::Key { scancode: #[verifier::truncate] (keycode as u16), down: pressed },
            ),
            _ => None,
        }
    }
}

fn wheel(dx: i64, dy: i64) -> (r: i128)
    ensures
        r == wheel_step(dx, dy),
        i64::MIN <= r <= i64::MAX,
{
    let ax: i128 = if dx < 0 { -(dx as i128) } else { dx as i128 };
    let ay: i128 = if dy < 0 { -(dy as i128) } else { dy as i128 };
    if ay >= ax {
        dy as i128
    } else {
        0
    }
}

fn wheel_word(step: i128) -> (r: u16)
    requires
        i64::MIN <= step <= i64::MAX,
    ensures
        r == wheel_flags(step as int),
{
    let a: i128 = if step < 0 { -step } else { step };
    let v: i128 = a * 10 / 256;
    let size: u16 = if v > 120 {
        120
    } else if v < 1 {
        1
    } else {
        v as u16
    };
    PTR_FLAGS_WHEEL + size + if step > 0 { PTR_FLAGS_WHEEL_NEGATIVE } else { 0 }
}

/// A cursor bitmap of the session. It has device resolution: one pixel per point.
/// Bitmaps without an area are dropped.
pub fn on_cursor(b: Bitmap, hotspot_x: u32, hotspot_y: u32) -> (out: Option<RailOut>)
    ensures
        out == cursor_of(b, hotspot_x, hotspot_y),
{
    if b.width == 0 || b.height == 0 {
        return None;
    }
    Some(
        RailOut::Post {
            cmd: WinCmd::SetCursorImage {
                width: #[verifier::truncate] (b.width as i32),
                height: #[verifier::truncate] (b.height as i32),
                stride: #[verifier::truncate] (b.stride as i32),
                hotspot_x: #[verifier::truncate] (hotspot_x as i32),
                hotspot_y: #[verifier::truncate] (hotspot_y as i32),
                scale: 1,
                pixels: b.pixels,
            },
        },
    )
}

/// An icon of a window. Bitmaps without an area are dropped.
pub fn on_window_icon(id: u32, b: Bitmap) -> (out: Option<RailOut>)
    ensures
        out == icon_of(id, b),
{
    if b.width == 0 || b.height == 0 {
        return None;
    }
    Some(
        RailOut::Post {
            cmd: WinCmd::SetIcon {
                id,
                width: #[verifier::truncate] (b.width as i32),
                height: #[verifier::truncate] (b.height as i32),
                stride: #[verifier::truncate] (b.stride as i32),
                pixels: b.pixels,
            },
        },
    )
}

/// The default cursor is the arrow.
pub fn on_cursor_default() -> (out: RailOut)
    ensures
        out == (RailOut::Post { cmd: WinCmd::SetCursor { shape: 1 } }),
        crate::keys::spec_map_cursor(1) == crate::keys::NativeCursor::Arrow,
{
    RailOut::Post { cmd: WinCmd::SetCursor { shape: 1 } }
}

/// The name of a window's application: its title, or the remote program.
pub fn rail_display_name(title: &str) -> (r: String)
    ensures
        r@ == if title@.len() == 0 {
            "weston-terminal"@
        } else {
            title@
        },
{
    if title.unicode_len() == 0 {
        String::from_str("weston-terminal")
    } else {
        String::from_str(title)
    }
}

/// The host to connect to: the one that is set, or this machine.
pub fn rail_host(set: Option<&str>) -> (r: String)
    ensures
        r@ == match set {
            Some(h) => h@,
            None => "127.0.0.1"@,
        },
{
    match set {
        Some(h) => String::from_str(h),
        None => String::from_str("127.0.0.1"),
    }
}

/// The port to connect to: the one that is set, where it is a number, or 3389.
pub fn rail_port(set: Option<&str>) -> (r: i32)
    ensures
        r == match set {
            Some(p) => match parsed_i32(p@) {
                Some(n) => n,
                None => 3389,
            },
            None => 3389,
        },
{
    match set {
        Some(p) => match parse_i32(p) {
            Some(n) => n,
            None => 3389,
        },
        None => 3389,
    }
}

/// The program to start: the one that is set, unless it is empty, or the bundled
/// terminal.
pub fn rail_app(set: Option<&str>) -> (r: String)
    ensures
        r@ == match set {
            Some(a) => if a@.len() == 0 {
                "weston-terminal"@
            } else {
                a@
            },
            None => "weston-terminal"@,
        },
        r@.len() > 0,
{
    proof {
        reveal_strlit("weston-terminal");
    }
    match set {
        Some(a) => rail_display_name(a),
        None => String::from_str("weston-terminal"),
    }
}

/// A monitor, in points.
#[derive(Clone, Copy, PartialEq, Eq, Debug, Structural)]
pub struct Monitor {
    pub x: i32,
    pub y: i32,
    pub width: i32,
    pub height: i32,
    pub scale: i32,
    pub primary: bool,
}

/// A monitor as the session is told of it, in physical pixels.
#[derive(Clone, Copy, PartialEq, Eq, Debug, Structural)]
pub struct RailMonitor {
    pub x: i32,
    pub y: i32,
    pub width: u32,
    pub height: u32,
    pub scale: u32,
    pub is_primary: bool,
}

/// The scale of the first primary monitor, where there is one.
pub open spec fn primary_scale(mons: Seq<Monitor>) -> Option<i32>
    decreases mons.len(),
{
    if mons.len() == 0 {
        None
    } else if mons[0].primary {
        Some(mons[0].scale)
    } else {
        primary_scale(mons.skip(1))
    }
}

/// The session's scale: the primary monitor's, or else the display's; at least 1.
pub open spec fn session_scale(mons: Seq<Monitor>, display_scale: i32) -> i32 {
    let s = match primary_scale(mons) {
        Some(s) => s,
        None => display_scale,
    };
    if s < 1 {
        1
    } else {
        s
    }
}

/// The session's scale: the primary monitor's, or else the display's; at least 1.
pub fn pick_scale(mons: &Vec<Monitor>, display: &Display) -> (s: i32)
    ensures
        s == session_scale(mons@, display.spec_scale()),
        s >= 1,
{
    let mut i: usize = 0;
    assert(mons@.skip(0) =~= mons@);
    while i < mons.len()
        invariant
            i <= mons@.len(),
            primary_scale(mons@) == primary_scale(mons@.skip(i as int)),
        decreases mons@.len() - i,
    {
        if mons[i].primary {
            let s: i32 = mons[i].scale;
            return if s < 1 { 1 } else { s };
        }
        assert(mons@.skip(i as int).skip(1) =~= mons@.skip(i + 1));
        i = i + 1;
    }
    scale(display)
}

/// The product fits into an `i32`.
pub open spec fn fits(a: int, b: int) -> bool {
    i32::MIN <= a * b <= i32::MAX
}

/// A side as one that is 1 or more.
pub open spec fn positive(v: i32) -> int {
    if v < 1 {
        1
    } else {
        v as int
    }
}

/// The monitor's physical layout can be told.
pub open spec fn monitor_fits(m: Monitor, s: int) -> bool {
    fits(m.x as int, s) && fits(m.y as int, s) && fits(positive(m.width), s) && fits(
        positive(m.height),
        s,
    )
}

/// A monitor in physical pixels.
pub open spec fn physical(m: Monitor, s: i32) -> RailMonitor {
    RailMonitor {
        x: (m.x * s) as i32,
        y: (m.y * s) as i32,
        width: (positive(m.width) * s) as u32,
        height: (positive(m.height) * s) as u32,
        scale: s as u32,
        is_primary: m.primary,
    }
}

fn product(a: i32, b: i32) -> (r: Option<i32>)
    ensures
        r is Some == fits(a as int, b as int),
        r is Some ==> r->0 == a * b,
{
    assert(-0x8000_0000 * 0x8000_0000 <= a * b <= 0x8000_0000 * 0x8000_0000) by (nonlinear_arith)
        requires
            -0x8000_0000 <= a <= 0x7fff_ffff,
            -0x8000_0000 <= b <= 0x7fff_ffff,
    ;
    let p: i64 = a as i64 * b as i64;
    if p < -0x8000_0000 || p > 0x7fff_ffff {
        None
    } else {
        Some(p as i32)
    }
}

/// A monitor in physical pixels; none where a number does not fit.
pub fn rail_monitor(m: Monitor, s: i32) -> (r: Option<RailMonitor>)
    requires
        s >= 1,
    ensures
        r is Some == monitor_fits(m, s as int),
        r is Some ==> r->0 == physical(m, s),
{
    let w: i32 = if m.width < 1 { 1 } else { m.width };
    let h: i32 = if m.height < 1 { 1 } else { m.height };
    assert(w * s >= 1 && h * s >= 1) by (nonlinear_arith)
        requires
            w >= 1,
            h >= 1,
            s >= 1,
    ;
    match (product(m.x, s), product(m.y, s), product(w, s), product(h, s)) {
        (Some(x), Some(y), Some(width), Some(height)) => Some(
            RailMonitor {
                x,
                y,
                width: width as u32,
                height: height as u32,
                scale: s as u32,
                is_primary: m.primary,
            },
        ),
        _ => None,
    }
}

/// The desktop's physical size: the display in points times the session's scale; none
/// where it does not fit.
pub fn desktop_size(display: &Display, s: i32) -> (r: Option<(u32, u32)>)
    requires
        s >= 1,
    ensures
        ({
            let w = spec_points(display.spec_output_size().0, display.spec_scale());
            let h = spec_points(display.spec_output_size().1, display.spec_scale());
            &&& r is Some == (fits(w, s as int) && fits(h, s as int))
            &&& r is Some ==> (r->0).0 == w * s && (r->0).1 == h * s
        }),
{
    let (pw, ph) = output_size(display);
    let w: i32 = points(pw, scale(display));
    let h: i32 = points(ph, scale(display));
    assert(w * s >= 1 && h * s >= 1) by (nonlinear_arith)
        requires
            w >= 1,
            h >= 1,
            s >= 1,
    ;
    match (product(w, s), product(h, s)) {
        (Some(w), Some(h)) => Some((w as u32, h as u32)),
        _ => None,
    }
}

/// A disconnect destroys every window that the session still has.
pub proof fn lemma_disconnect_closes_every_window(v: RailView, id: u32)
    requires
        v.live.contains(id),
    ensures
        v.disconnected().1.contains(RailOut::Post { cmd: WinCmd::Destroy { id } }),
        v.disconnected().1.len() == v.live.len(),
        v.disconnected().0.live == Seq::<u32>::empty(),
{
    let i = choose|i: int| 0 <= i < v.live.len() && v.live[i] == id;
    let out = v.disconnected().1;
    assert(out[i] == (RailOut::Post { cmd: WinCmd::Destroy { id } }));
}

/// A button event reports the place where the pointer was seen last.
pub proof fn lemma_button_follows_motion(
    v: RailView,
    window_id: u32,
    x: i64,
    y: i64,
    button: u32,
    pressed: bool,
)
    ensures
        ({
            let seen = v.forward(InputEvent::PointerMotion { window_id, x, y }).0;
            seen.forward(
                InputEvent::PointerButton { window_id, button, pressed },
            ).1 matches Some(RailSend::Pointer { x: bx, y: by, .. }) && bx == whole(x) && by
                == whole(y)
        }),
{
}

/// A quotient of a scale is as many whole points as there are, toward 0.
proof fn lemma_toward_zero(v: int, by: int)
    requires
        by >= 1,
    ensures
        v >= 0 ==> by * toward_zero(v, by) <= v < by * (toward_zero(v, by) + 1),
        v < 0 ==> by * (toward_zero(v, by) - 1) < v <= by * toward_zero(v, by),
        v >= 0 ==> 0 <= toward_zero(v, by) <= v,
        v < 0 ==> v <= toward_zero(v, by) <= 0,
{
    let m = if v >= 0 {
        v
    } else {
        -v
    };
    let q = m / by;
    vstd::arithmetic::div_mod::lemma_fundamental_div_mod(m, by);
    vstd::arithmetic::div_mod::lemma_mod_bound(m, by);
    assert(by * (q + 1) == by * q + by) by (nonlinear_arith);
    assert(by * (-q) == -(by * q)) by (nonlinear_arith);
    assert(by * (-q - 1) == -(by * q) - by) by (nonlinear_arith);
    assert(0 <= q <= m) by (nonlinear_arith)
        requires
            by * q <= m,
            m >= 0,
            by >= 1,
            m < by * q + by,
    ;
}

/// A remote window opens under its own id and title, in an application of its own,
/// without a native frame, as many points large as its pixels are worth, and then moves to
/// its place, likewise in points. It is alive from then on.
pub proof fn lemma_remote_window_opens_in_points(
    v: RailView,
    id: u32,
    x: i32,
    y: i32,
    w: u32,
    h: u32,
    title: String,
)
    requires
        v.scale >= 1,
        v.scale <= w <= i32::MAX,
        v.scale <= h <= i32::MAX,
    ensures
        ({
            let (t, out) = v.created(id, x, y, w, h, title);
            &&& out.len() == 3
            &&& out[0] == (RailOut::Assign { id, title })
            &&& out[1] matches RailOut::Post {
                cmd: WinCmd::Create {
                    id: i,
                    width,
                    height,
                    dst_w,
                    dst_h,
                    decorated,
                    title: name,
                    geom,
                },
            } && i == id && name == title && !decorated && v.scale * width <= w < v.scale * (width
                + 1) && v.scale * height <= h < v.scale * (height + 1) && dst_w == width && dst_h
                == height && geom == (0i32, 0i32, 0i32, 0i32)
            &&& out[2] matches RailOut::Post { cmd: WinCmd::Move { id: i, x: px, y: py } } && i == id
                && (x >= 0 ==> v.scale * px <= x < v.scale * (px + 1)) && (y >= 0 ==> v.scale * py
                <= y < v.scale * (py + 1)) && (x < 0 ==> v.scale * (px - 1) < x <= v.scale * px)
                && (y < 0 ==> v.scale * (py - 1) < y <= v.scale * py)
            &&& t.live.last() == id
            &&& t.scale == v.scale && t.last == v.last
        }),
{
    crate::geometry::lemma_points_make_up_the_pixels(w as i32, v.scale);
    crate::geometry::lemma_points_make_up_the_pixels(h as i32, v.scale);
    lemma_toward_zero(x as int, v.scale as int);
    lemma_toward_zero(y as int, v.scale as int);
    let pw = spec_points(w as i32, v.scale);
    let ph = spec_points(h as i32, v.scale);
    assert(0 <= pw <= w) by (nonlinear_arith)
        requires
            v.scale >= 1,
            v.scale * pw <= w,
            w < v.scale * (pw + 1),
            w >= 0,
    ;
    assert(0 <= ph <= h) by (nonlinear_arith)
        requires
            v.scale >= 1,
            v.scale * ph <= h,
            h < v.scale * (ph + 1),
            h >= 0,
    ;
}

/// A remote window without an area is no window: it is skipped, its pixels too, and so
/// are cursors and icons without an area. An update without an area moves it all the
/// same.
pub proof fn lemma_nothing_without_an_area_is_shown(
    v: RailView,
    id: u32,
    x: i32,
    y: i32,
    w: u32,
    h: u32,
    title: String,
    b: Bitmap,
    hx: u32,
    hy: u32,
)
    requires
        w == 0 || h == 0,
        b.width == w,
        b.height == h,
    ensures
        v.created(id, x, y, w, h, title) == (v, Seq::<RailOut>::empty()),
        v.updated(id, x, y, w, h).0 == v,
        v.shown(id, b) is None,
        cursor_of(b, hx, hy) is None,
        icon_of(id, b) is None,
{
}

/// A remote window's pixels are shown in that window as they are, at the size that the
/// window was last given, however many pixels there are; and once it is gone, at the
/// size that the pixels themselves are worth.
pub proof fn lemma_remote_pixels_fill_their_window(
    v: RailView,
    id: u32,
    x: i32,
    y: i32,
    w: u32,
    h: u32,
    title: String,
    b: Bitmap,
)
    requires
        w > 0,
        h > 0,
        0 < b.width <= i32::MAX,
        0 < b.height <= i32::MAX,
        b.stride <= i32::MAX,
    ensures
        ({
            let made = v.created(id, x, y, w, h, title).0;
            let resized = v.updated(id, x, y, w, h).0;
            let size = v.size_of(w, h);
            let gone = made.deleted(id).0;
            &&& made.shown(id, b) matches Some(
                RailOut::Post {
                    cmd: WinCmd::Frame {
                        id: i,
                        width,
                        height,
                        stride,
                        dst_w,
                        dst_h,
                        pixels,
                        format,
                        color,
                        geom,
                    },
                },
            ) && i == id && width == b.width && height == b.height && stride == b.stride && pixels
                == b.pixels && (dst_w, dst_h) == size && format == PixelFormat::Bgra8888 && color
                is None && geom == (0i32, 0i32, 0i32, 0i32)
            &&& resized.shown(id, b) == made.shown(id, b)
            &&& gone.shown_size(id, b.width, b.height) == v.size_of(b.width, b.height)
            &&& !gone.live.contains(id)
            &&& made.deleted(id).1 == (RailOut::Post { cmd: WinCmd::Destroy { id } })
        }),
{
    let gone = v.created(id, x, y, w, h, title).0.deleted(id).0;
    let keep = other_than(id);
    if gone.live.contains(id) {
        broadcast use vstd::seq_lib::group_filter_ensures;

        let i = gone.live.index_of(id);
        assert(keep(gone.live[i]));
    }
}

/// A remote window that moves goes to its place in points, and takes its size with it.
pub proof fn lemma_remote_window_moves_in_points(
    v: RailView,
    id: u32,
    x: i32,
    y: i32,
    w: u32,
    h: u32,
)
    requires
        v.scale >= 1,
        x >= 0,
        y >= 0,
    ensures
        v.updated(id, x, y, w, h).1 matches RailOut::Post { cmd: WinCmd::Move { id: i, x: px, y: py } }
            && i == id && v.scale * px <= x < v.scale * (px + 1) && v.scale * py <= y < v.scale * (py
            + 1),
        v.updated(id, x, y, w, h).0.live == v.live,
{
    lemma_toward_zero(x as int, v.scale as int);
    lemma_toward_zero(y as int, v.scale as int);
}

/// Keys go to the session as they are, down as down and up as up.
pub proof fn lemma_keys_go_to_the_session(v: RailView, keycode: u32, pressed: bool)
    requires
        keycode <= u16::MAX,
    ensures
        v.forward(InputEvent::Key { keycode, pressed }).1 matches Some(
            RailSend::Key { scancode, down },
        ) && scancode == keycode && down == pressed,
        v.forward(InputEvent::Key { keycode, pressed }).0 == v,
{
}

/// The pointer goes to the session in whole points, for the window that it is over,
/// marked as a move, whether it moves there or comes there.
pub proof fn lemma_pointer_goes_to_the_session(v: RailView, window_id: u32, x: i64, y: i64)
    requires
        0 <= x <= 0x7f_ffff_ffff,
        0 <= y <= 0x7f_ffff_ffff,
    ensures
        ({
            let (t, sent) = v.forward(InputEvent::PointerMotion { window_id, x, y });
            &&& sent matches Some(RailSend::Pointer { window_id: w, x: px, y: py, flags }) && w
                == window_id && 256 * px <= x < 256 * px + 256 && 256 * py <= y < 256 * py + 256
                && flags == 0x0800
            &&& v.forward(InputEvent::PointerEnter { window_id, x, y }) == (t, sent)
            &&& t == (RailView { last: t.last, ..v })
        }),
{
}

/// A button goes to the session for its window: the left, right and middle one each
/// under its own mark, a press marked as down and a release not.
pub proof fn lemma_buttons_go_to_the_session(
    v: RailView,
    window_id: u32,
    button: u32,
    pressed: bool,
)
    ensures
        ({
            let (t, sent) = v.forward(InputEvent::PointerButton { window_id, button, pressed });
            &&& t == v
            &&& sent matches Some(RailSend::Pointer { window_id: w, x, y, flags }) && w == window_id
                && x == v.last.0 && y == v.last.1 && (flags >= 0x8000) == pressed && flags % 0x8000
                == (if button == 0x110 {
                0x1000int
            } else if button == 0x111 {
                0x2000
            } else if button == 0x112 {
                0x4000
            } else {
                0
            })
        }),
{
}

/// Scrolling down turns the wheel one way and scrolling up the other, by ten steps per
/// point, at least one and at most 120. Where the sideways part is larger nothing is sent.
pub proof fn lemma_wheel_turns_with_the_scroll(v: RailView, dx: i64, dy: i64)
    requires
        -0x1000_0000 <= dx <= 0x1000_0000,
        -0x1000_0000 <= dy <= 0x1000_0000,
    ensures
        ({
            let (t, sent) = v.forward(InputEvent::PointerAxis { dx, dy });
            let sideways = if dx < 0 {
                -dx
            } else {
                dx as int
            };
            let steps = if dy < 0 {
                -dy * 10
            } else {
                dy * 10
            };
            &&& t == v
            &&& dy == 0 || 10 * sideways > steps ==> sent is None
            &&& dy != 0 && 10 * sideways <= steps ==> (sent matches Some(
                RailSend::Pointer { window_id, x, y, flags },
            ) && window_id == 0 && x == v.last.0 && y == v.last.1 && flags / 0x200 == 1 && (flags
                % 0x200 >= 0x100) == (dy > 0) && 1 <= flags % 0x100 <= 120 && (256 <= steps <= 120
                * 256 ==> 256 * (flags % 0x100) <= steps < 256 * (flags % 0x100) + 256) && (steps
                > 120 * 256 ==> flags % 0x100 == 120))
        }),
{
}

/// The session has no use for other events.
pub proof fn lemma_other_events_stay_here(v: RailView, ev: InputEvent)
    requires
        ev is Focus || ev is Resize || ev is PopupDismiss || ev is PointerLeave || ev is Modifiers
            || ev is AppDeactivated || ev is MacClipboard,
    ensures
        v.forward(ev) == (v, None::<RailSend>),
{
}

/// A monitor's pixels are its points times the scale, at its place times the scale.
pub proof fn lemma_monitor_is_scaled(m: Monitor, s: i32)
    requires
        s >= 1,
        m.width >= 1,
        m.height >= 1,
        monitor_fits(m, s as int),
    ensures
        ({
            let p = physical(m, s);
            &&& p.x == m.x * s && p.y == m.y * s
            &&& p.width == m.width * s && p.height == m.height * s
            &&& p.scale == s && p.is_primary == m.primary
        }),
{
    assert(m.width * s >= 1 && m.height * s >= 1) by (nonlinear_arith)
        requires
            m.width >= 1,
            m.height >= 1,
            s >= 1,
    ;
}

/// The session is drawn at the scale of the first primary monitor; without one at the
/// display's.
pub proof fn lemma_first_primary_sets_the_scale(before: Seq<Monitor>, m: Monitor, after: Seq<Monitor>, own: i32)
    requires
        m.primary,
        m.scale >= 1,
        own >= 1,
        forall|i: int| 0 <= i < before.len() ==> !(#[trigger] before[i]).primary,
    ensures
        session_scale(before + seq![m] + after, own) == m.scale,
        session_scale(before, own) == own,
    decreases before.len(),
{
    let all = before + seq![m] + after;
    if before.len() == 0 {
        assert(all[0] == m);
    } else {
        let rest = before.skip(1);
        assert forall|i: int| 0 <= i < rest.len() implies !(#[trigger] rest[i]).primary by {
            assert(rest[i] == before[i + 1]);
        }
        lemma_first_primary_sets_the_scale(rest, m, after, own);
        assert(all[0] == before[0]);
        assert(all.skip(1) =~= rest + seq![m] + after);
        assert(!before[0].primary);
    }
}

} // verus!
