//! Placing windows on the screen.
//!
//! Screen coordinates are integers in 1/256 of a point with a bottom-left origin
//! and y growing upward; surface coordinates are in points with a top-left origin.

use vstd::prelude::*;

verus! {

/// Screen units of one point.
pub const UNIT: i64 = 256;

/// A position on the screen.
#[derive(Clone, Copy, PartialEq, Eq, Debug, Structural)]
pub struct Point {
    pub x: i64,
    pub y: i64,
}

/// A position on the screen in half units, so that the middle of any span is exact.
#[derive(Clone, Copy, PartialEq, Eq, Debug, Structural)]
pub struct HalfPoint {
    pub x2: i64,
    pub y2: i64,
}

/// A rectangle on the screen; `x`, `y` is its bottom-left corner.
#[derive(Clone, Copy, PartialEq, Eq, Debug, Structural)]
pub struct Area {
    pub x: i64,
    pub y: i64,
    pub w: i64,
    pub h: i64,
}

/// A length that any screen setup stays within.
pub open spec fn near(v: int) -> bool {
    -0x100_0000_0000 <= v <= 0x100_0000_0000
}

impl Point {
    /// Within reach of any screen setup.
    pub open spec fn near(self) -> bool {
        near(self.x as int) && near(self.y as int)
    }
}

impl Area {
    /// Within reach of any screen setup.
    pub open spec fn near(self) -> bool {
        near(self.x as int) && near(self.y as int) && near(self.w as int) && near(self.h as int)
    }

    /// Borders belong to the rectangle.
    pub open spec fn spec_contains(self, p: Point) -> bool {
        self.x <= p.x <= self.x + self.w && self.y <= p.y <= self.y + self.h
    }

    /// Whether a position lies inside or on the border.
    pub fn contains(&self, p: Point) -> (b: bool)
        requires
            self.near(),
            p.near(),
        ensures
            b == self.spec_contains(p),
    {
        p.x >= self.x && p.x <= self.x + self.w && p.y >= self.y && p.y <= self.y + self.h
    }
}

/// Points as screen units.
pub open spec fn units(points: int) -> int {
    points * 256
}

/// A buffer side in points: divided by the scale, never below 1.
pub open spec fn spec_points(pixels: i32, scale: i32) -> int {
    if pixels < scale {
        1
    } else {
        pixels as int / scale as int
    }
}

/// A buffer side in points: divided by the scale, never below 1.
pub fn points(pixels: i32, scale: i32) -> (r: i32)
    requires
        scale >= 1,
    ensures
        r == spec_points(pixels, scale),
        r >= 1,
{
    if pixels < scale {
        1
    } else {
        let q: u32 = pixels as u32 / scale as u32;
        assert(1 <= q <= pixels) by (nonlinear_arith)
            requires
                q == pixels as int / scale as int,
                1 <= scale <= pixels,
        ;
        q as i32
    }
}

/// The viewport destination where both sides are set, else the buffer in points.
pub open spec fn spec_logical_size(
    width: i32,
    height: i32,
    dst_w: i32,
    dst_h: i32,
    scale: i32,
) -> (int, int) {
    if dst_w > 0 && dst_h > 0 {
        (dst_w as int, dst_h as int)
    } else {
        (spec_points(width, scale), spec_points(height, scale))
    }
}

/// Logical size of a window, in points: the viewport destination if the client set
/// one, else the buffer size divided by the scale.
pub fn logical_size(width: i32, height: i32, dst_w: i32, dst_h: i32, scale: i32) -> (r: (i32, i32))
    requires
        scale >= 1,
    ensures
        (r.0 as int, r.1 as int) == spec_logical_size(width, height, dst_w, dst_h, scale),
        r.0 >= 1,
        r.1 >= 1,
{
    if dst_w > 0 && dst_h > 0 {
        (dst_w, dst_h)
    } else {
        (points(width, scale), points(height, scale))
    }
}

/// What the buffer has beyond the content, on one axis.
pub open spec fn excess(pixels: i32, content: i32, scale: i32) -> int {
    if spec_points(pixels, scale) > content {
        spec_points(pixels, scale) - content
    } else {
        0
    }
}

/// The shadow margins: none where the client set no geometry or uses a viewport.
pub open spec fn spec_csd_margin(
    width: i32,
    height: i32,
    dst_w: i32,
    dst_h: i32,
    geom: (i32, i32, i32, i32),
    scale: i32,
) -> (int, int) {
    if dst_w > 0 || dst_h > 0 || geom.2 <= 0 || geom.3 <= 0 {
        (0, 0)
    } else {
        (excess(width, geom.2, scale), excess(height, geom.3, scale))
    }
}

/// The size of a client-drawn shadow margin in points: the buffer minus the
/// client's window geometry.
pub fn csd_margin(
    width: i32,
    height: i32,
    dst_w: i32,
    dst_h: i32,
    geom: (i32, i32, i32, i32),
    scale: i32,
) -> (r: (i32, i32))
    requires
        scale >= 1,
    ensures
        (r.0 as int, r.1 as int) == spec_csd_margin(width, height, dst_w, dst_h, geom, scale),
        r.0 >= 0,
        r.1 >= 0,
{
    let (_, _, gw, gh) = geom;
    if dst_w > 0 || dst_h > 0 || gw <= 0 || gh <= 0 {
        return (0, 0);
    }
    let bw: i32 = points(width, scale);
    let bh: i32 = points(height, scale);
    (
        if bw > gw { bw - gw } else { 0 },
        if bh > gh { bh - gh } else { 0 },
    )
}

/// A subsurface's corner in its window's y-up space.
pub open spec fn spec_subsurface_origin(win_h: int, x: int, y: int, lh: int) -> (int, int) {
    (units(x), win_h - units(y) - lh)
}

/// Where a subsurface `lh` units tall, at the top-left offset (x, y) in points, sits
/// inside a window `win_h` units tall. Surface y grows downward and the window's
/// upward, so y is flipped against the window's current height.
pub fn subsurface_origin(win_h: i64, x: i32, y: i32, lh: i64) -> (r: (i64, i64))
    requires
        near(win_h as int),
        near(lh as int),
    ensures
        (r.0 as int, r.1 as int) == spec_subsurface_origin(
            win_h as int,
            x as int,
            y as int,
            lh as int,
        ),
{
    (x as i64 * UNIT, win_h - y as i64 * UNIT - lh)
}

/// A span from `pos` sticks out of `min..max`.
pub open spec fn sticks_out(pos: int, size: int, min: int, max: int) -> bool {
    pos < min || pos + size > max
}

/// The start that the flip rule picks.
pub open spec fn flip_choice(
    pos: int,
    flipped: int,
    size: int,
    min: int,
    max: int,
    flip: bool,
) -> int {
    if flip && sticks_out(pos, size, min, max) && !sticks_out(flipped, size, min, max) {
        flipped
    } else {
        pos
    }
}

/// Slides a span inside: the far edge is pinned first, the near edge wins.
pub open spec fn slide(pos: int, size: int, min: int, max: int) -> int {
    let p = if pos + size > max {
        max - size
    } else {
        pos
    };
    if p < min {
        min
    } else {
        p
    }
}

/// Resolves one axis of a popup's constraint adjustment. Where `flip` is allowed
/// and `pos` falls off an edge while `flipped` is fully inside, the flipped start
/// wins; then the popup slides inside, pinned to the near edge if it is too large.
pub fn constrain_axis(pos: i64, flipped: i64, size: i64, min: i64, max: i64, flip: bool) -> (r: i64)
    requires
        i64::MIN <= max - size <= i64::MAX,
    ensures
        r == slide(
            flip_choice(
                pos as int,
                flipped as int,
                size as int,
                min as int,
                max as int,
                flip,
            ),
            size as int,
            min as int,
            max as int,
        ),
{
    let far: i64 = max - size;
    let off: bool = pos < min || pos > far;
    let flipped_off: bool = flipped < min || flipped > far;
    let mut p: i64 = if flip && off && !flipped_off {
        flipped
    } else {
        pos
    };
    if p > far {
        p = far;
    }
    if p < min {
        p = min;
    }
    p
}

/// A popup that fits ends up fully inside, whatever was asked for.
pub proof fn lemma_constrained_popup_is_on_screen(
    pos: int,
    flipped: int,
    size: int,
    min: int,
    max: int,
    flip: bool,
)
    requires
        0 <= size <= max - min,
    ensures
        !sticks_out(
            slide(flip_choice(pos, flipped, size, min, max, flip), size, min, max),
            size,
            min,
            max,
        ),
{
}

/// A popup that is larger than the screen is pinned to the near edge.
pub proof fn lemma_oversized_popup_is_pinned(
    pos: int,
    flipped: int,
    size: int,
    min: int,
    max: int,
    flip: bool,
)
    requires
        size > max - min,
    ensures
        slide(flip_choice(pos, flipped, size, min, max, flip), size, min, max) == min,
{
}

/// A popup that is inside as asked for is not moved.
pub proof fn lemma_fitting_popup_stays(
    pos: int,
    flipped: int,
    size: int,
    min: int,
    max: int,
    flip: bool,
)
    requires
        !sticks_out(pos, size, min, max),
    ensures
        slide(flip_choice(pos, flipped, size, min, max, flip), size, min, max) == pos,
{
}

/// The larger of two numbers.
pub open spec fn larger(a: int, b: int) -> int {
    if a < b {
        b
    } else {
        a
    }
}

/// A screen rectangle without the reserved insets; no side goes below one point.
pub open spec fn inset(r: Area, insets: (i32, i32, i32, i32)) -> Area {
    Area {
        x: (r.x + units(insets.3 as int)) as i64,
        y: (r.y + units(insets.2 as int)) as i64,
        w: larger(r.w - units(insets.3 + insets.1), 256) as i64,
        h: larger(r.h - units(insets.0 + insets.2), 256) as i64,
    }
}

/// Shrinks a screen rectangle by the insets (top, right, bottom, left). The y axis
/// points up, so a top inset trims the height and a bottom inset also raises the
/// origin.
pub fn apply_reserved_insets(r: Area, insets: (i32, i32, i32, i32)) -> (out: Area)
    requires
        r.near(),
    ensures
        out == inset(r, insets),
{
    let (top, right, bottom, left) = insets;
    let w: i64 = r.w - (left as i64 + right as i64) * UNIT;
    let h: i64 = r.h - (top as i64 + bottom as i64) * UNIT;
    Area {
        x: r.x + left as i64 * UNIT,
        y: r.y + bottom as i64 * UNIT,
        w: if w < UNIT { UNIT } else { w },
        h: if h < UNIT { UNIT } else { h },
    }
}

/// Twice the start of a span in the middle of another one; at its start where the
/// span is too long.
pub open spec fn twice_middle(start: int, extent: int, size: int) -> int {
    2 * start + larger(extent - size, 0)
}

/// A new window's corner in half units: centered, with its top edge inside the work
/// area.
pub open spec fn centered(work: Area, lw: int, lh: int) -> (int, int) {
    let y2 = twice_middle(work.y as int, work.h as int, lh);
    (
        twice_middle(work.x as int, work.w as int, lw),
        if y2 + 2 * lh > 2 * (work.y + work.h) {
            2 * (work.y + work.h - lh)
        } else {
            y2
        },
    )
}

/// Centers a new window `lw` by `lh` units in the work area. A window that is too
/// tall keeps its top edge inside.
pub fn place_in_work_area(work: Area, lw: i64, lh: i64) -> (p: HalfPoint)
    requires
        -0x1000_0000_0000 <= work.x <= 0x1000_0000_0000,
        -0x1000_0000_0000 <= work.y <= 0x1000_0000_0000,
        -0x1000_0000_0000 <= work.w <= 0x1000_0000_0000,
        -0x1000_0000_0000 <= work.h <= 0x1000_0000_0000,
        0 <= lw <= 0x1000_0000_0000,
        0 <= lh <= 0x1000_0000_0000,
    ensures
        (p.x2 as int, p.y2 as int) == centered(work, lw as int, lh as int),
{
    let x2: i64 = 2 * work.x + if work.w > lw { work.w - lw } else { 0 };
    let mut y2: i64 = 2 * work.y + if work.h > lh { work.h - lh } else { 0 };
    let work_top: i64 = work.y + work.h;
    if y2 + 2 * lh > 2 * work_top {
        y2 = 2 * (work_top - lh);
    }
    HalfPoint { x2, y2 }
}

/// One axis of the frame constraint: the far edge goes inside first; the near edge
/// is only pulled in where the window fits.
pub open spec fn clamp_span(pos: int, size: int, min: int, extent: int) -> int {
    let p = if pos + size > min + extent {
        min + extent - size
    } else {
        pos
    };
    if p < min && size <= extent {
        min
    } else {
        p
    }
}

fn clamp_axis(pos: i64, size: i64, min: i64, extent: i64) -> (r: i64)
    requires
        -0x1000_0000_0000 <= pos <= 0x1000_0000_0000,
        -0x1000_0000_0000 <= size <= 0x1000_0000_0000,
        -0x1000_0000_0000 <= min <= 0x1000_0000_0000,
        -0x1000_0000_0000 <= extent <= 0x1000_0000_0000,
    ensures
        r == clamp_span(pos as int, size as int, min as int, extent as int),
{
    let mut p: i64 = pos;
    if p + size > min + extent {
        p = min + extent - size;
    }
    if p < min && size <= extent {
        p = min;
    }
    p
}

/// The frame that a window may take. `exempt` windows (fullscreen, docked bars,
/// remote sessions) keep the wanted frame; the others keep the system's own
/// constraint `system`, pulled out of the reserved zones.
pub open spec fn spec_constrain_frame_rect(
    exempt: bool,
    wanted: Area,
    system: Area,
    insets: (i32, i32, i32, i32),
    visible: Option<Area>,
) -> Area {
    if exempt {
        wanted
    } else if insets == (0i32, 0i32, 0i32, 0i32) || visible is None {
        system
    } else {
        let work = inset(visible->0, insets);
        Area {
            x: clamp_span(system.x as int, system.w as int, work.x as int, work.w as int) as i64,
            y: clamp_span(system.y as int, system.h as int, work.y as int, work.h as int) as i64,
            ..system
        }
    }
}

/// Keeps a window out of the zones that docked bars reserve, as the system keeps it
/// below the menu bar.
pub fn constrain_frame_rect(
    exempt: bool,
    wanted: Area,
    system: Area,
    insets: (i32, i32, i32, i32),
    visible: Option<Area>,
) -> (r: Area)
    requires
        system.near(),
        visible is Some ==> visible->0.near(),
    ensures
        r == spec_constrain_frame_rect(exempt, wanted, system, insets, visible),
{
    if exempt {
        return wanted;
    }
    if insets.0 == 0 && insets.1 == 0 && insets.2 == 0 && insets.3 == 0 {
        return system;
    }
    match visible {
        None => system,
        Some(v) => {
            let work = apply_reserved_insets(v, insets);
            Area {
                x: clamp_axis(system.x, system.w, work.x, work.w),
                y: clamp_axis(system.y, system.h, work.y, work.h),
                w: system.w,
                h: system.h,
            }
        },
    }
}

/// A constrained window that fits lies inside the work area on both axes; one that
/// does not fit never has its top edge above the work area.
pub proof fn lemma_constrained_frame_avoids_bars(
    wanted: Area,
    system: Area,
    insets: (i32, i32, i32, i32),
    visible: Area,
)
    requires
        system.near(),
        visible.near(),
        insets != (0i32, 0i32, 0i32, 0i32),
    ensures
        ({
            let work = inset(visible, insets);
            let r = spec_constrain_frame_rect(false, wanted, system, insets, Some(visible));
            &&& r.y + r.h <= work.y + work.h
            &&& r.x + r.w <= work.x + work.w
            &&& r.h <= work.h ==> work.y <= r.y
            &&& r.w <= work.w ==> work.x <= r.x
            &&& r.w == system.w && r.h == system.h
        }),
{
}

/// Anchor bit: the top edge.
pub const ANCHOR_TOP: u32 = 1;

/// Anchor bit: the bottom edge.
pub const ANCHOR_BOTTOM: u32 = 2;

/// Anchor bit: the left edge.
pub const ANCHOR_LEFT: u32 = 4;

/// Anchor bit: the right edge.
pub const ANCHOR_RIGHT: u32 = 8;

/// One axis of a docked bar, in half units: at the near or the far edge with its margin
/// where it is anchored to that edge alone, else centered.
pub open spec fn dock(
    near_edge: bool,
    far_edge: bool,
    start: int,
    extent: int,
    size: int,
    near_margin: int,
    far_margin: int,
) -> int {
    if near_edge && !far_edge {
        2 * (start + units(near_margin))
    } else if far_edge && !near_edge {
        2 * (start + extent - size - units(far_margin))
    } else {
        2 * start + (extent - size)
    }
}

fn dock_axis(
    near_edge: bool,
    far_edge: bool,
    start: i64,
    extent: i64,
    size: i64,
    near_margin: i32,
    far_margin: i32,
) -> (r: i64)
    requires
        near(start as int),
        near(extent as int),
        near(size as int),
    ensures
        r == dock(
            near_edge,
            far_edge,
            start as int,
            extent as int,
            size as int,
            near_margin as int,
            far_margin as int,
        ),
{
    if near_edge && !far_edge {
        2 * (start + near_margin as i64 * UNIT)
    } else if far_edge && !near_edge {
        2 * (start + extent - size - far_margin as i64 * UNIT)
    } else {
        2 * start + (extent - size)
    }
}

/// A docked bar's corner on the visible screen, in half units. Margins are (top, right,
/// bottom, left); the y axis points up, so the bottom edge is the near one.
pub open spec fn spec_layer_origin(
    screen: Area,
    lw: int,
    lh: int,
    anchor: u32,
    margins: (i32, i32, i32, i32),
) -> (int, int) {
    (
        dock(
            anchor & ANCHOR_LEFT != 0,
            anchor & ANCHOR_RIGHT != 0,
            screen.x as int,
            screen.w as int,
            lw,
            margins.3 as int,
            margins.1 as int,
        ),
        dock(
            anchor & ANCHOR_BOTTOM != 0,
            anchor & ANCHOR_TOP != 0,
            screen.y as int,
            screen.h as int,
            lh,
            margins.2 as int,
            margins.0 as int,
        ),
    )
}

/// Where a docked bar of `lw` by `lh` units goes.
pub fn layer_origin(
    screen: Area,
    lw: i64,
    lh: i64,
    anchor: u32,
    margins: (i32, i32, i32, i32),
) -> (p: HalfPoint)
    requires
        screen.near(),
        near(lw as int),
        near(lh as int),
    ensures
        (p.x2 as int, p.y2 as int) == spec_layer_origin(
            screen,
            lw as int,
            lh as int,
            anchor,
            margins,
        ),
{
    let (mt, mr, mb, ml) = margins;
    HalfPoint {
        x2: dock_axis(
            anchor & ANCHOR_LEFT != 0,
            anchor & ANCHOR_RIGHT != 0,
            screen.x,
            screen.w,
            lw,
            ml,
            mr,
        ),
        y2: dock_axis(
            anchor & ANCHOR_BOTTOM != 0,
            anchor & ANCHOR_TOP != 0,
            screen.y,
            screen.h,
            lh,
            mb,
            mt,
        ),
    }
}

/// Constraint bit: the popup may flip on the x axis.
pub const FLIP_X: u32 = 4;

/// Constraint bit: the popup may flip on the y axis.
pub const FLIP_Y: u32 = 8;

/// A popup's corner below `content`, the parent's content area, at (x, y) points.
pub open spec fn below(content: Area, x: int, y: int, lh: int) -> (int, int) {
    (content.x + units(x), content.y + content.h - units(y) - lh)
}

/// A popup's corner before it is kept on the screen: asked for, and flipped.
pub open spec fn popup_candidates(
    content: Option<Area>,
    x: int,
    y: int,
    x_flip: int,
    y_flip: int,
    lh: int,
) -> ((int, int), (int, int)) {
    match content {
        Some(c) => (below(c, x, y, lh), below(c, x_flip, y_flip, lh)),
        None => ((units(200), units(200)), (units(200), units(200))),
    }
}

/// A popup's corner on the screen.
pub open spec fn spec_popup_place(
    content: Option<Area>,
    visible: Option<Area>,
    offset: (i32, i32),
    flip: (i32, i32),
    constraint: u32,
    lw: int,
    lh: int,
) -> (int, int) {
    let (pos, flipped) = popup_candidates(
        content,
        offset.0 as int,
        offset.1 as int,
        flip.0 as int,
        flip.1 as int,
        lh,
    );
    match visible {
        None => pos,
        Some(v) => (
            slide(
                flip_choice(pos.0, flipped.0, lw, v.x as int, v.x + v.w, constraint & FLIP_X != 0),
                lw,
                v.x as int,
                v.x + v.w,
            ),
            slide(
                flip_choice(pos.1, flipped.1, lh, v.y as int, v.y + v.h, constraint & FLIP_Y != 0),
                lh,
                v.y as int,
                v.y + v.h,
            ),
        ),
    }
}

/// Where a popup of `lw` by `lh` units goes: at `offset` points from the top-left
/// corner of the parent's content, or at (200, 200) without a parent; then flipped
/// or slid onto the visible part of the screen.
pub fn popup_place(
    content: Option<Area>,
    visible: Option<Area>,
    offset: (i32, i32),
    flip: (i32, i32),
    constraint: u32,
    lw: i64,
    lh: i64,
) -> (p: Point)
    requires
        content is Some ==> content->0.near(),
        visible is Some ==> visible->0.near(),
        near(lw as int),
        near(lh as int),
    ensures
        (p.x as int, p.y as int) == spec_popup_place(
            content,
            visible,
            offset,
            flip,
            constraint,
            lw as int,
            lh as int,
        ),
{
    let (px, py, fx, fy): (i64, i64, i64, i64) = match content {
        Some(c) => {
            let top: i64 = c.y + c.h;
            (
                c.x + offset.0 as i64 * UNIT,
                top - offset.1 as i64 * UNIT - lh,
                c.x + flip.0 as i64 * UNIT,
                top - flip.1 as i64 * UNIT - lh,
            )
        },
        None => (200 * UNIT, 200 * UNIT, 200 * UNIT, 200 * UNIT),
    };
    match visible {
        None => Point { x: px, y: py },
        Some(v) => Point {
            x: constrain_axis(px, fx, lw, v.x, v.x + v.w, constraint & FLIP_X != 0),
            y: constrain_axis(py, fy, lh, v.y, v.y + v.h, constraint & FLIP_Y != 0),
        },
    }
}

/// The least left edge of a row of screens.
pub open spec fn left_edge(screens: Seq<Area>) -> int
    decreases screens.len(),
{
    if screens.len() <= 1 {
        screens[0].x as int
    } else if left_edge(screens.drop_last()) < screens.last().x {
        left_edge(screens.drop_last())
    } else {
        screens.last().x as int
    }
}

/// The greatest top edge of a row of screens.
pub open spec fn top_edge(screens: Seq<Area>) -> int
    decreases screens.len(),
{
    if screens.len() <= 1 {
        screens[0].y + screens[0].h
    } else {
        larger(top_edge(screens.drop_last()), screens.last().y + screens.last().h)
    }
}

/// The corner of a window `win_h` units tall at the desktop offset (x, y), given in
/// points from the top-left of all screens together; none without a screen.
pub fn desktop_origin(screens: &Vec<Area>, x: i32, y: i32, win_h: i64) -> (r: Option<Point>)
    requires
        forall|i: int| 0 <= i < screens@.len() ==> (#[trigger] screens@[i]).near(),
        near(win_h as int),
    ensures
        r is Some == (screens@.len() > 0),
        r is Some ==> r->0.x == left_edge(screens@) + units(x as int) && r->0.y == top_edge(
            screens@,
        ) - units(y as int) - win_h,
{
    if screens.len() == 0 {
        return None;
    }
    let mut min_x: i64 = screens[0].x;
    let mut max_top: i64 = screens[0].y + screens[0].h;
    let mut i: usize = 1;
    assert(screens@.take(1)[0] == screens@[0]);
    while i < screens.len()
        invariant
            1 <= i <= screens@.len(),
            forall|k: int| 0 <= k < screens@.len() ==> (#[trigger] screens@[k]).near(),
            min_x == left_edge(screens@.take(i as int)),
            max_top == top_edge(screens@.take(i as int)),
            near(min_x as int),
            -0x200_0000_0000 <= max_top <= 0x200_0000_0000,
        decreases screens@.len() - i,
    {
        let f = screens[i];
        assert(f.near());
        assert(screens@.take(i + 1).drop_last() =~= screens@.take(i as int));
        if !(min_x < f.x) {
            min_x = f.x;
        }
        if max_top < f.y + f.h {
            max_top = f.y + f.h;
        }
        i = i + 1;
    }
    assert(screens@.take(i as int) =~= screens@);
    Some(Point { x: min_x + x as i64 * UNIT, y: max_top - y as i64 * UNIT - win_h })
}

/// The greatest right edge of a row of screens.
pub open spec fn right_edge(screens: Seq<Area>) -> int
    decreases screens.len(),
{
    if screens.len() <= 1 {
        screens[0].x + screens[0].w
    } else {
        larger(right_edge(screens.drop_last()), screens.last().x + screens.last().w)
    }
}

/// The least bottom edge of a row of screens.
pub open spec fn bottom_edge(screens: Seq<Area>) -> int
    decreases screens.len(),
{
    if screens.len() <= 1 {
        screens[0].y as int
    } else if bottom_edge(screens.drop_last()) < screens.last().y {
        bottom_edge(screens.drop_last())
    } else {
        screens.last().y as int
    }
}

/// The size of the box around all screens; none without a screen.
pub fn screen_union_size(screens: &Vec<Area>) -> (r: Option<(i64, i64)>)
    requires
        forall|i: int| 0 <= i < screens@.len() ==> (#[trigger] screens@[i]).near(),
    ensures
        r is Some == (screens@.len() > 0),
        r is Some ==> (r->0).0 == right_edge(screens@) - left_edge(screens@) && (r->0).1 == top_edge(
            screens@,
        ) - bottom_edge(screens@),
{
    if screens.len() == 0 {
        return None;
    }
    let mut min_x: i64 = screens[0].x;
    let mut min_y: i64 = screens[0].y;
    let mut max_x: i64 = screens[0].x + screens[0].w;
    let mut max_y: i64 = screens[0].y + screens[0].h;
    let mut i: usize = 1;
    assert(screens@.take(1)[0] == screens@[0]);
    while i < screens.len()
        invariant
            1 <= i <= screens@.len(),
            forall|k: int| 0 <= k < screens@.len() ==> (#[trigger] screens@[k]).near(),
            min_x == left_edge(screens@.take(i as int)),
            min_y == bottom_edge(screens@.take(i as int)),
            max_x == right_edge(screens@.take(i as int)),
            max_y == top_edge(screens@.take(i as int)),
            near(min_x as int),
            near(min_y as int),
            -0x200_0000_0000 <= max_x <= 0x200_0000_0000,
            -0x200_0000_0000 <= max_y <= 0x200_0000_0000,
        decreases screens@.len() - i,
    {
        let f = screens[i];
        assert(f.near());
        assert(screens@.take(i + 1).drop_last() =~= screens@.take(i as int));
        if !(min_x < f.x) {
            min_x = f.x;
        }
        if !(min_y < f.y) {
            min_y = f.y;
        }
        if max_x < f.x + f.w {
            max_x = f.x + f.w;
        }
        if max_y < f.y + f.h {
            max_y = f.y + f.h;
        }
        i = i + 1;
    }
    assert(screens@.take(i as int) =~= screens@);
    Some((max_x - min_x, max_y - min_y))
}

/// The mouse in a window's own top-left coordinates, and whether it is inside.
pub fn in_window(frame: Area, mouse: Point) -> (r: (i64, i64, bool))
    requires
        frame.near(),
        mouse.near(),
    ensures
        r.0 == mouse.x - frame.x,
        r.1 == frame.h - (mouse.y - frame.y),
        r.2 == frame.spec_contains(mouse),
{
    (mouse.x - frame.x, frame.h - (mouse.y - frame.y), frame.contains(mouse))
}

/// The pointer is more than 6 points from where the button went down.
pub open spec fn spec_dragged(from: Point, to: Point) -> bool {
    (to.x - from.x) * (to.x - from.x) + (to.y - from.y) * (to.y - from.y) > units(6) * units(6)
}

/// Tells a drag from a click.
pub fn dragged(from: Point, to: Point) -> (b: bool)
    requires
        from.near(),
        to.near(),
    ensures
        b == spec_dragged(from, to),
{
    let dx: i128 = to.x as i128 - from.x as i128;
    let dy: i128 = to.y as i128 - from.y as i128;
    assert(0 <= dx * dx <= 0x200_0000_0000 * 0x200_0000_0000) by (nonlinear_arith)
        requires
            -0x200_0000_0000 <= dx <= 0x200_0000_0000,
    ;
    assert(0 <= dy * dy <= 0x200_0000_0000 * 0x200_0000_0000) by (nonlinear_arith)
        requires
            -0x200_0000_0000 <= dy <= 0x200_0000_0000,
    ;
    dx * dx + dy * dy > 1536 * 1536
}

/// Resize edge bit: the top edge.
pub const EDGE_TOP: u32 = 1;

/// Resize edge bit: the bottom edge.
pub const EDGE_BOTTOM: u32 = 2;

/// Resize edge bit: the left edge.
pub const EDGE_LEFT: u32 = 4;

/// Resize edge bit: the right edge.
pub const EDGE_RIGHT: u32 = 8;

/// Units as whole points, rounded down, at least `least` and at most `i32::MAX`.
pub open spec fn whole_points(v: int, least: int) -> int {
    if v / 256 < least {
        least
    } else if v / 256 > i32::MAX {
        i32::MAX as int
    } else {
        v / 256
    }
}

fn to_points(v: i64, least: i32) -> (r: i32)
    requires
        least >= 0,
    ensures
        r == whole_points(v as int, least as int),
{
    if v < 0 {
        return least;
    }
    let q: i64 = v / UNIT;
    if q < least as i64 {
        least
    } else if q > 0x7fff_ffff {
        0x7fff_ffff
    } else {
        q as i32
    }
}

/// The size that a drag asks for: the dragged edges follow the mouse. The right and
/// the bottom edge win where both edges of an axis are named.
pub open spec fn drag_size(frame: Area, edges: u32, dx: int, dy: int) -> (int, int) {
    (
        whole_points(
            if edges & EDGE_RIGHT != 0 {
                frame.w + dx
            } else if edges & EDGE_LEFT != 0 {
                frame.w - dx
            } else {
                frame.w as int
            },
            120,
        ),
        whole_points(
            if edges & EDGE_BOTTOM != 0 {
                frame.h - dy
            } else if edges & EDGE_TOP != 0 {
                frame.h + dy
            } else {
                frame.h as int
            },
            80,
        ),
    )
}

/// The size in points that a client is asked for while its window is resized: at
/// least 120 by 80.
pub fn resize_request(frame: Area, edges: u32, anchor: Point, mouse: Point) -> (r: (i32, i32))
    requires
        frame.near(),
        anchor.near(),
        mouse.near(),
    ensures
        (r.0 as int, r.1 as int) == drag_size(frame, edges, mouse.x - anchor.x, mouse.y - anchor.y),
{
    let dx: i64 = mouse.x - anchor.x;
    let dy: i64 = mouse.y - anchor.y;
    let mut w: i64 = frame.w;
    let mut h: i64 = frame.h;
    if edges & EDGE_LEFT != 0 {
        w = frame.w - dx;
    }
    if edges & EDGE_RIGHT != 0 {
        w = frame.w + dx;
    }
    if edges & EDGE_TOP != 0 {
        h = frame.h + dy;
    }
    if edges & EDGE_BOTTOM != 0 {
        h = frame.h - dy;
    }
    (to_points(w, 120), to_points(h, 80))
}

/// The frame of a window that takes a new size during a resize.
pub open spec fn pinned(frame: Area, edges: u32, lw: int, lh: int) -> Area {
    Area {
        x: (if edges & EDGE_LEFT != 0 {
            frame.x + frame.w - lw
        } else {
            frame.x as int
        }) as i64,
        y: (if edges & EDGE_BOTTOM != 0 {
            frame.y + frame.h - lh
        } else {
            frame.y as int
        }) as i64,
        w: lw as i64,
        h: lh as i64,
    }
}

/// Gives a window a new size with the corner opposite the dragged edges fixed.
pub fn pin_frame(frame: Area, edges: u32, lw: i64, lh: i64) -> (r: Area)
    requires
        frame.near(),
        near(lw as int),
        near(lh as int),
    ensures
        r == pinned(frame, edges, lw as int, lh as int),
{
    Area {
        x: if edges & EDGE_LEFT != 0 { frame.x + frame.w - lw } else { frame.x },
        y: if edges & EDGE_BOTTOM != 0 { frame.y + frame.h - lh } else { frame.y },
        w: lw,
        h: lh,
    }
}

/// A resize from the left or the bottom edge leaves the opposite edge where it was.
pub proof fn lemma_opposite_edge_is_fixed(frame: Area, edges: u32, lw: int, lh: int)
    requires
        frame.near(),
        near(lw),
        near(lh),
    ensures
        edges & EDGE_LEFT != 0 ==> pinned(frame, edges, lw, lh).x + pinned(frame, edges, lw, lh).w
            == frame.x + frame.w,
        edges & EDGE_BOTTOM != 0 ==> pinned(frame, edges, lw, lh).y + pinned(frame, edges, lw, lh).h
            == frame.y + frame.h,
        edges & EDGE_LEFT == 0 ==> pinned(frame, edges, lw, lh).x == frame.x,
        edges & EDGE_BOTTOM == 0 ==> pinned(frame, edges, lw, lh).y == frame.y,
{
}

/// A client that pads its buffer with a shadow settles: asked for the window size
/// minus its margin, it returns a buffer of exactly the window's size.
pub proof fn lemma_resize_round_trip_settles(
    width: i32,
    height: i32,
    geom: (i32, i32, i32, i32),
    scale: i32,
)
    requires
        scale >= 1,
        0 < geom.2 <= spec_points(width, scale),
        0 < geom.3 <= spec_points(height, scale),
    ensures
        ({
            let size = spec_logical_size(width, height, 0, 0, scale);
            let margin = spec_csd_margin(width, height, 0, 0, geom, scale);
            &&& size.0 - margin.0 == geom.2
            &&& size.1 - margin.1 == geom.3
        }),
{
}

/// The edge that is dragged follows the mouse, to within the point that sizes are
/// counted in, and the edge across from it stays: so long as the window stays above its
/// least size. Edge bits are those of the protocol: top 1, bottom 2, left 4, right 8;
/// the y axis points up.
pub proof fn lemma_dragged_edge_follows_mouse(frame: Area, edges: u32, dx: int, dy: int)
    requires
        120 * 256 <= frame.w - dx <= 0x7fff_ffff * 256,
        120 * 256 <= frame.w + dx <= 0x7fff_ffff * 256,
        120 * 256 <= frame.w,
        80 * 256 <= frame.h - dy <= 0x7fff_ffff * 256,
        80 * 256 <= frame.h + dy <= 0x7fff_ffff * 256,
        80 * 256 <= frame.h,
    ensures
        ({
            let (w, h) = drag_size(frame, edges, dx, dy);
            &&& edges & 8u32 != 0 ==> 0 <= (frame.x + frame.w + dx) - (frame.x + 256 * w) < 256
            &&& edges & 4u32 != 0 && edges & 8u32 == 0 ==> 0 <= (frame.x + frame.w - 256 * w) - (
            frame.x + dx) < 256
            &&& edges & 4u32 == 0 && edges & 8u32 == 0 ==> 0 <= frame.w - 256 * w < 256
            &&& edges & 2u32 != 0 ==> 0 <= (frame.y + frame.h - 256 * h) - (frame.y + dy) < 256
            &&& edges & 1u32 != 0 && edges & 2u32 == 0 ==> 0 <= (frame.y + frame.h + dy) - (frame.y
                + 256 * h) < 256
            &&& edges & 1u32 == 0 && edges & 2u32 == 0 ==> 0 <= frame.h - 256 * h < 256
        }),
{
}

/// A size that is asked for is never below 120 by 80, and grows with the mouse on the
/// right and at the top, against it on the left and at the bottom. An axis without a
/// dragged edge does not heed the mouse.
pub proof fn lemma_drag_is_monotonic(
    frame: Area,
    edges: u32,
    dx: int,
    dy: int,
    further_x: int,
    further_y: int,
)
    requires
        dx <= further_x,
        dy <= further_y,
    ensures
        ({
            let (w, h) = drag_size(frame, edges, dx, dy);
            let (w2, h2) = drag_size(frame, edges, further_x, further_y);
            &&& w >= 120 && h >= 80
            &&& edges & 8u32 != 0 ==> w <= w2
            &&& edges & 4u32 != 0 && edges & 8u32 == 0 ==> w >= w2
            &&& edges & 4u32 == 0 && edges & 8u32 == 0 ==> w == w2
            &&& edges & 2u32 != 0 ==> h >= h2
            &&& edges & 1u32 != 0 && edges & 2u32 == 0 ==> h <= h2
            &&& edges & 1u32 == 0 && edges & 2u32 == 0 ==> h == h2
        }),
{
}

/// A window that takes a size during a resize keeps the corner across from the dragged
/// edges: the top right one when it is dragged at the bottom left.
pub proof fn lemma_pinned_frame_has_the_size(frame: Area, edges: u32, lw: int, lh: int)
    requires
        frame.near(),
        near(lw),
        near(lh),
    ensures
        ({
            let r = pinned(frame, edges, lw, lh);
            &&& r.w == lw && r.h == lh
            &&& edges & 4u32 != 0 ==> r.x + r.w == frame.x + frame.w
            &&& edges & 4u32 == 0 ==> r.x == frame.x
            &&& edges & 2u32 != 0 ==> r.y + r.h == frame.y + frame.h
            &&& edges & 2u32 == 0 ==> r.y == frame.y
        }),
{
}

/// The points of a buffer side make up its pixels, but for a rest of less than one point.
pub proof fn lemma_points_make_up_the_pixels(pixels: i32, scale: i32)
    requires
        1 <= scale <= pixels,
    ensures
        scale * spec_points(pixels, scale) <= pixels < scale * (spec_points(pixels, scale) + 1),
{
    vstd::arithmetic::div_mod::lemma_fundamental_div_mod(pixels as int, scale as int);
    vstd::arithmetic::div_mod::lemma_mod_bound(pixels as int, scale as int);
    let q = pixels as int / scale as int;
    assert(scale * (q + 1) == scale * q + scale) by (nonlinear_arith);
}

/// A viewport's destination is the size, whatever the buffer; without one the size
/// follows the buffer on each axis alone.
pub proof fn lemma_destination_is_the_size(
    width: i32,
    height: i32,
    dst_w: i32,
    dst_h: i32,
    scale: i32,
    other_w: i32,
    other_h: i32,
)
    ensures
        dst_w > 0 && dst_h > 0 ==> spec_logical_size(width, height, dst_w, dst_h, scale) == (
            dst_w as int,
            dst_h as int,
        ),
        spec_logical_size(width, height, 0, 0, scale).0 == spec_logical_size(
            width,
            other_h,
            0,
            0,
            scale,
        ).0,
        spec_logical_size(width, height, 0, 0, scale).1 == spec_logical_size(
            other_w,
            height,
            0,
            0,
            scale,
        ).1,
        width >= scale >= 1 ==> spec_logical_size(width, height, 0, 0, scale).0 == width as int
            / scale as int,
        height >= scale >= 1 ==> spec_logical_size(width, height, 0, 0, scale).1 == height as int
            / scale as int,
{
}

/// The work area keeps from each edge of the screen what is reserved there, where
/// enough is left.
pub proof fn lemma_insets_trim_their_edge(
    r: Area,
    top: i32,
    right: i32,
    bottom: i32,
    left: i32,
)
    requires
        r.near(),
        r.w >= 256 * (left + right) + 256,
        r.h >= 256 * (top + bottom) + 256,
    ensures
        ({
            let out = inset(r, (top, right, bottom, left));
            &&& out.x - r.x == 256 * left
            &&& (r.x + r.w) - (out.x + out.w) == 256 * right
            &&& (r.y + r.h) - (out.y + out.h) == 256 * top
            &&& out.y - r.y == 256 * bottom
        }),
{
}

/// A new window has as much room on its left as on its right, and below as above. One
/// that is too wide starts at the left edge, one that is too tall ends at the top edge.
pub proof fn lemma_new_window_is_in_the_middle(work: Area, lw: int, lh: int)
    ensures
        ({
            let (x2, y2) = centered(work, lw, lh);
            &&& lw <= work.w ==> x2 - 2 * work.x == 2 * (work.x + work.w) - (x2 + 2 * lw)
            &&& lw > work.w ==> x2 == 2 * work.x
            &&& lh <= work.h ==> y2 - 2 * work.y == 2 * (work.y + work.h) - (y2 + 2 * lh)
            &&& lh > work.h ==> y2 + 2 * lh == 2 * (work.y + work.h)
        }),
{
}

/// A bar keeps its margin from the edge that it is anchored to. Where it is anchored to
/// both edges of an axis or to none, it is in the middle. Anchor bits are those of the
/// protocol: top 1, bottom 2, left 4, right 8; margins are (top, right, bottom, left).
pub proof fn lemma_bar_keeps_its_margin(
    screen: Area,
    lw: int,
    lh: int,
    anchor: u32,
    margins: (i32, i32, i32, i32),
)
    ensures
        ({
            let (x2, y2) = spec_layer_origin(screen, lw, lh, anchor, margins);
            let left = anchor & 4u32 != 0;
            let right = anchor & 8u32 != 0;
            let top = anchor & 1u32 != 0;
            let bottom = anchor & 2u32 != 0;
            &&& left && !right ==> x2 - 2 * screen.x == 512 * margins.3
            &&& right && !left ==> 2 * (screen.x + screen.w) - (x2 + 2 * lw) == 512 * margins.1
            &&& left == right ==> x2 - 2 * screen.x == 2 * (screen.x + screen.w) - (x2 + 2 * lw)
            &&& top && !bottom ==> 2 * (screen.y + screen.h) - (y2 + 2 * lh) == 512 * margins.0
            &&& bottom && !top ==> y2 - 2 * screen.y == 512 * margins.2
            &&& top == bottom ==> y2 - 2 * screen.y == 2 * (screen.y + screen.h) - (y2 + 2 * lh)
        }),
{
}

/// A popup hangs where it is asked for: its left edge `x` points to the right of the
/// parent's content, its top edge `y` points below the top of it. Without a screen it
/// stays there, and so it does on a screen that it is inside of.
pub proof fn lemma_popup_hangs_at_its_offset(
    content: Area,
    visible: Option<Area>,
    offset: (i32, i32),
    flip: (i32, i32),
    constraint: u32,
    lw: int,
    lh: int,
)
    ensures
        ({
            let (x, y) = spec_popup_place(
                Some(content),
                visible,
                offset,
                flip,
                constraint,
                lw,
                lh,
            );
            let wanted_x = content.x + 256 * offset.0;
            let wanted_top = content.y + content.h - 256 * offset.1;
            &&& visible is None ==> x == wanted_x && y + lh == wanted_top
            &&& visible is Some && visible->0.x <= wanted_x && wanted_x + lw <= visible->0.x
                + visible->0.w ==> x == wanted_x
            &&& visible is Some && visible->0.y <= wanted_top - lh && wanted_top <= visible->0.y
                + visible->0.h ==> y + lh == wanted_top
        }),
{
}

/// A popup that fits on the screen ends up on it, on both axes. One that would stick
/// out on an axis takes its flipped place there, where flipping that axis is allowed (x
/// 4, y 8) and the flipped place is inside.
pub proof fn lemma_popup_lands_on_screen(
    content: Area,
    v: Area,
    offset: (i32, i32),
    flip: (i32, i32),
    constraint: u32,
    lw: int,
    lh: int,
)
    requires
        0 <= lw <= v.w,
        0 <= lh <= v.h,
    ensures
        ({
            let (x, y) = spec_popup_place(
                Some(content),
                Some(v),
                offset,
                flip,
                constraint,
                lw,
                lh,
            );
            let wanted_x = content.x + 256 * offset.0;
            let wanted_top = content.y + content.h - 256 * offset.1;
            let flipped_x = content.x + 256 * flip.0;
            let flipped_top = content.y + content.h - 256 * flip.1;
            &&& v.x <= x && x + lw <= v.x + v.w
            &&& v.y <= y && y + lh <= v.y + v.h
            &&& (wanted_x < v.x || wanted_x + lw > v.x + v.w) && constraint & 4u32 != 0 && v.x
                <= flipped_x && flipped_x + lw <= v.x + v.w ==> x == flipped_x
            &&& (wanted_top - lh < v.y || wanted_top > v.y + v.h) && constraint & 8u32 != 0 && v.y
                <= flipped_top - lh && flipped_top <= v.y + v.h ==> y + lh == flipped_top
            &&& constraint & 4u32 == 0 && wanted_x < v.x ==> x == v.x
            &&& constraint & 4u32 == 0 && wanted_x + lw > v.x + v.w ==> x + lw == v.x + v.w
            &&& constraint & 8u32 == 0 && wanted_top - lh < v.y ==> y == v.y
            &&& constraint & 8u32 == 0 && wanted_top > v.y + v.h ==> y + lh == v.y + v.h
        }),
{
}

/// The box around all screens holds every screen, and each of its sides is one of a
/// screen.
pub proof fn lemma_box_is_tight(screens: Seq<Area>)
    requires
        screens.len() > 0,
    ensures
        forall|i: int|
            0 <= i < screens.len() ==> left_edge(screens) <= (#[trigger] screens[i]).x && bottom_edge(
                screens,
            ) <= screens[i].y && screens[i].x + screens[i].w <= right_edge(screens) && screens[i].y
                + screens[i].h <= top_edge(screens),
        exists|i: int| 0 <= i < screens.len() && (#[trigger] screens[i]).x == left_edge(screens),
        exists|i: int| 0 <= i < screens.len() && (#[trigger] screens[i]).y == bottom_edge(screens),
        exists|i: int|
            0 <= i < screens.len() && (#[trigger] screens[i]).x + screens[i].w == right_edge(
                screens,
            ),
        exists|i: int|
            0 <= i < screens.len() && (#[trigger] screens[i]).y + screens[i].h == top_edge(screens),
    decreases screens.len(),
{
    if screens.len() == 1 {
        assert(screens[0].x == left_edge(screens));
        assert(screens[0].y == bottom_edge(screens));
    } else {
        let rest = screens.drop_last();
        let n = screens.len() - 1;
        lemma_box_is_tight(rest);
        assert forall|i: int| 0 <= i < screens.len() implies left_edge(screens) <= (
        #[trigger] screens[i]).x && bottom_edge(screens) <= screens[i].y && screens[i].x
            + screens[i].w <= right_edge(screens) && screens[i].y + screens[i].h <= top_edge(
            screens,
        ) by {
            if i < n {
                assert(rest[i] == screens[i]);
            }
        }
        let a = choose|i: int| 0 <= i < rest.len() && (#[trigger] rest[i]).x == left_edge(rest);
        assert(screens[a] == rest[a]);
        let b = choose|i: int| 0 <= i < rest.len() && (#[trigger] rest[i]).y == bottom_edge(rest);
        assert(screens[b] == rest[b]);
        let c = choose|i: int|
            0 <= i < rest.len() && (#[trigger] rest[i]).x + rest[i].w == right_edge(rest);
        assert(screens[c] == rest[c]);
        let e = choose|i: int|
            0 <= i < rest.len() && (#[trigger] rest[i]).y + rest[i].h == top_edge(rest);
        assert(screens[e] == rest[e]);
        assert(screens[n] == screens.last());
    }
}

/// A subsurface's left and top edge are as far from its window's as it was put.
pub proof fn lemma_subsurface_hangs_from_the_top(win_h: int, x: int, y: int, lh: int)
    ensures
        spec_subsurface_origin(win_h, x, y, lh).0 == 256 * x,
        win_h - (spec_subsurface_origin(win_h, x, y, lh).1 + lh) == 256 * y,
{
}

/// Travel along one axis is a drag from the seventh point on, whichever way it goes,
/// and travel along the other adds to it.
pub proof fn lemma_drag_is_more_than_six_points(from: Point, to: Point)
    ensures
        from.y == to.y ==> spec_dragged(from, to) == (to.x - from.x > 1536 || from.x - to.x > 1536),
        from.x == to.x ==> spec_dragged(from, to) == (to.y - from.y > 1536 || from.y - to.y > 1536),
        to.x - from.x > 1536 || from.x - to.x > 1536 || to.y - from.y > 1536 || from.y - to.y > 1536
            ==> spec_dragged(from, to),
        spec_dragged(from, to) == spec_dragged(to, from),
{
    let dx = to.x - from.x;
    let dy = to.y - from.y;
    assert(dx * dx >= 0 && dy * dy >= 0) by (nonlinear_arith);
    assert(dx > 1536 || dx < -1536 ==> dx * dx > 1536 * 1536) by (nonlinear_arith);
    assert(-1536 <= dx <= 1536 ==> dx * dx <= 1536 * 1536) by (nonlinear_arith);
    assert(dy > 1536 || dy < -1536 ==> dy * dy > 1536 * 1536) by (nonlinear_arith);
    assert(-1536 <= dy <= 1536 ==> dy * dy <= 1536 * 1536) by (nonlinear_arith);
    assert((-dx) * (-dx) == dx * dx && (-dy) * (-dy) == dy * dy) by (nonlinear_arith);
    assert(dx == 0 ==> dx * dx == 0) by (nonlinear_arith);
    assert(dy == 0 ==> dy * dy == 0) by (nonlinear_arith);
}

/// The mouse is over a frame where its way from the frame's top left corner, right and
/// down, is neither negative nor longer than the frame.
pub proof fn lemma_inside_is_within_the_sides(frame: Area, mouse: Point)
    ensures
        frame.spec_contains(mouse) == (0 <= mouse.x - frame.x <= frame.w && 0 <= frame.h - (mouse.y
            - frame.y) <= frame.h),
{
}

/// A window that may stand where the system put it is not moved; an exempt one gets the
/// frame that it wants; none is ever resized.
pub proof fn lemma_frame_inside_stays(
    exempt: bool,
    wanted: Area,
    system: Area,
    insets: (i32, i32, i32, i32),
    visible: Area,
)
    requires
        visible.near(),
        system.near(),
    ensures
        ({
            let work = inset(visible, insets);
            let r = spec_constrain_frame_rect(exempt, wanted, system, insets, Some(visible));
            &&& exempt ==> r == wanted
            &&& !exempt ==> r.w == system.w && r.h == system.h
            &&& !exempt && work.x <= system.x && system.x + system.w <= work.x + work.w ==> r.x
                == system.x
            &&& !exempt && work.y <= system.y && system.y + system.h <= work.y + work.h ==> r.y
                == system.y
        }),
{
}

/// A side is never nothing: fewer pixels than make a point are a point. Content that fits
/// and its margin make up the buffer; with a viewport, or without a content rectangle,
/// there is no margin.
pub proof fn lemma_smallest_sizes(
    pixels: i32,
    scale: i32,
    width: i32,
    height: i32,
    dst: (i32, i32),
    geom: (i32, i32, i32, i32),
)
    requires
        scale >= 1,
    ensures
        pixels < scale ==> spec_points(pixels, scale) == 1,
        dst.0 > 0 || dst.1 > 0 || geom.2 <= 0 || geom.3 <= 0 ==> spec_csd_margin(
            width,
            height,
            dst.0,
            dst.1,
            geom,
            scale,
        ) == (0int, 0int),
        dst.0 <= 0 && dst.1 <= 0 && geom.2 > 0 && geom.3 > 0 ==> ({
            let (mw, mh) = spec_csd_margin(width, height, dst.0, dst.1, geom, scale);
            &&& geom.2 <= spec_points(width, scale) ==> geom.2 + mw == spec_points(width, scale)
            &&& geom.2 > spec_points(width, scale) ==> mw == 0
            &&& geom.3 <= spec_points(height, scale) ==> geom.3 + mh == spec_points(height, scale)
            &&& geom.3 > spec_points(height, scale) ==> mh == 0
        }),
{
}

/// A popup without a parent is 200 points from the left and from the bottom, as far as the
/// screen lets it be; one that is larger than the screen starts at the left and at the
/// bottom edge.
pub proof fn lemma_orphan_and_oversized_popups(
    content: Option<Area>,
    v: Area,
    offset: (i32, i32),
    flip: (i32, i32),
    constraint: u32,
    lw: int,
    lh: int,
)
    ensures
        spec_popup_place(None, None, offset, flip, constraint, lw, lh) == (200 * 256int, 200
            * 256int),
        v.x <= 51_200 && 51_200 + lw <= v.x + v.w ==> spec_popup_place(
            None,
            Some(v),
            offset,
            flip,
            constraint,
            lw,
            lh,
        ).0 == 51_200,
        v.y <= 51_200 && 51_200 + lh <= v.y + v.h ==> spec_popup_place(
            None,
            Some(v),
            offset,
            flip,
            constraint,
            lw,
            lh,
        ).1 == 51_200,
        lw > v.w ==> spec_popup_place(content, Some(v), offset, flip, constraint, lw, lh).0 == v.x,
        lh > v.h ==> spec_popup_place(content, Some(v), offset, flip, constraint, lw, lh).1 == v.y,
{
}

} // verus!
