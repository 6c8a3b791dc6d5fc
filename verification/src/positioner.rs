//! Where a popup goes relative to its parent.

use vstd::prelude::*;

verus! {

/// A number as a 32-bit one, reduced modulo 2^32.
pub open spec fn wrap32(v: int) -> int {
    (v + 0x8000_0000) % 0x1_0000_0000 - 0x8000_0000
}

/// Reduces a sum of a few 32-bit numbers to 32 bits.
pub fn wrap_i32(v: i64) -> (r: i32)
    requires
        -0x10_0000_0000 <= v <= 0x10_0000_0000,
    ensures
        r == wrap32(v as int),
        i32::MIN <= v <= i32::MAX ==> r == v,
{
    let u: u64 = (v + 0x10_8000_0000) as u64 % 0x1_0000_0000;
    assert(u == (v + 0x8000_0000) % 0x1_0000_0000);
    (u as i64 - 0x8000_0000) as i32
}

/// Placement that a client builds up before it asks for a popup.
///
/// Values of `anchor` and `gravity`: 0 none, 1 top, 2 bottom, 3 left, 4 right, 5 top
/// left, 6 bottom left, 7 top right, 8 bottom right.
#[derive(Clone, Copy, PartialEq, Eq, Debug)]
pub struct PositionerState {
    pub size: (i32, i32),
    pub anchor_rect: (i32, i32, i32, i32),
    pub offset: (i32, i32),
    pub anchor: u32,
    pub gravity: u32,
    pub constraint_adjustment: u32,
}

/// Which way a direction value points on one axis.
#[derive(Clone, Copy, PartialEq, Eq, Debug, Structural)]
pub enum Side {
    /// Left or top.
    Start,
    Center,
    /// Right or bottom.
    End,
}

/// The horizontal part of a direction value.
pub open spec fn spec_side_x(v: u32) -> Side {
    if v == 3 || v == 5 || v == 6 {
        Side::Start
    } else if v == 4 || v == 7 || v == 8 {
        Side::End
    } else {
        Side::Center
    }
}

/// The vertical part of a direction value.
pub open spec fn spec_side_y(v: u32) -> Side {
    if v == 1 || v == 5 || v == 7 {
        Side::Start
    } else if v == 2 || v == 6 || v == 8 {
        Side::End
    } else {
        Side::Center
    }
}

/// The opposite side.
pub open spec fn opposite(s: Side) -> Side {
    match s {
        Side::Start => Side::End,
        Side::Center => Side::Center,
        Side::End => Side::Start,
    }
}

/// Half of a length, rounded toward 0.
pub open spec fn half(v: i32) -> int {
    if v >= 0 {
        v as int / 2
    } else {
        -(-(v as int) / 2)
    }
}

/// How far into a length a side lies.
pub open spec fn along(s: Side, length: i32) -> int {
    match s {
        Side::Start => 0,
        Side::Center => half(length),
        Side::End => length as int,
    }
}

/// One axis of a popup's origin: the anchor point on the anchor rectangle, minus the
/// part of the popup that the gravity puts before it, plus the offset.
pub open spec fn axis_origin(
    start: i32,
    length: i32,
    anchor: Side,
    size: i32,
    gravity: Side,
    offset: i32,
) -> int {
    wrap32(start + along(anchor, length) - along(opposite(gravity), size) + offset)
}

fn side_x(v: u32) -> (s: Side)
    ensures
        s == spec_side_x(v),
{
    match v {
        3 | 5 | 6 => Side::Start,
        4 | 7 | 8 => Side::End,
        _ => Side::Center,
    }
}

fn side_y(v: u32) -> (s: Side)
    ensures
        s == spec_side_y(v),
{
    match v {
        1 | 5 | 7 => Side::Start,
        2 | 6 | 8 => Side::End,
        _ => Side::Center,
    }
}

fn turn(s: Side, flip: bool) -> (r: Side)
    ensures
        r == if flip {
            opposite(s)
        } else {
            s
        },
{
    if !flip {
        return s;
    }
    match s {
        Side::Start => Side::End,
        Side::Center => Side::Center,
        Side::End => Side::Start,
    }
}

fn distance(s: Side, length: i32) -> (r: i64)
    ensures
        r == along(s, length),
        -0x8000_0000 <= r <= 0x7fff_ffff,
{
    let v: i64 = length as i64;
    match s {
        Side::Start => 0,
        Side::Center => if v >= 0 {
            v / 2
        } else {
            -((-v) / 2)
        },
        Side::End => v,
    }
}

fn place(
    start: i32,
    length: i32,
    anchor: Side,
    size: i32,
    gravity: Side,
    offset: i32,
) -> (r: i32)
    ensures
        r == axis_origin(start, length, anchor, size, gravity, offset),
{
    wrap_i32(
        start as i64 + distance(anchor, length) - distance(turn(gravity, true), size)
            + offset as i64,
    )
}

impl Default for PositionerState {
    fn default() -> (s: Self)
        ensures
            s == (PositionerState {
                size: (0, 0),
                anchor_rect: (0, 0, 0, 0),
                offset: (0, 0),
                anchor: 0,
                gravity: 0,
                constraint_adjustment: 0,
            }),
    {
        PositionerState {
            size: (0, 0),
            anchor_rect: (0, 0, 0, 0),
            offset: (0, 0),
            anchor: 0,
            gravity: 0,
            constraint_adjustment: 0,
        }
    }
}

impl PositionerState {
    /// The horizontal origin; `flip` inverts anchor and gravity.
    pub open spec fn spec_origin_x(self, flip: bool) -> int {
        axis_origin(
            self.anchor_rect.0,
            self.anchor_rect.2,
            if flip {
                opposite(spec_side_x(self.anchor))
            } else {
                spec_side_x(self.anchor)
            },
            self.size.0,
            if flip {
                opposite(spec_side_x(self.gravity))
            } else {
                spec_side_x(self.gravity)
            },
            self.offset.0,
        )
    }

    /// The vertical origin; `flip` inverts anchor and gravity.
    pub open spec fn spec_origin_y(self, flip: bool) -> int {
        axis_origin(
            self.anchor_rect.1,
            self.anchor_rect.3,
            if flip {
                opposite(spec_side_y(self.anchor))
            } else {
                spec_side_y(self.anchor)
            },
            self.size.1,
            if flip {
                opposite(spec_side_y(self.gravity))
            } else {
                spec_side_y(self.gravity)
            },
            self.offset.1,
        )
    }

    /// The popup's left edge relative to the parent, `flip`ped or not.
    pub fn origin_x(&self, flip: bool) -> (r: i32)
        ensures
            r == self.spec_origin_x(flip),
    {
        place(
            self.anchor_rect.0,
            self.anchor_rect.2,
            turn(side_x(self.anchor), flip),
            self.size.0,
            turn(side_x(self.gravity), flip),
            self.offset.0,
        )
    }

    /// The popup's top edge relative to the parent, `flip`ped or not.
    pub fn origin_y(&self, flip: bool) -> (r: i32)
        ensures
            r == self.spec_origin_y(flip),
    {
        place(
            self.anchor_rect.1,
            self.anchor_rect.3,
            turn(side_y(self.anchor), flip),
            self.size.1,
            turn(side_y(self.gravity), flip),
            self.offset.1,
        )
    }

    /// The popup's top-left corner relative to the parent.
    pub fn popup_origin(&self) -> (r: (i32, i32))
        ensures
            r.0 == self.spec_origin_x(false),
            r.1 == self.spec_origin_y(false),
    {
        (self.origin_x(false), self.origin_y(false))
    }
}

/// Without an offset, flipping mirrors the popup at the middle of the anchor
/// rectangle: the gap on one side of it becomes the gap on the other.
pub proof fn lemma_flip_mirrors(p: PositionerState)
    requires
        p.offset.0 == 0,
        0 <= p.anchor_rect.0 <= 0xff_ffff,
        0 <= p.anchor_rect.2 <= 0xff_ffff,
        0 <= p.size.0 <= 0xff_ffff,
        spec_side_x(p.anchor) != Side::Center,
        spec_side_x(p.gravity) != Side::Center,
    ensures
        p.spec_origin_x(true) + p.size.0 - p.anchor_rect.0 == p.anchor_rect.0 + p.anchor_rect.2
            - p.spec_origin_x(false),
{
}

/// A direction value points left, right, up or down; corners point two ways.
pub open spec fn points_left(v: u32) -> bool {
    v == 3 || v == 5 || v == 6
}

/// A direction value points right.
pub open spec fn points_right(v: u32) -> bool {
    v == 4 || v == 7 || v == 8
}

/// A direction value points up.
pub open spec fn points_up(v: u32) -> bool {
    v == 1 || v == 5 || v == 7
}

/// A direction value points down.
pub open spec fn points_down(v: u32) -> bool {
    v == 2 || v == 6 || v == 8
}

/// All lengths are far from the end of the number range.
pub open spec fn small(p: PositionerState) -> bool {
    &&& -0xff_ffff <= p.anchor_rect.0 <= 0xff_ffff
    &&& -0xff_ffff <= p.anchor_rect.1 <= 0xff_ffff
    &&& 0 <= p.anchor_rect.2 <= 0xff_ffff
    &&& 0 <= p.anchor_rect.3 <= 0xff_ffff
    &&& 0 <= p.size.0 <= 0xff_ffff
    &&& 0 <= p.size.1 <= 0xff_ffff
    &&& -0xff_ffff <= p.offset.0 <= 0xff_ffff
    &&& -0xff_ffff <= p.offset.1 <= 0xff_ffff
}

/// A popup grows away from its anchor point in the direction of its gravity: with
/// gravity to the right its left edge is at the point, with gravity to the left its right
/// edge, else its middle; and likewise down and up. The anchor point is on the edge of
/// the anchor rectangle that the anchor names, or else in the middle.
pub proof fn lemma_popup_grows_along_its_gravity(p: PositionerState)
    requires
        small(p),
    ensures
        ({
            let (rx, ry, rw, rh) = p.anchor_rect;
            let x = p.spec_origin_x(false) - p.offset.0;
            let y = p.spec_origin_y(false) - p.offset.1;
            let from_x = x - rx;
            let from_y = y - ry;
            &&& points_left(p.anchor) && points_right(p.gravity) ==> from_x == 0
            &&& points_left(p.anchor) && points_left(p.gravity) ==> from_x + p.size.0 == 0
            &&& points_right(p.anchor) && points_right(p.gravity) ==> from_x == rw
            &&& points_right(p.anchor) && points_left(p.gravity) ==> from_x + p.size.0 == rw
            &&& points_up(p.anchor) && points_down(p.gravity) ==> from_y == 0
            &&& points_up(p.anchor) && points_up(p.gravity) ==> from_y + p.size.1 == 0
            &&& points_down(p.anchor) && points_down(p.gravity) ==> from_y == rh
            &&& points_down(p.anchor) && points_up(p.gravity) ==> from_y + p.size.1 == rh
            &&& !points_left(p.anchor) && !points_right(p.anchor) && points_right(p.gravity) ==> 0
                <= rw - 2 * from_x <= 1
            &&& !points_left(p.anchor) && !points_right(p.anchor) && points_left(p.gravity) ==> 0
                <= rw - 2 * (from_x + p.size.0) <= 1
            &&& points_left(p.anchor) && !points_left(p.gravity) && !points_right(p.gravity) ==> -1
                <= -p.size.0 - 2 * from_x <= 0
            &&& points_right(p.anchor) && !points_left(p.gravity) && !points_right(p.gravity) ==> -1
                <= 2 * rw - p.size.0 - 2 * from_x <= 0
            &&& !points_left(p.anchor) && !points_right(p.anchor) && !points_left(p.gravity)
                && !points_right(p.gravity) ==> -1 <= rw - p.size.0 - 2 * from_x <= 1
            &&& !points_up(p.anchor) && !points_down(p.anchor) && !points_up(p.gravity)
                && !points_down(p.gravity) ==> -1 <= rh - p.size.1 - 2 * from_y <= 1
            &&& !points_up(p.anchor) && !points_down(p.anchor) && points_down(p.gravity) ==> 0 <= rh
                - 2 * from_y <= 1
            &&& !points_up(p.anchor) && !points_down(p.anchor) && points_up(p.gravity) ==> 0 <= rh
                - 2 * (from_y + p.size.1) <= 1
            &&& points_up(p.anchor) && !points_up(p.gravity) && !points_down(p.gravity) ==> -1
                <= -p.size.1 - 2 * from_y <= 0
            &&& points_down(p.anchor) && !points_up(p.gravity) && !points_down(p.gravity) ==> -1
                <= 2 * rh - p.size.1 - 2 * from_y <= 0
        }),
{
}

/// The offset moves a popup by just that much, flipped or not, and each axis heeds its
/// own lengths alone.
pub proof fn lemma_offset_moves_popup(p: PositionerState, q: PositionerState, flip: bool)
    requires
        small(p),
        small(q),
        p.anchor == q.anchor,
        p.gravity == q.gravity,
    ensures
        p.anchor_rect.0 == q.anchor_rect.0 && p.anchor_rect.2 == q.anchor_rect.2 && p.size.0
            == q.size.0 ==> p.spec_origin_x(flip) - q.spec_origin_x(flip) == p.offset.0
            - q.offset.0,
        p.anchor_rect.1 == q.anchor_rect.1 && p.anchor_rect.3 == q.anchor_rect.3 && p.size.1
            == q.size.1 ==> p.spec_origin_y(flip) - q.spec_origin_y(flip) == p.offset.1
            - q.offset.1,
{
}

/// Flipping turns anchor and gravity about: a popup flipped on the x axis is where one
/// is that asks for the opposite sides to begin with, and likewise on the y axis.
pub proof fn lemma_flip_turns_both_sides(p: PositionerState, q: PositionerState)
    requires
        p.size == q.size,
        p.anchor_rect == q.anchor_rect,
        p.offset == q.offset,
    ensures
        points_left(p.anchor) == points_right(q.anchor) && points_right(p.anchor) == points_left(
            q.anchor,
        ) && points_left(p.gravity) == points_right(q.gravity) && points_right(p.gravity)
            == points_left(q.gravity) ==> p.spec_origin_x(true) == q.spec_origin_x(false),
        points_up(p.anchor) == points_down(q.anchor) && points_down(p.anchor) == points_up(q.anchor)
            && points_up(p.gravity) == points_down(q.gravity) && points_down(p.gravity)
            == points_up(q.gravity) ==> p.spec_origin_y(true) == q.spec_origin_y(false),
{
}

} // verus!
