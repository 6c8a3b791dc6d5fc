//! What holds of the windowing side.

use super::{
    first_under, frame_of, is_key_event, layer_key, scrolled, Action, DesktopView, Seen, Style,
    WinEntry,
};
use crate::cmd::{ColorDesc, PixelFormat, TransferFn, WinCmd};
use crate::geometry::{
    centered, drag_size, inset, left_edge, lemma_box_is_tight,
    lemma_drag_is_more_than_six_points, spec_csd_margin, spec_layer_origin, spec_logical_size,
    spec_points, spec_popup_place, top_edge, Area, Point,
};
use crate::input::{Display, InputEvent};
use crate::keys::{lemma_keys_keep_their_place, same_key, spec_map_cursor, NativeCursor};
use vstd::prelude::*;

verus! {

/// A new window opens under its own id, with its own title, as large as its first pixels
/// in points or as its viewport says: with a titlebar where one was asked for, without a
/// frame otherwise, and then resizable unless a remote server sizes it. It opens in the
/// middle of what the bars leave of the screen.
pub proof fn lemma_new_window_opens_as_asked(
    d: DesktopView,
    id: u32,
    width: i32,
    height: i32,
    dst: (i32, i32),
    decorated: bool,
    title: String,
    geom: (i32, i32, i32, i32),
    seen: Seen,
    display: Display,
    rail: bool,
)
    requires
        display.spec_scale() >= 1,
    ensures
        ({
            let cmd = WinCmd::Create {
                id,
                width,
                height,
                dst_w: dst.0,
                dst_h: dst.1,
                decorated,
                title,
                geom,
            };
            let t = d.handle(cmd, seen, display, rail);
            let scale = display.spec_scale();
            let viewport = dst.0 > 0 && dst.1 > 0;
            &&& t.actions.len() == 1
            &&& t.actions[0] matches Action::OpenWindow {
                id: i,
                width: w,
                height: h,
                style,
                title: name,
                at,
            } && i == id && name == title && (viewport ==> w == dst.0 && h == dst.1) && (!viewport
                && width >= scale ==> w == (width as int / scale as int) as i32) && (!viewport
                && height >= scale ==> h == (height as int / scale as int) as i32) && (decorated
                == (style == Style::Titled)) && (!decorated ==> (style == Style::Borderless)
                == rail) && (at is Some) == (seen.visible is Some) && (at is Some ==> ({
                let (x2, y2) = centered(
                    inset(seen.visible->0, display.spec_insets()),
                    256 * (spec_logical_size(width, height, dst.0, dst.1, scale).0),
                    256 * (spec_logical_size(width, height, dst.0, dst.1, scale).1),
                );
                at->0.x2 == x2 as i64 && at->0.y2 == y2 as i64
            }))
            &&& t.state.windows.contains_key(id as u64)
            &&& t.state.windows[id as u64].decorated == decorated
            &&& forall|k: u64|
                k != id ==> t.state.windows.contains_key(k) == #[trigger] d.windows.contains_key(k)
        }),
{
}

/// What is asked of a window is done to that very window, and to no window that does not
/// exist.
pub proof fn lemma_commands_reach_their_window(
    d: DesktopView,
    id: u32,
    title: String,
    modal: bool,
    seen: Seen,
    display: Display,
    rail: bool,
)
    ensures
        ({
            let there = d.windows.contains_key(id as u64);
            let none = Seq::<Action>::empty();
            let named = d.handle(WinCmd::Title { id, title }, seen, display, rail);
            let small = d.handle(WinCmd::Minimize { id }, seen, display, rail);
            let front = d.handle(WinCmd::Activate { id }, seen, display, rail);
            let float = d.handle(WinCmd::SetModal { id, modal }, seen, display, rail);
            &&& there ==> named.actions == seq![Action::SetTitle { id, title }]
            &&& there ==> small.actions == seq![Action::Minimize { id }]
            &&& there ==> front.actions == seq![Action::Activate { id }]
            &&& there ==> float.actions == seq![Action::SetModal { id, modal }]
            &&& !there ==> named.actions == none && small.actions == none && front.actions == none
                && float.actions == none
            &&& named.state == d && small.state == d && front.state == d && float.state == d
        }),
{
}

/// Size limits are those of the client in points; an upper limit of 0 is none, which is
/// as good as a million points.
pub proof fn lemma_size_limits_are_in_points(
    d: DesktopView,
    id: u32,
    width: i32,
    height: i32,
    seen: Seen,
    display: Display,
    rail: bool,
)
    requires
        d.windows.contains_key(id as u64),
        display.spec_scale() >= 1,
    ensures
        ({
            let s = display.spec_scale() as int;
            let lo = d.handle(WinCmd::SetMinSize { id, width, height }, seen, display, rail);
            let hi = d.handle(WinCmd::SetMaxSize { id, width, height }, seen, display, rail);
            &&& lo.actions.len() == 1 && hi.actions.len() == 1
            &&& lo.actions[0] matches Action::SetContentMinSize { id: i, width: w, height: h } && i
                == id && (width >= s ==> w == (width as int / s) as i32) && (width < s ==> w == 1)
                && (height >= s ==> h == (height as int / s) as i32) && (height < s ==> h == 1)
            &&& hi.actions[0] matches Action::SetContentMaxSize { id: i, width: w, height: h } && i
                == id && (width > 0 ==> w == (width as int / s) as i32) && (width <= 0 ==> w
                == 1_000_000) && (height > 0 ==> h == (height as int / s) as i32) && (height <= 0
                ==> h == 1_000_000)
        }),
{
}

/// A move that a client asked for starts with the next drag over its window: the system
/// takes over, once. Drags over other windows do not start it.
pub proof fn lemma_move_starts_with_the_drag(
    d: DesktopView,
    id: u32,
    other: u32,
    x: i64,
    y: i64,
    seen: Seen,
    display: Display,
    rail: bool,
)
    requires
        d.resize is None,
        other != id,
    ensures
        ({
            let armed = d.handle(WinCmd::StartMove { id }, seen, display, rail);
            let dragged = armed.state.drag(id, x, y, seen);
            &&& armed.actions == Seq::<Action>::empty()
            &&& dragged.actions == seq![Action::NativeDrag { id }]
            &&& dragged.state == (DesktopView { drag: None, ..d })
            &&& dragged.state.drag(id, x, y, seen) == dragged.state.motion(id, x, y, seen)
            &&& armed.state.drag(other, x, y, seen) == armed.state.motion(other, x, y, seen)
        }),
{
}

/// A resize that a client asked for makes each drag over its window ask for the size that
/// the mouse has brought its edges to since then. It ends when the button goes up.
pub proof fn lemma_resize_asks_for_the_dragged_size(
    d: DesktopView,
    id: u32,
    edges: u32,
    x: i64,
    y: i64,
    start: Seen,
    now: Seen,
    button: u32,
    display: Display,
    rail: bool,
)
    requires
        d.windows.contains_key(id as u64),
        start.window is Some,
    ensures
        ({
            let armed = d.handle(WinCmd::StartResize { id, edges }, start, display, rail);
            let dragged = armed.state.drag(id, x, y, now);
            let (w, h) = drag_size(
                start.window->0.frame,
                edges,
                now.mouse.x - start.mouse.x,
                now.mouse.y - start.mouse.y,
            );
            &&& armed.actions == Seq::<Action>::empty()
            &&& dragged.actions == seq![
                Action::Push {
                    event: InputEvent::Resize { window_id: id, width: w as i32, height: h as i32 },
                },
            ]
            &&& dragged.state == armed.state
            &&& armed.state.mouse_up(button, now).state.resize is None
            &&& armed.state.mouse_up(button, now).state.drag is None
        }),
{
}

/// A window that is put at a place of the desktop has its top left corner there, as far
/// right and down from the top left of all screens as was asked for.
pub proof fn lemma_window_moves_to_its_place(
    d: DesktopView,
    id: u32,
    x: i32,
    y: i32,
    seen: Seen,
    display: Display,
    rail: bool,
)
    requires
        d.windows.contains_key(id as u64),
        seen.window is Some,
        seen.screens@.len() > 0,
        seen.near(),
    ensures
        ({
            let t = d.handle(WinCmd::Move { id, x, y }, seen, display, rail);
            &&& t.state == d
            &&& t.actions.len() == 1
            &&& t.actions[0] matches Action::SetOrigin { id: i, origin } && i == id && origin.x
                - left_edge(seen.screens@) == 256 * x && top_edge(seen.screens@) - (origin.y
                + seen.window->0.frame.h) == 256 * y
        }),
{
    lemma_box_is_tight(seen.screens@);
    let a = choose|i: int|
        0 <= i < seen.screens@.len() && (#[trigger] seen.screens@[i]).x == left_edge(seen.screens@);
    let b = choose|i: int|
        0 <= i < seen.screens@.len() && (#[trigger] seen.screens@[i]).y + seen.screens@[i].h
            == top_edge(seen.screens@);
    assert(seen.screens@[a].near() && seen.screens@[b].near());
}

/// A popup opens under its own id as a child of its parent, as large as its first pixels
/// in points, at its offset from the parent's content, on the parent's screen.
pub proof fn lemma_popup_opens_at_its_parent(
    d: DesktopView,
    id: u32,
    parent_id: u32,
    offset: (i32, i32),
    flip: (i32, i32),
    constraint: u32,
    width: i32,
    height: i32,
    seen: Seen,
    display: Display,
    rail: bool,
)
    requires
        d.windows.contains_key(parent_id as u64),
        seen.window is Some,
        seen.window->0.visible is Some,
        display.spec_scale() >= 1,
        width >= display.spec_scale(),
        height >= display.spec_scale(),
    ensures
        ({
            let cmd = WinCmd::CreatePopup {
                id,
                parent_id,
                x: offset.0,
                y: offset.1,
                x_flip: flip.0,
                y_flip: flip.1,
                constraint,
                width,
                height,
            };
            let t = d.handle(cmd, seen, display, rail);
            let lw = 256 * (width as int / display.spec_scale() as int);
            let lh = 256 * (height as int / display.spec_scale() as int);
            let (px, py) = spec_popup_place(
                Some(seen.window->0.content),
                seen.window->0.visible,
                offset,
                flip,
                constraint,
                lw,
                lh,
            );
            &&& t.actions.len() >= 1
            &&& t.actions[0] matches Action::OpenPopup { id: i, parent, frame } && i == id && parent
                == Some(parent_id) && frame.w == lw as i64 && frame.h == lh as i64 && frame.x
                == px as i64 && frame.y == py as i64
            &&& t.state.popups.contains_key(id as u64)
            &&& t.state.windows.contains_key(id as u64)
            &&& t.state.menu_open()
        }),
{
    let t = d.handle(
        WinCmd::CreatePopup {
            id,
            parent_id,
            x: offset.0,
            y: offset.1,
            x_flip: flip.0,
            y_flip: flip.1,
            constraint,
            width,
            height,
        },
        seen,
        display,
        rail,
    );
    assert(t.state.popups.dom().contains(id as u64));
}

/// A popup that opens under the mouse, or that grabs the pointer, has the pointer and the
/// keyboard from the start; any other waits for the pointer to come.
pub proof fn lemma_popup_under_the_mouse_is_entered(
    d: DesktopView,
    id: u32,
    parent_id: u32,
    offset: (i32, i32),
    flip: (i32, i32),
    constraint: u32,
    size: (i32, i32),
    seen: Seen,
    display: Display,
)
    ensures
        ({
            let t = d.create_popup(id, parent_id, offset, flip, constraint, size, seen, display);
            &&& t.actions.len() >= 1
            &&& t.actions[0] matches Action::OpenPopup { frame, .. } && ({
                let x = seen.mouse.x - frame.x;
                let down = frame.h - (seen.mouse.y - frame.y);
                let over = 0 <= x <= frame.w && 0 <= down <= frame.h;
                if over || d.grab == Some(id) {
                    t.actions.skip(1) == seq![
                        Action::Push {
                            event: InputEvent::PointerEnter {
                                window_id: id,
                                x: x as i64,
                                y: down as i64,
                            },
                        },
                        Action::Push {
                            event: InputEvent::Focus { window_id: id, focused: true },
                        },
                    ]
                } else {
                    t.actions.len() == 1
                }
            })
        }),
{
    let t = d.create_popup(id, parent_id, offset, flip, constraint, size, seen, display);
    assert(t.actions[0] is OpenPopup);
    let frame = t.actions[0]->OpenPopup_frame;
    let x = seen.mouse.x - frame.x;
    let down = frame.h - (seen.mouse.y - frame.y);
    if 0 <= x <= frame.w && 0 <= down <= frame.h || d.grab == Some(id) {
        assert(t.actions.skip(1) =~= seq![
            Action::Push {
                event: InputEvent::PointerEnter { window_id: id, x: x as i64, y: down as i64 },
            },
            Action::Push { event: InputEvent::Focus { window_id: id, focused: true } },
        ]);
    }
}

/// A grab lasts until it is ended or its popup goes; its end hands the pointer and the
/// keyboard to a window under the mouse, in that window's own coordinates.
pub proof fn lemma_grab_lasts_until_it_ends(
    d: DesktopView,
    popup: u32,
    seen: Seen,
    display: Display,
    rail: bool,
)
    ensures
        ({
            let on = d.handle(WinCmd::SetGrab { window: Some(popup) }, seen, display, rail);
            let off = on.state.handle(WinCmd::SetGrab { window: None }, seen, display, rail);
            &&& on.state.grab == Some(popup) && on.actions == Seq::<Action>::empty()
            &&& off.state == (DesktopView { grab: None, ..d })
            &&& match first_under(seen.frames@, d.windows, seen.mouse) {
                Some((id, f)) => off.actions == seq![
                    Action::Push {
                        event: InputEvent::PointerEnter {
                            window_id: id,
                            x: (seen.mouse.x - f.x) as i64,
                            y: (f.h - (seen.mouse.y - f.y)) as i64,
                        },
                    },
                    Action::Push { event: InputEvent::Focus { window_id: id, focused: true } },
                ],
                None => off.actions == Seq::<Action>::empty(),
            }
        }),
{
}

/// The window under a place is a listed one that exists and holds the place, and no
/// listed window before it does; where none is under it, none of them does.
pub proof fn lemma_first_under_is_first(
    frames: Seq<(u32, Area)>,
    windows: Map<u64, WinEntry>,
    p: Point,
)
    ensures
        match first_under(frames, windows, p) {
            Some(found) => exists|i: int|
                0 <= i < frames.len() && #[trigger] frames[i] == found && windows.contains_key(
                    found.0 as u64,
                ) && found.1.x <= p.x <= found.1.x + found.1.w && found.1.y <= p.y <= found.1.y
                    + found.1.h && forall|j: int|
                    0 <= j < i ==> !(windows.contains_key((#[trigger] frames[j]).0 as u64)
                        && frames[j].1.x <= p.x <= frames[j].1.x + frames[j].1.w && frames[j].1.y
                        <= p.y <= frames[j].1.y + frames[j].1.h),
            None => forall|j: int|
                0 <= j < frames.len() ==> !(windows.contains_key((#[trigger] frames[j]).0 as u64)
                    && frames[j].1.x <= p.x <= frames[j].1.x + frames[j].1.w && frames[j].1.y
                    <= p.y <= frames[j].1.y + frames[j].1.h),
        },
    decreases frames.len(),
{
    if frames.len() > 0 {
        let rest = frames.drop_last();
        lemma_first_under_is_first(rest, windows, p);
        assert(forall|j: int| 0 <= j < rest.len() ==> #[trigger] frames[j] == rest[j]);
        if first_under(rest, windows, p) is Some {
            let found = first_under(rest, windows, p)->0;
            let i = choose|i: int|
                0 <= i < rest.len() && #[trigger] rest[i] == found && forall|j: int|
                    0 <= j < i ==> !(windows.contains_key((#[trigger] rest[j]).0 as u64)
                        && rest[j].1.x <= p.x <= rest[j].1.x + rest[j].1.w && rest[j].1.y <= p.y
                        <= rest[j].1.y + rest[j].1.h);
            assert(frames[i] == found);
        } else {
            assert(frames[frames.len() - 1] == frames.last());
        }
    }
}

/// The frame of a window is one that is listed for it, where one is.
pub proof fn lemma_frame_is_listed(frames: Seq<(u32, Area)>, id: u32)
    ensures
        match frame_of(frames, id) {
            Some(f) => frames.contains((id, f)),
            None => forall|j: int| 0 <= j < frames.len() ==> (#[trigger] frames[j]).0 != id,
        },
    decreases frames.len(),
{
    if frames.len() > 0 {
        let rest = frames.drop_last();
        lemma_frame_is_listed(rest, id);
        assert(forall|j: int| 0 <= j < rest.len() ==> #[trigger] frames[j] == rest[j]);
        if frame_of(rest, id) is Some {
            let f = frame_of(rest, id)->0;
            let i = choose|i: int| 0 <= i < rest.len() && rest[i] == (id, f);
            assert(frames[i] == (id, f));
        } else {
            assert(frames[frames.len() - 1] == frames.last());
        }
    }
}

/// A named cursor is shown as the native one that stands for it, an image as it is with
/// its hotspot, and a hidden one not at all.
pub proof fn lemma_cursor_commands_change_the_cursor(
    d: DesktopView,
    shape: u32,
    width: i32,
    height: i32,
    stride: i32,
    hotspot_x: i32,
    hotspot_y: i32,
    scale: i32,
    pixels: Vec<u8>,
    seen: Seen,
    display: Display,
    rail: bool,
)
    ensures
        ({
            let named = d.handle(WinCmd::SetCursor { shape }, seen, display, rail);
            let hidden = d.handle(WinCmd::HideCursor, seen, display, rail);
            let image = d.handle(
                WinCmd::SetCursorImage {
                    width,
                    height,
                    stride,
                    hotspot_x,
                    hotspot_y,
                    scale,
                    pixels,
                },
                seen,
                display,
                rail,
            );
            &&& named.actions == seq![Action::UseCursor { cursor: spec_map_cursor(shape) }]
            &&& hidden.actions == seq![Action::UseCursor { cursor: NativeCursor::Hidden }]
            &&& seen.image_built ==> image.actions.len() == 1 && (
            image.actions[0] matches Action::UseCursorImage {
                width: w,
                height: h,
                hotspot_x: hx,
                hotspot_y: hy,
                scale: s,
            } && w == width && h == height && hx == hotspot_x && hy == hotspot_y && (scale >= 1
                ==> s == scale) && (scale < 1 ==> s == 1))
            &&& !seen.image_built ==> image.actions == Seq::<Action>::empty()
            &&& named.state == d && hidden.state == d && image.state == d
        }),
{
}

/// A subsurface's layer is added to its window once, shown where it is from the window's
/// top left corner, and removed once.
pub proof fn lemma_layer_is_added_and_removed_once(
    d: DesktopView,
    window_id: u32,
    sub_id: u32,
    x: i32,
    y: i32,
    size: (i32, i32),
    dst: (i32, i32),
    color: Option<ColorDesc>,
    seen: Seen,
    display: Display,
    rail: bool,
)
    requires
        d.windows.contains_key(window_id as u64),
        seen.window is Some,
        seen.image_built,
        seen.near(),
        !d.sublayers.contains_key(layer_key(window_id, sub_id)),
        display.spec_scale() >= 1,
        dst.0 > 0,
        dst.1 > 0,
    ensures
        ({
            let a = d.present_subframe(window_id, sub_id, (x, y), size, dst, color, seen, display);
            let b = a.state.present_subframe(
                window_id,
                sub_id,
                (x, y),
                size,
                dst,
                color,
                seen,
                display,
            );
            let gone = a.state.handle(
                WinCmd::SubDestroy { window_id, sub_id },
                seen,
                display,
                rail,
            );
            let hdr = color is Some && color->0.tf != TransferFn::Srgb;
            &&& a.actions.len() == 1
            &&& a.actions[0] matches Action::ShowSublayer {
                window_id: w,
                sub_id: s,
                fresh,
                x: ax,
                y: ay,
                width,
                height,
                hdr: bright,
            } && w == window_id && s == sub_id && fresh && ax == 256 * x && seen.window->0.view_h
                - (ay + 256 * height) == 256 * y && width == dst.0 && height == dst.1 && bright
                == hdr
            &&& b.actions.len() == 1
            &&& b.actions[0] matches Action::ShowSublayer { fresh, .. } && !fresh
            &&& gone.actions == seq![Action::RemoveSublayer { window_id, sub_id }]
            &&& gone.state == d
            &&& gone.state.handle(
                WinCmd::SubDestroy { window_id, sub_id },
                seen,
                display,
                rail,
            ).actions == Seq::<Action>::empty()
        }),
{
    let a = d.present_subframe(window_id, sub_id, (x, y), size, dst, color, seen, display);
    let gone = a.state.handle(WinCmd::SubDestroy { window_id, sub_id }, seen, display, rail);
    assert(gone.state.sublayers =~= d.sublayers);
}

/// The layers of different windows, and different layers of a window, are kept apart.
pub proof fn lemma_layers_are_kept_apart(a: u32, b: u32, p: u32, q: u32)
    ensures
        layer_key(a, p) == layer_key(b, q) <==> a == b && p == q,
{
}

/// A maximized window fills what the bars leave of its screen, a fullscreen one covers
/// its screen whole and stands there exactly. Undoing a fill that never was does nothing.
pub proof fn lemma_fill_covers_the_screen(
    d: DesktopView,
    id: u32,
    seen: Seen,
    display: Display,
    rail: bool,
)
    requires
        d.windows.contains_key(id as u64),
        seen.window is Some,
        seen.window->0.screen is Some,
        seen.window->0.visible is Some,
    ensures
        ({
            let large = d.handle(WinCmd::Maximize { id, on: true }, seen, display, rail);
            let full = d.handle(WinCmd::Fullscreen { id, on: true }, seen, display, rail);
            let none = d.handle(WinCmd::Maximize { id, on: false }, seen, display, rail);
            &&& large.actions == seq![
                Action::SetFrame {
                    id,
                    frame: inset(seen.window->0.visible->0, display.spec_insets()),
                },
            ]
            &&& full.actions == seq![Action::SetFrame { id, frame: seen.window->0.screen->0 }]
            &&& full.state.is_placed_exactly(id, false)
            &&& !d.layers.contains_key(id as u64) ==> !large.state.is_placed_exactly(id, false)
            &&& !d.saved.contains_key(id as u64) ==> none.actions == Seq::<Action>::empty()
        }),
{
}

/// A bar opens under its own id, as large as its first pixels in points, at the place
/// that its anchor and margins give it on the visible part of the screen, and stands
/// there exactly.
pub proof fn lemma_bar_opens_at_its_edge(
    d: DesktopView,
    id: u32,
    width: i32,
    height: i32,
    anchor: u32,
    margins: (i32, i32, i32, i32),
    keyboard: bool,
    seen: Seen,
    display: Display,
    rail: bool,
)
    requires
        seen.visible is Some,
        display.spec_scale() >= 1,
        width >= display.spec_scale(),
        height >= display.spec_scale(),
    ensures
        ({
            let cmd = WinCmd::CreateLayer {
                id,
                width,
                height,
                anchor,
                margin_top: margins.0,
                margin_right: margins.1,
                margin_bottom: margins.2,
                margin_left: margins.3,
                keyboard,
            };
            let t = d.handle(cmd, seen, display, rail);
            let lw = width as int / display.spec_scale() as int;
            let lh = height as int / display.spec_scale() as int;
            let (x2, y2) = spec_layer_origin(
                seen.visible->0,
                256 * lw,
                256 * lh,
                anchor,
                margins,
            );
            &&& t.actions.len() == 1
            &&& t.actions[0] matches Action::OpenLayer { id: i, at, width: w, height: h, keyboard: k }
                && i == id && w == lw as i32 && h == lh as i32 && k == keyboard && at.x2
                == x2 as i64 && at.y2 == y2 as i64
            &&& t.state.is_placed_exactly(id, false)
            &&& t.state.windows.contains_key(id as u64)
        }),
{
}

/// An icon is shown where it could be built.
pub proof fn lemma_icon_is_shown(
    d: DesktopView,
    id: u32,
    width: i32,
    height: i32,
    stride: i32,
    pixels: Vec<u8>,
    seen: Seen,
    display: Display,
    rail: bool,
)
    ensures
        ({
            let cmd = WinCmd::SetIcon { id, width, height, stride, pixels };
            let t = d.handle(cmd, seen, display, rail);
            &&& seen.image_built ==> t.actions == seq![Action::SetIcon { width, height }]
            &&& !seen.image_built ==> t.actions == Seq::<Action>::empty()
            &&& t.state == d
        }),
{
}

/// A window's end closes that window first of all, where it exists; other windows stay.
pub proof fn lemma_destroy_closes_the_window(
    d: DesktopView,
    id: u32,
    seen: Seen,
    display: Display,
    rail: bool,
)
    ensures
        ({
            let t = d.handle(WinCmd::Destroy { id }, seen, display, rail);
            let close = Action::Close { id };
            &&& d.windows.contains_key(id as u64) ==> t.actions.len() >= 1 && t.actions[0] == close
            &&& forall|i: int|
                1 <= i < t.actions.len() ==> #[trigger] t.actions[i] is Push
            &&& forall|k: u64|
                k != id ==> t.state.windows.contains_key(k) == #[trigger] d.windows.contains_key(k)
            &&& d.grab != Some(id) && !d.popups.contains_key(id as u64) && d.windows.contains_key(
                id as u64,
            ) ==> t.actions == seq![close]
        }),
{
}

/// New pixels are shown in their own window, in the extended range where their curve is
/// an HDR one. A window without a titlebar takes their size in points, unless the user is
/// resizing it; the size that the user gave a window is its own.
pub proof fn lemma_pixels_size_their_window(
    d: DesktopView,
    id: u32,
    size: (i32, i32),
    dst: (i32, i32),
    color: Option<ColorDesc>,
    geom: (i32, i32, i32, i32),
    seen: Seen,
    display: Display,
)
    requires
        d.windows.contains_key(id as u64),
        seen.window is Some,
        seen.image_built,
        d.resize is None,
    ensures
        ({
            let t = d.present_frame(id, size, dst, color, geom, seen, display);
            let e = d.windows[id as u64];
            let (lw, lh) = spec_logical_size(size.0, size.1, dst.0, dst.1, display.spec_scale());
            let (mw, mh) = spec_csd_margin(
                size.0,
                size.1,
                dst.0,
                dst.1,
                geom,
                display.spec_scale(),
            );
            let hdr = color is Some && color->0.tf != TransferFn::Srgb;
            let free = !e.decorated && !seen.window->0.live_resize;
            &&& t.actions.last() == (Action::ShowImage { id, hdr })
            &&& free && (e.cur_w != lw || e.cur_h != lh) ==> t.actions.len() == 2 && t.actions[0]
                == (Action::SetContentSize { id, width: lw as i32, height: lh as i32 })
            &&& !free || (e.cur_w == lw && e.cur_h == lh) ==> t.actions.len() == 1
            &&& t.state.windows[id as u64].margin_w == mw as i32
            &&& t.state.windows[id as u64].margin_h == mh as i32
            &&& forall|k: u64|
                k != id ==> #[trigger] t.state.windows[k] == d.windows[k]
        }),
{
}

/// Without an image or without a window nothing is shown and nothing changes.
pub proof fn lemma_no_image_shows_nothing(
    d: DesktopView,
    id: u32,
    sub_id: u32,
    at: (i32, i32),
    size: (i32, i32),
    dst: (i32, i32),
    color: Option<ColorDesc>,
    geom: (i32, i32, i32, i32),
    seen: Seen,
    display: Display,
)
    requires
        !seen.image_built || !d.windows.contains_key(id as u64),
    ensures
        d.present_frame(id, size, dst, color, geom, seen, display).actions == Seq::<Action>::empty(),
        d.present_frame(id, size, dst, color, geom, seen, display).state == d,
        d.present_subframe(id, sub_id, at, size, dst, color, seen, display).actions == Seq::<
            Action,
        >::empty(),
        d.present_subframe(id, sub_id, at, size, dst, color, seen, display).state == d,
{
}

/// Without a grab, the pointer is reported for the window that it is over, where it is in
/// that window.
pub proof fn lemma_pointer_is_reported_where_it_is(
    d: DesktopView,
    id: u32,
    x: i64,
    y: i64,
    seen: Seen,
)
    requires
        d.grab is None,
    ensures
        d.entered(id, x, y).actions == seq![
            Action::Push { event: InputEvent::PointerEnter { window_id: id, x, y } },
        ],
        d.exited(id).actions == seq![
            Action::Push { event: InputEvent::PointerLeave { window_id: id } },
        ],
        d.motion(id, x, y, seen).actions == seq![
            Action::Push { event: InputEvent::PointerMotion { window_id: id, x, y } },
        ],
        d.entered(id, x, y).state == d,
        d.exited(id).state == d,
        d.motion(id, x, y, seen).state == d,
{
}

/// A grabbing popup hears all motion, in its own coordinates: right and down from its top
/// left corner. Comings and goings at other windows are not reported meanwhile.
pub proof fn lemma_grab_takes_all_motion(
    d: DesktopView,
    popup: u32,
    f: Area,
    id: u32,
    x: i64,
    y: i64,
    seen: Seen,
)
    requires
        d.grab == Some(popup),
        d.windows.contains_key(popup as u64),
        frame_of(seen.frames@, popup) == Some(f),
        f.near(),
        seen.mouse.near(),
    ensures
        d.motion(id, x, y, seen).actions.len() == 1,
        d.motion(id, x, y, seen).actions[0] matches Action::Push {
            event: InputEvent::PointerMotion { window_id, x: mx, y: my },
        } && window_id == popup && f.x + mx == seen.mouse.x && f.y + f.h - my == seen.mouse.y,
        d.entered(id, x, y).actions == Seq::<Action>::empty(),
        d.exited(id).actions == Seq::<Action>::empty(),
{
}

/// Without a grab a press goes to the window that it happened over, as the button that it
/// is, and its release goes to the same window wherever the mouse has gone.
pub proof fn lemma_release_follows_its_press(
    d: DesktopView,
    id: u32,
    button: u32,
    down: Seen,
    up: Seen,
)
    requires
        d.grab is None,
    ensures
        ({
            let a = d.press(id, button, down);
            let b = a.state.release(button, up);
            &&& a.actions == seq![
                Action::Push {
                    event: InputEvent::PointerButton { window_id: id, button, pressed: true },
                },
            ]
            &&& b.actions == seq![
                Action::Push {
                    event: InputEvent::PointerButton { window_id: id, button, pressed: false },
                },
            ]
            &&& a.state.press_origin == Some(down.mouse)
            &&& b.state == (DesktopView { implicit_grab: None, press_origin: None, ..d })
        }),
{
}

/// A press inside a grabbing popup goes to the popup, after the pointer has been reported
/// there; one outside dismisses the popup and reaches no window.
pub proof fn lemma_press_selects_or_dismisses(
    d: DesktopView,
    popup: u32,
    f: Area,
    id: u32,
    button: u32,
    seen: Seen,
)
    requires
        d.grab == Some(popup),
        d.windows.contains_key(popup as u64),
        frame_of(seen.frames@, popup) == Some(f),
        f.near(),
        seen.mouse.near(),
    ensures
        ({
            let t = d.press(id, button, seen);
            let inside = f.x <= seen.mouse.x <= f.x + f.w && f.y <= seen.mouse.y <= f.y + f.h;
            &&& inside ==> t.actions == seq![
                Action::Push {
                    event: InputEvent::PointerMotion {
                        window_id: popup,
                        x: (seen.mouse.x - f.x) as i64,
                        y: (f.y + f.h - seen.mouse.y) as i64,
                    },
                },
                Action::Push {
                    event: InputEvent::PointerButton { window_id: popup, button, pressed: true },
                },
            ] && t.state.implicit_grab == Some(popup)
            &&& !inside ==> t.actions == seq![
                Action::Push { event: InputEvent::PopupDismiss { window_id: popup } },
            ] && t.state.implicit_grab is None
            &&& t.state.grab == Some(popup)
        }),
{
}

/// Becoming the key window gains the keyboard unless a menu holds it; losing it loses the
/// keyboard in any case.
pub proof fn lemma_key_window_has_the_keyboard(d: DesktopView, id: u32)
    ensures
        (forall|k: u64| !d.popups.contains_key(k)) ==> d.became_key(id) == seq![
            Action::Push { event: InputEvent::Focus { window_id: id, focused: true } },
        ],
        (exists|k: u64| d.popups.contains_key(k)) ==> d.became_key(id) == Seq::<Action>::empty(),
        d.resigned_key(id).last() == (Action::Push {
            event: InputEvent::Focus { window_id: id, focused: false },
        }),
        d.resigned_key(id)[0] == (Action::Push {
            event: InputEvent::AppDeactivated { window_id: id },
        }),
        d.resigned_key(id).len() == 2,
{
    if forall|k: u64| !d.popups.contains_key(k) {
        assert(d.popups.dom() =~= Set::<u64>::empty());
    }
    if exists|k: u64| d.popups.contains_key(k) {
        let k = choose|k: u64| d.popups.contains_key(k);
        assert(d.popups.dom().contains(k));
    }
}

/// A window that the user resized asks its client for what is left of the new size
/// without the shadow, so that shadow and content together are as large as the window.
pub proof fn lemma_native_resize_leaves_room_for_the_shadow(
    d: DesktopView,
    id: u32,
    w: i32,
    h: i32,
)
    requires
        d.wf(),
        d.windows.contains_key(id as u64),
        d.windows[id as u64].forwards_resize,
        d.windows[id as u64].last_w != w || d.windows[id as u64].last_h != h,
        d.resize is None,
        w > d.windows[id as u64].margin_w,
        h > d.windows[id as u64].margin_h,
    ensures
        ({
            let e = d.windows[id as u64];
            let t = d.native_resize(id, w, h);
            &&& t.actions.len() == 1
            &&& t.actions[0] matches Action::Push {
                event: InputEvent::Resize { window_id, width, height },
            } && window_id == id && width + e.margin_w == w && height + e.margin_h == h
            &&& t.state.windows[id as u64].last_w == w && t.state.windows[id as u64].last_h == h
        }),
{
}

/// Scrolling turns the native distances about, and turning them about twice gives them
/// back.
pub proof fn lemma_scrolling_is_turned_about(dx: i64, dy: i64)
    requires
        dx > i64::MIN,
        dy > i64::MIN,
    ensures
        scrolled(dx, dy) matches InputEvent::PointerAxis { dx: x, dy: y } && x + dx == 0 && y + dy
            == 0,
        scrolled(dx, dy) matches InputEvent::PointerAxis { dx: x, dy: y } && scrolled(x, y)
            == (InputEvent::PointerAxis { dx, dy }),
{
}

/// A key event is that of the same key in the same state.
pub proof fn lemma_key_event_is_of_its_key(kc: u16, pressed: bool, ev: InputEvent)
    requires
        is_key_event(kc, pressed, ev),
    ensures
        ev matches InputEvent::Key { keycode, pressed: p } && p == pressed && same_key(kc, keycode),
{
    let code = choose|code: u32| #[trigger]
        crate::keys::key_table().contains((kc, code)) && ev == (InputEvent::Key {
            keycode: code,
            pressed,
        });
    lemma_keys_keep_their_place(kc, code);
}

/// A command that brings pixels shows these pixels: a frame in its window, a subsurface's
/// in its layer, with the command's own numbers.
pub proof fn lemma_pixel_commands_show_pixels(
    d: DesktopView,
    id: u32,
    sub_id: u32,
    at: (i32, i32),
    width: i32,
    height: i32,
    stride: i32,
    dst: (i32, i32),
    pixels: Vec<u8>,
    format: PixelFormat,
    color: Option<ColorDesc>,
    geom: (i32, i32, i32, i32),
    seen: Seen,
    display: Display,
    rail: bool,
)
    ensures
        d.handle(
            WinCmd::Frame {
                id,
                width,
                height,
                stride,
                dst_w: dst.0,
                dst_h: dst.1,
                pixels,
                format,
                color,
                geom,
            },
            seen,
            display,
            rail,
        ) == d.present_frame(id, (width, height), dst, color, geom, seen, display),
        d.handle(
            WinCmd::SubFrame {
                window_id: id,
                sub_id,
                x: at.0,
                y: at.1,
                width,
                height,
                stride,
                dst_w: dst.0,
                dst_h: dst.1,
                pixels,
                format,
                color,
            },
            seen,
            display,
            rail,
        ) == d.present_subframe(id, sub_id, at, (width, height), dst, color, seen, display),
{
}

/// While a window is resized by an edge, it takes the size of what its client has painted,
/// and the edges across from the dragged ones stay where they were.
pub proof fn lemma_resized_window_follows_its_pixels(
    d: DesktopView,
    id: u32,
    size: (i32, i32),
    dst: (i32, i32),
    color: Option<ColorDesc>,
    geom: (i32, i32, i32, i32),
    seen: Seen,
    display: Display,
)
    requires
        d.wf(),
        d.windows.contains_key(id as u64),
        !d.windows[id as u64].decorated,
        seen.window is Some,
        !seen.window->0.live_resize,
        seen.image_built,
        d.resize is Some,
        d.resize->0.window_id == id,
        dst.0 > 0,
        dst.1 > 0,
        d.windows[id as u64].cur_w != dst.0 || d.windows[id as u64].cur_h != dst.1,
    ensures
        ({
            let t = d.present_frame(id, size, dst, color, geom, seen, display);
            let r = d.resize->0;
            let old = r.anchor_frame;
            &&& t.actions.len() == 2
            &&& t.actions[0] matches Action::SetFrame { id: i, frame } && i == id && frame.w == 256
                * dst.0 && frame.h == 256 * dst.1 && (r.edges & 4u32 != 0 ==> frame.x + frame.w
                == old.x + old.w) && (r.edges & 4u32 == 0 ==> frame.x == old.x) && (r.edges & 2u32
                != 0 ==> frame.y + frame.h == old.y + old.h) && (r.edges & 2u32 == 0 ==> frame.y
                == old.y)
            &&& t.state.windows[id as u64].cur_w == dst.0
            &&& t.state.windows[id as u64].cur_h == dst.1
        }),
{
}

/// A release onto a menu item, after a drag, is reported where it happened and then as the
/// release that it is, both to the menu.
pub proof fn lemma_drag_release_goes_to_the_menu(
    d: DesktopView,
    popup: u32,
    f: Area,
    button: u32,
    up: Seen,
)
    requires
        d.grab == Some(popup),
        d.windows.contains_key(popup as u64),
        d.press_origin is Some,
        up.mouse.x - d.press_origin->0.x > 1536 || d.press_origin->0.x - up.mouse.x > 1536,
        frame_of(up.frames@, popup) == Some(f),
        f.near(),
        up.mouse.near(),
        f.x <= up.mouse.x <= f.x + f.w,
        f.y <= up.mouse.y <= f.y + f.h,
    ensures
        d.release(button, up).actions == seq![
            Action::Push {
                event: InputEvent::PointerMotion {
                    window_id: popup,
                    x: (up.mouse.x - f.x) as i64,
                    y: (f.y + f.h - up.mouse.y) as i64,
                },
            },
            Action::Push {
                event: InputEvent::PointerButton { window_id: popup, button, pressed: false },
            },
        ],
{
    lemma_drag_is_more_than_six_points(d.press_origin->0, up.mouse);
}

/// A native resize asks for at least one point each way, and a window that is not recorded
/// is asked for all of its new size; nothing is asked for while an edge is dragged, or of
/// a window that does not forward its size.
pub proof fn lemma_native_resize_at_the_limits(d: DesktopView, id: u32, w: i32, h: i32)
    requires
        d.wf(),
    ensures
        ({
            let t = d.native_resize(id, w, h);
            let known = d.windows.contains_key(id as u64);
            let e = d.windows[id as u64];
            let dragged = d.resize is Some && d.resize->0.window_id == id;
            &&& dragged ==> t.actions == Seq::<Action>::empty() && t.state == d
            &&& known && !e.forwards_resize ==> t.actions == Seq::<Action>::empty()
            &&& !known && !dragged ==> t.state == d && t.actions.len() == 1 && (
            t.actions[0] matches Action::Push {
                event: InputEvent::Resize { window_id, width, height },
            } && window_id == id && (w >= 1 ==> width == w) && (w < 1 ==> width == 1) && (h >= 1
                ==> height == h) && (h < 1 ==> height == 1))
            &&& known && !dragged && e.forwards_resize && e.last_w != w && w <= e.margin_w && h
                <= e.margin_h ==> t.actions == seq![
                Action::Push { event: InputEvent::Resize { window_id: id, width: 1, height: 1 } },
            ]
        }),
{
}

/// A popup whose parent is not known opens by itself, on the screen that new windows open
/// on; and a command for a popup is for one of at least a pixel each way.
pub proof fn lemma_orphan_popup_opens_by_itself(
    d: DesktopView,
    id: u32,
    parent_id: u32,
    offset: (i32, i32),
    flip: (i32, i32),
    constraint: u32,
    width: i32,
    height: i32,
    seen: Seen,
    display: Display,
    rail: bool,
)
    requires
        !d.windows.contains_key(parent_id as u64),
        display.spec_scale() >= 1,
    ensures
        ({
            let cmd = WinCmd::CreatePopup {
                id,
                parent_id,
                x: offset.0,
                y: offset.1,
                x_flip: flip.0,
                y_flip: flip.1,
                constraint,
                width,
                height,
            };
            let t = d.handle(cmd, seen, display, rail);
            let lw = 256 * spec_points(width, display.spec_scale());
            let lh = 256 * spec_points(height, display.spec_scale());
            let (px, py) = spec_popup_place(
                None,
                seen.visible,
                offset,
                flip,
                constraint,
                lw,
                lh,
            );
            &&& t.actions.len() >= 1
            &&& t.actions[0] matches Action::OpenPopup { id: i, parent, frame } && i == id && parent
                is None && frame.x == px as i64 && frame.y == py as i64 && frame.w == lw as i64
                && frame.h == lh as i64
            &&& width >= 1 && height >= 1 ==> t == d.create_popup(
                id,
                parent_id,
                offset,
                flip,
                constraint,
                (width, height),
                seen,
                display,
            )
        }),
{
    let s = display.spec_scale();
    assert(spec_points(1, s) == 1) by {
        if s == 1 {
            assert(1int / 1int == 1);
        }
    }
}

} // verus!
