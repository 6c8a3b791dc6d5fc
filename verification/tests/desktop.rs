//! The windowing side: commands in, actions out, and what the mouse does.

use wayland_macos::cmd::{PixelFormat, WinCmd};
use wayland_macos::desktop::{
    key, scroll_wheel, Action, Desktop, Seen, Style, WindowSeen,
};
use wayland_macos::geometry::{Area, HalfPoint, Point, UNIT};
use wayland_macos::input::{set_reserved_insets, set_scale, Display, InputEvent};
use wayland_macos::keys::NativeCursor;

fn pt(v: i64) -> i64 {
    v * UNIT
}

fn area(x: i64, y: i64, w: i64, h: i64) -> Area {
    Area { x: pt(x), y: pt(y), w: pt(w), h: pt(h) }
}

fn screen() -> Area {
    area(0, 0, 1000, 800)
}

/// The mouse at a place, a window with a frame, and these frames on the screen.
fn seen(mouse: (i64, i64), frames: Vec<(u32, Area)>) -> Seen {
    Seen {
        mouse: Point { x: pt(mouse.0), y: pt(mouse.1) },
        window: frames.first().map(|f| WindowSeen {
            frame: f.1,
            content: f.1,
            screen: Some(area(0, 0, 1000, 900)),
            visible: Some(screen()),
            view_h: f.1.h,
            live_resize: false,
        }),
        frames,
        visible: Some(screen()),
        screens: vec![area(0, 0, 1000, 900)],
        image_built: true,
    }
}

fn create(id: u32, w: i32, h: i32, decorated: bool) -> WinCmd {
    WinCmd::Create {
        id,
        width: w,
        height: h,
        dst_w: 0,
        dst_h: 0,
        decorated,
        title: "T".to_string(),
        geom: (0, 0, 0, 0),
    }
}

fn frame(id: u32, w: i32, h: i32, geom: (i32, i32, i32, i32)) -> WinCmd {
    WinCmd::Frame {
        id,
        width: w,
        height: h,
        stride: w * 4,
        dst_w: 0,
        dst_h: 0,
        pixels: vec![],
        format: PixelFormat::Bgra8888,
        color: None,
        geom,
    }
}

fn popup(id: u32, parent_id: u32) -> WinCmd {
    WinCmd::CreatePopup {
        id,
        parent_id,
        x: 10,
        y: 20,
        x_flip: 10,
        y_flip: 20,
        constraint: 0,
        width: 50,
        height: 60,
    }
}

fn events(out: Vec<Action>) -> Vec<InputEvent> {
    out.into_iter()
        .filter_map(|a| match a {
            Action::Push { event } => Some(event),
            _ => None,
        })
        .collect()
}

fn button(window_id: u32, pressed: bool) -> InputEvent {
    InputEvent::PointerButton { window_id, button: 0x110, pressed }
}

#[test]
fn windows_come_up_centered() {
    let mut d = Desktop::new();
    let mut display = Display::new();
    set_scale(&mut display, 2);
    set_reserved_insets(&mut display, 100, 0, 0, 0);
    let out = d.handle(create(1, 800, 600, false), &seen((0, 0), vec![]), &display, false);
    assert_eq!(
        out,
        vec![Action::OpenWindow {
            id: 1,
            width: 400,
            height: 300,
            style: Style::BorderlessResizable,
            title: "T".to_string(),
            at: Some(HalfPoint { x2: pt(600), y2: pt(400) }),
        }]
    );
    let out = d.handle(create(2, 800, 600, true), &seen((0, 0), vec![]), &display, true);
    assert!(matches!(out[0], Action::OpenWindow { style: Style::Titled, .. }));
    let out = d.handle(create(3, 800, 600, false), &seen((0, 0), vec![]), &display, true);
    assert!(matches!(out[0], Action::OpenWindow { style: Style::Borderless, .. }));
}

#[test]
fn frames_size_plain_windows_and_leave_decorated_ones() {
    let mut d = Desktop::new();
    let display = Display::new();
    let s = || seen((0, 0), vec![(1, area(100, 100, 400, 300))]);
    d.handle(create(1, 400, 300, false), &s(), &display, false);
    d.handle(create(2, 400, 300, true), &s(), &display, false);
    assert_eq!(
        d.handle(frame(1, 400, 300, (0, 0, 0, 0)), &s(), &display, false),
        vec![Action::ShowImage { id: 1, hdr: false }]
    );
    assert_eq!(
        d.handle(frame(1, 500, 300, (0, 0, 0, 0)), &s(), &display, false),
        vec![
            Action::SetContentSize { id: 1, width: 500, height: 300 },
            Action::ShowImage { id: 1, hdr: false },
        ]
    );
    assert_eq!(
        d.handle(frame(2, 500, 300, (0, 0, 0, 0)), &s(), &display, false),
        vec![Action::ShowImage { id: 2, hdr: false }]
    );
    assert_eq!(d.handle(frame(9, 1, 1, (0, 0, 0, 0)), &s(), &display, false), vec![]);
    let mut failed = s();
    failed.image_built = false;
    assert_eq!(d.handle(frame(1, 1, 1, (0, 0, 0, 0)), &failed, &display, false), vec![]);
}

#[test]
fn resizing_pins_the_opposite_corner() {
    let mut d = Desktop::new();
    let display = Display::new();
    let s = || seen((100, 100), vec![(1, area(100, 100, 400, 300))]);
    d.handle(create(1, 400, 300, false), &s(), &display, false);
    // Left (4) and bottom (2).
    d.handle(WinCmd::StartResize { id: 1, edges: 6 }, &s(), &display, false);
    let moved = seen((60, 90), vec![(1, area(100, 100, 400, 300))]);
    assert_eq!(
        events(d.mouse_dragged(1, 0, 0, &moved)),
        vec![InputEvent::Resize { window_id: 1, width: 440, height: 310 }]
    );
    let tiny = seen((900, 700), vec![(1, area(100, 100, 400, 300))]);
    assert_eq!(
        events(d.mouse_dragged(1, 0, 0, &tiny)),
        vec![InputEvent::Resize { window_id: 1, width: 120, height: 80 }]
    );
    let out = d.handle(frame(1, 440, 310, (0, 0, 0, 0)), &s(), &display, false);
    assert_eq!(out[0], Action::SetFrame { id: 1, frame: area(60, 90, 440, 310) });
    assert_eq!(d.window_did_resize(1, 440, 310), vec![], "no echo while resizing");
    d.mouse_up(1, 0, &s());
    assert_eq!(
        events(d.window_did_resize(1, 441, 310)),
        vec![InputEvent::Resize { window_id: 1, width: 441, height: 310 }]
    );
    assert_eq!(d.window_did_resize(1, 441, 310), vec![], "asked for already");
}

#[test]
fn shadow_margins_do_not_grow_windows() {
    let mut d = Desktop::new();
    let display = Display::new();
    let s = || seen((0, 0), vec![(1, area(100, 100, 420, 320))]);
    d.handle(create(1, 420, 320, false), &s(), &display, false);
    d.handle(frame(1, 420, 320, (10, 10, 400, 300)), &s(), &display, false);
    assert_eq!(
        events(d.window_did_resize(1, 520, 420)),
        vec![InputEvent::Resize { window_id: 1, width: 500, height: 400 }]
    );
    assert_eq!(
        events(d.window_did_resize(1, 5, 420)),
        vec![InputEvent::Resize { window_id: 1, width: 1, height: 400 }]
    );
}

#[test]
fn unrecorded_window_is_resized_without_a_margin() {
    let mut d = Desktop::new();
    assert_eq!(
        events(d.window_did_resize(9, 520, 420)),
        vec![InputEvent::Resize { window_id: 9, width: 520, height: 420 }]
    );
    assert_eq!(
        events(d.window_did_resize(9, 0, -3)),
        vec![InputEvent::Resize { window_id: 9, width: 1, height: 1 }]
    );
    // A resize under way keeps its say, even when its window is gone.
    let display = Display::new();
    let s = || seen((0, 0), vec![(1, area(100, 100, 400, 300))]);
    d.handle(create(1, 400, 300, false), &s(), &display, false);
    d.handle(WinCmd::StartResize { id: 1, edges: 8 }, &s(), &display, false);
    d.handle(WinCmd::Destroy { id: 1 }, &s(), &display, false);
    assert_eq!(d.window_did_resize(1, 500, 300), vec![]);
}

#[test]
fn drags_hand_over_to_the_system() {
    let mut d = Desktop::new();
    let display = Display::new();
    let s = || seen((0, 0), vec![(1, area(100, 100, 400, 300))]);
    d.handle(create(1, 400, 300, false), &s(), &display, false);
    d.handle(WinCmd::StartMove { id: 1 }, &s(), &display, false);
    assert_eq!(d.mouse_dragged(1, 3, 4, &s()), vec![Action::NativeDrag { id: 1 }]);
    assert_eq!(
        events(d.mouse_dragged(1, 3, 4, &s())),
        vec![InputEvent::PointerMotion { window_id: 1, x: 3, y: 4 }]
    );
}

#[test]
fn popup_under_the_mouse_gets_it() {
    let mut d = Desktop::new();
    let display = Display::new();
    let parent = area(100, 100, 400, 300);
    d.handle(create(1, 400, 300, false), &seen((0, 0), vec![]), &display, false);
    let out = d.handle(popup(2, 1), &seen((120, 330), vec![(1, parent)]), &display, false);
    assert_eq!(
        out[0],
        Action::OpenPopup { id: 2, parent: Some(1), frame: area(110, 320, 50, 60) }
    );
    assert_eq!(
        events(out),
        vec![
            InputEvent::PointerEnter { window_id: 2, x: pt(10), y: pt(50) },
            InputEvent::Focus { window_id: 2, focused: true },
        ]
    );
    let out = d.handle(popup(3, 1), &seen((0, 0), vec![(1, parent)]), &display, false);
    assert_eq!(out.len(), 1, "away from the mouse");
    d.handle(WinCmd::SetGrab { window: Some(4) }, &seen((0, 0), vec![]), &display, false);
    let out = d.handle(popup(4, 1), &seen((0, 0), vec![(1, parent)]), &display, false);
    assert_eq!(out.len(), 3, "a grabbing popup gets the pointer anyway");
    assert!(d.popup_open());
    assert_eq!(d.window_did_become_key(1), vec![], "a menu keeps the keyboard");
}

#[test]
fn opening_click_does_not_select() {
    let mut d = Desktop::new();
    let display = Display::new();
    let frames = vec![(1, area(100, 100, 400, 300)), (2, area(110, 320, 50, 60))];
    d.handle(create(1, 400, 300, false), &seen((0, 0), vec![]), &display, false);
    let down = seen((120, 330), frames.clone());
    assert_eq!(events(d.handle_button(1, 0, true, &down)), vec![button(1, true)]);
    d.handle(popup(2, 1), &seen((120, 330), frames.clone()), &display, false);
    d.handle(WinCmd::SetGrab { window: Some(2) }, &down, &display, false);
    let up = seen((122, 330), frames);
    assert_eq!(events(d.handle_button(1, 0, false, &up)), vec![button(1, false)]);
    assert_eq!(events(d.handle_button(1, 0, false, &up)), vec![], "one release per press");
}

#[test]
fn dragging_onto_a_menu_item_selects_it() {
    let mut d = Desktop::new();
    let display = Display::new();
    let frames = vec![(1, area(100, 100, 400, 300)), (2, area(110, 320, 50, 60))];
    d.handle(create(1, 400, 300, false), &seen((0, 0), vec![]), &display, false);
    d.handle_button(1, 0, true, &seen((300, 390), frames.clone()));
    d.handle(popup(2, 1), &seen((300, 390), frames.clone()), &display, false);
    d.handle(WinCmd::SetGrab { window: Some(2) }, &seen((0, 0), vec![]), &display, false);
    assert_eq!(
        events(d.handle_button(1, 0, false, &seen((120, 330), frames))),
        vec![
            InputEvent::PointerMotion { window_id: 2, x: pt(10), y: pt(50) },
            button(2, false),
        ]
    );
}

#[test]
fn click_outside_dismisses_the_menu() {
    let mut d = Desktop::new();
    let display = Display::new();
    let frames = vec![(1, area(100, 100, 400, 300)), (2, area(110, 320, 50, 60))];
    let at = |x, y| seen((x, y), frames.clone());
    d.handle(create(1, 400, 300, false), &at(0, 0), &display, false);
    d.handle(popup(2, 1), &at(0, 0), &display, false);
    d.handle(WinCmd::SetGrab { window: Some(2) }, &at(0, 0), &display, false);
    assert_eq!(
        events(d.handle_button(1, 0, true, &at(700, 700))),
        vec![InputEvent::PopupDismiss { window_id: 2 }]
    );
    assert_eq!(events(d.handle_button(1, 0, false, &at(700, 700))), vec![]);
    assert_eq!(
        events(d.handle_button(1, 0, true, &at(120, 330))),
        vec![InputEvent::PointerMotion { window_id: 2, x: pt(10), y: pt(50) }, button(2, true)]
    );
    assert_eq!(
        events(d.handle_motion(1, 7, 8, &at(120, 330))),
        vec![InputEvent::PointerMotion { window_id: 2, x: pt(10), y: pt(50) }]
    );
    assert_eq!(d.mouse_entered(1, 0, 0), vec![]);
    assert_eq!(d.mouse_exited(1), vec![]);
    // The end of the grab hands the pointer to the window under the mouse.
    assert_eq!(
        events(d.handle(WinCmd::SetGrab { window: None }, &at(150, 150), &display, false)),
        vec![
            InputEvent::PointerEnter { window_id: 1, x: pt(50), y: pt(250) },
            InputEvent::Focus { window_id: 1, focused: true },
        ]
    );
    assert_eq!(
        events(d.mouse_exited(1)),
        vec![InputEvent::PointerLeave { window_id: 1 }]
    );
}

#[test]
fn dead_grabs_are_dropped() {
    let mut d = Desktop::new();
    let display = Display::new();
    d.handle(WinCmd::SetGrab { window: Some(42) }, &seen((0, 0), vec![]), &display, false);
    assert_eq!(
        events(d.handle_motion(1, 7, 8, &seen((0, 0), vec![]))),
        vec![InputEvent::PointerMotion { window_id: 1, x: 7, y: 8 }]
    );
    assert_eq!(d.grabbed(), None);
}

#[test]
fn closing_the_last_menu_restores_focus() {
    let mut d = Desktop::new();
    let display = Display::new();
    let frames = vec![(1, area(100, 100, 400, 300))];
    let at = |x, y| seen((x, y), frames.clone());
    d.handle(create(1, 400, 300, false), &at(0, 0), &display, false);
    d.handle(popup(2, 1), &at(0, 0), &display, false);
    d.handle(popup(3, 1), &at(0, 0), &display, false);
    assert_eq!(
        d.handle(WinCmd::Destroy { id: 3 }, &at(150, 150), &display, false),
        vec![Action::Close { id: 3 }]
    );
    assert_eq!(d.handle(WinCmd::Destroy { id: 2 }, &at(150, 150), &display, false).len(), 3);
    assert_eq!(d.handle(WinCmd::Destroy { id: 2 }, &at(150, 150), &display, false), vec![]);
    assert!(!d.popup_open());
    assert_eq!(
        events(d.window_did_become_key(1)),
        vec![InputEvent::Focus { window_id: 1, focused: true }]
    );
    assert_eq!(
        events(d.window_did_resign_key(1)),
        vec![
            InputEvent::AppDeactivated { window_id: 1 },
            InputEvent::Focus { window_id: 1, focused: false },
        ]
    );
}

#[test]
fn maximize_and_back() {
    let mut d = Desktop::new();
    let mut display = Display::new();
    set_reserved_insets(&mut display, 0, 0, 0, 50);
    let s = || seen((0, 0), vec![(1, area(100, 100, 400, 300))]);
    d.handle(create(1, 400, 300, false), &s(), &display, false);
    assert_eq!(
        d.handle(WinCmd::Maximize { id: 1, on: true }, &s(), &display, false),
        vec![Action::SetFrame { id: 1, frame: area(50, 0, 950, 800) }]
    );
    assert!(!d.placed_exactly(1, false));
    let filled = seen((0, 0), vec![(1, area(50, 0, 950, 800))]);
    assert_eq!(
        d.handle(WinCmd::Fullscreen { id: 1, on: true }, &filled, &display, false),
        vec![Action::SetFrame { id: 1, frame: area(0, 0, 1000, 900) }]
    );
    assert!(d.placed_exactly(1, false));
    assert_eq!(
        d.handle(WinCmd::Fullscreen { id: 1, on: false }, &filled, &display, false),
        vec![Action::SetFrame { id: 1, frame: area(100, 100, 400, 300) }]
    );
    assert_eq!(d.handle(WinCmd::Maximize { id: 1, on: false }, &s(), &display, false), vec![]);
    assert!(d.placed_exactly(1, true));
}

#[test]
fn bars_dock_and_are_placed_exactly() {
    let mut d = Desktop::new();
    let display = Display::new();
    let out = d.handle(
        WinCmd::CreateLayer {
            id: 5,
            width: 1000,
            height: 30,
            anchor: 1 | 4 | 8,
            margin_top: 2,
            margin_right: 0,
            margin_bottom: 0,
            margin_left: 0,
            keyboard: true,
        },
        &seen((0, 0), vec![]),
        &display,
        false,
    );
    assert_eq!(
        out,
        vec![Action::OpenLayer {
            id: 5,
            at: HalfPoint { x2: 0, y2: pt(1536) },
            width: 1000,
            height: 30,
            keyboard: true,
        }]
    );
    assert!(d.placed_exactly(5, false));
    assert_eq!(d.window_did_resize(5, 10, 10), vec![], "bars do not forward resizes");
}

#[test]
fn subsurfaces_are_flipped_against_the_live_height() {
    let mut d = Desktop::new();
    let display = Display::new();
    let s = || seen((0, 0), vec![(1, area(100, 100, 400, 600))]);
    d.handle(create(1, 400, 300, true), &s(), &display, false);
    let sub = |y| WinCmd::SubFrame {
        window_id: 1,
        sub_id: 9,
        x: 5,
        y,
        width: 400,
        height: 500,
        stride: 1600,
        dst_w: 0,
        dst_h: 0,
        pixels: vec![],
        format: PixelFormat::Bgra8888,
        color: None,
    };
    let shown = |fresh, y| Action::ShowSublayer {
        window_id: 1,
        sub_id: 9,
        fresh,
        x: pt(5),
        y: pt(y),
        width: 400,
        height: 500,
        hdr: false,
    };
    assert_eq!(d.handle(sub(0), &s(), &display, false), vec![shown(true, 100)]);
    assert_eq!(d.handle(sub(20), &s(), &display, false), vec![shown(false, 80)]);
    let gone = WinCmd::SubDestroy { window_id: 1, sub_id: 9 };
    assert_eq!(
        d.handle(gone, &s(), &display, false),
        vec![Action::RemoveSublayer { window_id: 1, sub_id: 9 }]
    );
    let gone = WinCmd::SubDestroy { window_id: 1, sub_id: 9 };
    assert_eq!(d.handle(gone, &s(), &display, false), vec![]);
    d.handle(sub(0), &s(), &display, false);
    d.handle(WinCmd::Destroy { id: 1 }, &s(), &display, false);
    d.handle(create(1, 400, 300, true), &s(), &display, false);
    assert_eq!(d.handle(sub(0), &s(), &display, false), vec![shown(true, 100)], "all new");
}

#[test]
fn remaining_commands() {
    let mut d = Desktop::new();
    let mut display = Display::new();
    set_scale(&mut display, 2);
    let s = || seen((0, 0), vec![(1, area(100, 100, 400, 300))]);
    d.handle(create(1, 800, 600, false), &s(), &display, false);
    let mut run = |c| d.handle(c, &s(), &display, false);
    assert_eq!(
        run(WinCmd::Title { id: 1, title: "N".to_string() }),
        vec![Action::SetTitle { id: 1, title: "N".to_string() }]
    );
    assert_eq!(
        run(WinCmd::Move { id: 1, x: 10, y: 20 }),
        vec![Action::SetOrigin { id: 1, origin: Point { x: pt(10), y: pt(580) } }]
    );
    assert_eq!(
        run(WinCmd::SetMinSize { id: 1, width: 100, height: 1 }),
        vec![Action::SetContentMinSize { id: 1, width: 50, height: 1 }]
    );
    assert_eq!(
        run(WinCmd::SetMaxSize { id: 1, width: 100, height: 0 }),
        vec![Action::SetContentMaxSize { id: 1, width: 50, height: 1_000_000 }]
    );
    assert_eq!(run(WinCmd::Minimize { id: 1 }), vec![Action::Minimize { id: 1 }]);
    assert_eq!(run(WinCmd::Activate { id: 1 }), vec![Action::Activate { id: 1 }]);
    assert_eq!(run(WinCmd::Activate { id: 2 }), vec![]);
    assert_eq!(
        run(WinCmd::SetModal { id: 1, modal: true }),
        vec![Action::SetModal { id: 1, modal: true }]
    );
    assert_eq!(
        run(WinCmd::SetCursor { shape: 4 }),
        vec![Action::UseCursor { cursor: NativeCursor::PointingHand }]
    );
    assert_eq!(
        run(WinCmd::HideCursor),
        vec![Action::UseCursor { cursor: NativeCursor::Hidden }]
    );
    assert_eq!(
        run(WinCmd::SetCursorImage {
            width: 8,
            height: 9,
            stride: 32,
            hotspot_x: 1,
            hotspot_y: 2,
            scale: 0,
            pixels: vec![],
        }),
        vec![Action::UseCursorImage { width: 8, height: 9, hotspot_x: 1, hotspot_y: 2, scale: 1 }]
    );
    assert_eq!(
        run(WinCmd::SetIcon { id: 1, width: 8, height: 9, stride: 32, pixels: vec![] }),
        vec![Action::SetIcon { width: 8, height: 9 }]
    );
}

#[test]
fn keys_and_scrolling() {
    assert_eq!(key(0x24, true), Some(InputEvent::Key { keycode: 28, pressed: true }));
    assert_eq!(key(0x0A, true), None);
    assert_eq!(scroll_wheel(256, -512), InputEvent::PointerAxis { dx: -256, dy: 512 });
}

#[test]
fn destroyed_menu_does_not_take_the_focus_back() {
    let mut d = Desktop::new();
    let display = Display::new();
    // The menu comes first in the row, and both lie under the mouse.
    let frames = vec![(2, area(110, 320, 50, 60)), (1, area(100, 100, 400, 300))];
    let at = |x, y| seen((x, y), frames.clone());
    d.handle(create(1, 400, 300, false), &at(0, 0), &display, false);
    d.handle(popup(2, 1), &at(0, 0), &display, false);
    d.handle(WinCmd::SetGrab { window: Some(2) }, &at(0, 0), &display, false);
    let out = d.handle(WinCmd::Destroy { id: 2 }, &at(120, 330), &display, false);
    assert_eq!(out[0], Action::Close { id: 2 });
    assert_eq!(
        events(out),
        vec![
            InputEvent::PointerEnter { window_id: 1, x: pt(20), y: pt(70) },
            InputEvent::Focus { window_id: 1, focused: true },
        ]
    );
}

#[test]
fn popup_stays_on_its_parents_screen() {
    let mut d = Desktop::new();
    let display = Display::new();
    let parent = area(1100, 100, 400, 300);
    let mut s = seen((0, 0), vec![(1, parent)]);
    d.handle(create(1, 400, 300, false), &s, &display, false);
    s.window = Some(WindowSeen {
        frame: parent,
        content: parent,
        screen: Some(area(1000, 0, 1000, 900)),
        visible: Some(area(1000, 0, 1000, 800)),
        view_h: parent.h,
        live_resize: false,
    });
    let out = d.handle(popup(2, 1), &s, &display, false);
    assert_eq!(
        out[0],
        Action::OpenPopup { id: 2, parent: Some(1), frame: area(1110, 320, 50, 60) }
    );
    // A parent on no screen leaves the main one.
    s.window = Some(WindowSeen {
        frame: parent,
        content: parent,
        screen: None,
        visible: None,
        view_h: parent.h,
        live_resize: false,
    });
    let out = d.handle(popup(3, 1), &s, &display, false);
    assert_eq!(
        out[0],
        Action::OpenPopup { id: 3, parent: Some(1), frame: area(950, 320, 50, 60) }
    );
}
