//! The windowing side's bookkeeping: which native windows exist, which popup grabs
//! the pointer, which window is being moved or resized, and what each command and
//! each mouse event makes the windowing system do.
//!
//! The windowing system itself is asked before (`Seen`) and told after (`Action`).

pub mod laws;

use crate::cmd::{ColorDesc, WinCmd};
use crate::geometry::{
    apply_reserved_insets, csd_margin, desktop_origin, drag_size, dragged, excess, in_window, inset,
    layer_origin, left_edge, logical_size, near, pin_frame, pinned, place_in_work_area, points,
    popup_place, resize_request, spec_csd_margin, spec_dragged, spec_layer_origin,
    spec_logical_size, spec_points, spec_popup_place, spec_subsurface_origin, subsurface_origin,
    top_edge, units, centered, Area, HalfPoint, Point, UNIT,
};
use crate::idmap::IdMap;
use crate::input::{reserved_insets, scale, Display, InputEvent};
use crate::keys::{
    btn_code, button_has_code, key_table, macos_to_evdev, map_cursor, spec_btn_code, spec_map_cursor, NativeCursor,
};
use vstd::prelude::*;

verus! {

/// What is remembered of one native window. Sizes are in points.
#[derive(Clone, Copy, PartialEq, Eq, Debug, Structural)]
pub struct WinEntry {
    pub cur_w: i32,
    pub cur_h: i32,
    /// The window has a native titlebar: its size is the user's, not the buffer's.
    pub decorated: bool,
    /// The client-drawn shadow margin.
    pub margin_w: i32,
    pub margin_h: i32,
    /// Native resizes are forwarded to the client.
    pub forwards_resize: bool,
    /// The size that was forwarded last.
    pub last_w: i32,
    pub last_h: i32,
}

/// An interactive resize under way.
#[derive(Clone, Copy, PartialEq, Eq, Debug, Structural)]
pub struct ResizeState {
    pub window_id: u32,
    /// Edge bits: top 1, bottom 2, left 4, right 8.
    pub edges: u32,
    pub anchor_mouse: Point,
    pub anchor_frame: Area,
}

/// A native window as the windowing system shows it.
#[derive(Clone, Copy, PartialEq, Eq, Debug, Structural)]
pub struct WindowSeen {
    pub frame: Area,
    /// The frame without the titlebar.
    pub content: Area,
    /// The whole screen that the window is on.
    pub screen: Option<Area>,
    /// The part of that screen beside the menu bar and the dock.
    pub visible: Option<Area>,
    /// Height of the content view.
    pub view_h: i64,
    /// The user is dragging a native edge.
    pub live_resize: bool,
}

/// What the windowing system shows when a command or an event arrives.
pub struct Seen {
    pub mouse: Point,
    /// The frames of the native windows, in the order in which they are searched.
    pub frames: Vec<(u32, Area)>,
    /// The window that the command names; for a popup, its parent.
    pub window: Option<WindowSeen>,
    /// The visible part of the screen that a new window comes up on, or that a popup
    /// does whose parent is on none.
    pub visible: Option<Area>,
    /// All screens.
    pub screens: Vec<Area>,
    /// An image could be built from the command's pixels.
    pub image_built: bool,
}

impl WindowSeen {
    /// All lengths are within reach of any screen setup.
    pub open spec fn near(self) -> bool {
        self.frame.near() && self.content.near() && near(self.view_h as int) && (self.screen is Some
            ==> self.screen->0.near()) && (self.visible is Some ==> self.visible->0.near())
    }
}

impl Seen {
    /// All lengths are within reach of any screen setup.
    pub open spec fn near(self) -> bool {
        &&& self.mouse.near()
        &&& forall|i: int| 0 <= i < self.frames@.len() ==> (#[trigger] self.frames@[i]).1.near()
        &&& self.window is Some ==> self.window->0.near()
        &&& self.visible is Some ==> self.visible->0.near()
        &&& forall|i: int| 0 <= i < self.screens@.len() ==> (#[trigger] self.screens@[i]).near()
    }
}

/// How a window's frame looks.
#[derive(Clone, Copy, PartialEq, Eq, Debug, Structural)]
pub enum Style {
    /// A native titlebar with all buttons, resizable.
    Titled,
    /// No frame, resizable.
    BorderlessResizable,
    /// No frame, fixed size.
    Borderless,
}

/// What the windowing system is to do.
#[derive(Debug, PartialEq, Eq)]
#[allow(inconsistent_fields)]
pub enum Action {
    /// Open a window of this size in points, at `at` or centered by the system.
    OpenWindow {
        id: u32,
        width: i32,
        height: i32,
        style: Style,
        title: String,
        at: Option<HalfPoint>,
    },
    /// Open a docked bar of this size in points; `keyboard` makes it take the keyboard.
    OpenLayer { id: u32, at: HalfPoint, width: i32, height: i32, keyboard: bool },
    /// Open a popup as a child of `parent`, where that exists.
    OpenPopup { id: u32, parent: Option<u32>, frame: Area },
    SetTitle { id: u32, title: String },
    SetFrame { id: u32, frame: Area },
    SetOrigin { id: u32, origin: Point },
    SetContentSize { id: u32, width: i32, height: i32 },
    SetContentMinSize { id: u32, width: i32, height: i32 },
    SetContentMaxSize { id: u32, width: i32, height: i32 },
    /// Show the built image; `hdr` asks for the extended range.
    ShowImage { id: u32, hdr: bool },
    /// Show the built image in a layer of a window, first adding it where `fresh`.
    ShowSublayer {
        window_id: u32,
        sub_id: u32,
        fresh: bool,
        x: i64,
        y: i64,
        width: i32,
        height: i32,
        hdr: bool,
    },
    RemoveSublayer { window_id: u32, sub_id: u32 },
    /// Use a cursor of the system, and show it at once.
    UseCursor { cursor: NativeCursor },
    /// Use the built image as the cursor; `scale` pixels make one point.
    UseCursorImage { width: i32, height: i32, hotspot_x: i32, hotspot_y: i32, scale: i32 },
    Minimize { id: u32 },
    /// Bring the application to the front and the window with it.
    Activate { id: u32 },
    /// Float above ordinary windows, or return among them.
    SetModal { id: u32, modal: bool },
    /// Use the built image as the application's icon.
    SetIcon { width: i32, height: i32 },
    Close { id: u32 },
    /// Hand the current mouse drag to the system's own window move.
    NativeDrag { id: u32 },
    /// Hand an event to the Wayland side.
    Push { event: InputEvent },
}

/// What the bookkeeping holds.
pub struct DesktopView {
    pub windows: Map<u64, WinEntry>,
    /// The layers inside windows, by `layer_key`.
    pub sublayers: Map<u64, ()>,
    /// The window whose move was asked for.
    pub drag: Option<u32>,
    pub resize: Option<ResizeState>,
    /// The popup that grabs the pointer.
    pub grab: Option<u32>,
    /// The window that received the press of the held button.
    pub implicit_grab: Option<u32>,
    /// Where that press happened.
    pub press_origin: Option<Point>,
    /// Frames from before a window was maximized or made fullscreen.
    pub saved: Map<u64, Area>,
    pub fullscreen: Map<u64, ()>,
    pub layers: Map<u64, ()>,
    pub popups: Map<u64, ()>,
}

/// The key of a window's layer.
pub open spec fn layer_key(window_id: u32, sub_id: u32) -> u64 {
    (window_id * 0x1_0000_0000 + sub_id) as u64
}

/// The keys of all layers of a window.
pub open spec fn layers_of(window_id: u32) -> Set<u64> {
    Set::new(|k: u64| layer_key(window_id, 0) <= k <= layer_key(window_id, u32::MAX))
}

/// The state and the actions that follow.
pub struct Step {
    pub state: DesktopView,
    pub actions: Seq<Action>,
}

/// The first frame in the row that contains the position and whose window exists.
pub open spec fn first_under(
    frames: Seq<(u32, Area)>,
    windows: Map<u64, WinEntry>,
    p: Point,
) -> Option<(u32, Area)>
    decreases frames.len(),
{
    if frames.len() == 0 {
        None
    } else if first_under(frames.drop_last(), windows, p) is Some {
        first_under(frames.drop_last(), windows, p)
    } else if windows.contains_key(frames.last().0 as u64) && frames.last().1.spec_contains(p) {
        Some(frames.last())
    } else {
        None
    }
}

/// The first frame in the row that belongs to a window.
pub open spec fn frame_of(frames: Seq<(u32, Area)>, id: u32) -> Option<Area>
    decreases frames.len(),
{
    if frames.len() == 0 {
        None
    } else if frame_of(frames.drop_last(), id) is Some {
        frame_of(frames.drop_last(), id)
    } else if frames.last().0 == id {
        Some(frames.last().1)
    } else {
        None
    }
}

/// The pointer enters a window, which also gets the keyboard.
pub open spec fn enter_and_focus(id: u32, x: int, y: int) -> Seq<Action> {
    seq![
        Action::Push {
            event: InputEvent::PointerEnter { window_id: id, x: x as i64, y: y as i64 },
        },
        Action::Push { event: InputEvent::Focus { window_id: id, focused: true } },
    ]
}

/// The window under the mouse gets the pointer and the keyboard.
pub open spec fn focus_under_cursor(windows: Map<u64, WinEntry>, seen: Seen) -> Seq<Action> {
    match first_under(seen.frames@, windows, seen.mouse) {
        Some((id, f)) => enter_and_focus(id, seen.mouse.x - f.x, f.h - (seen.mouse.y - f.y)),
        None => Seq::empty(),
    }
}

impl DesktopView {
    /// The state once `id` has a fresh record.
    pub open spec fn opened(self, id: u32, entry: WinEntry) -> DesktopView {
        DesktopView {
            windows: self.windows.insert(id as u64, entry),
            sublayers: self.sublayers.remove_keys(layers_of(id)),
            ..self
        }
    }

    /// A native window for a toplevel: the logical size decides, new windows come up
    /// in the work area.
    pub open spec fn create_window(
        self,
        id: u32,
        size: (i32, i32),
        dst: (i32, i32),
        decorated: bool,
        title: String,
        geom: (i32, i32, i32, i32),
        seen: Seen,
        display: Display,
        rail: bool,
    ) -> Step {
        let s = display.spec_scale();
        let (lw, lh) = spec_logical_size(size.0, size.1, dst.0, dst.1, s);
        let (mw, mh) = spec_csd_margin(size.0, size.1, dst.0, dst.1, geom, s);
        Step {
            state: self.opened(
                id,
                WinEntry {
                    cur_w: lw as i32,
                    cur_h: lh as i32,
                    decorated,
                    margin_w: mw as i32,
                    margin_h: mh as i32,
                    forwards_resize: true,
                    last_w: lw as i32,
                    last_h: lh as i32,
                },
            ),
            actions: seq![
                Action::OpenWindow {
                    id,
                    width: lw as i32,
                    height: lh as i32,
                    style: if decorated {
                        Style::Titled
                    } else if rail {
                        Style::Borderless
                    } else {
                        Style::BorderlessResizable
                    },
                    title,
                    at: match seen.visible {
                        Some(v) => {
                            let c = centered(
                                inset(v, display.spec_insets()),
                                units(lw),
                                units(lh),
                            );
                            Some(HalfPoint { x2: c.0 as i64, y2: c.1 as i64 })
                        },
                        None => None,
                    },
                },
            ],
        }
    }

    /// A docked bar at its screen edge.
    pub open spec fn create_layer(
        self,
        id: u32,
        size: (i32, i32),
        anchor: u32,
        margins: (i32, i32, i32, i32),
        keyboard: bool,
        seen: Seen,
        display: Display,
    ) -> Step {
        let lw = spec_points(size.0, display.spec_scale());
        let lh = spec_points(size.1, display.spec_scale());
        let screen = match seen.visible {
            Some(v) => v,
            None => Area { x: 0, y: 0, w: units(lw) as i64, h: units(lh) as i64 },
        };
        let at = spec_layer_origin(screen, units(lw), units(lh), anchor, margins);
        Step {
            state: DesktopView {
                layers: self.layers.insert(id as u64, ()),
                ..self.opened(id, plain_entry(lw, lh))
            },
            actions: seq![
                Action::OpenLayer {
                    id,
                    at: HalfPoint { x2: at.0 as i64, y2: at.1 as i64 },
                    width: lw as i32,
                    height: lh as i32,
                    keyboard,
                },
            ],
        }
    }

    /// A popup at its parent, on the parent's screen. A popup under the mouse, or one that grabs the pointer,
    /// gets the pointer and the keyboard at once.
    pub open spec fn create_popup(
        self,
        id: u32,
        parent_id: u32,
        offset: (i32, i32),
        flip: (i32, i32),
        constraint: u32,
        size: (i32, i32),
        seen: Seen,
        display: Display,
    ) -> Step {
        let lw = spec_points(size.0, display.spec_scale());
        let lh = spec_points(size.1, display.spec_scale());
        let known = self.windows.contains_key(parent_id as u64) && seen.window is Some;
        let content = if known {
            Some(seen.window->0.content)
        } else {
            None
        };
        let at = spec_popup_place(
            content,
            if known && seen.window->0.visible is Some {
                seen.window->0.visible
            } else {
                seen.visible
            },
            offset,
            flip,
            constraint,
            units(lw),
            units(lh),
        );
        let frame = Area {
            x: at.0 as i64,
            y: at.1 as i64,
            w: units(lw) as i64,
            h: units(lh) as i64,
        };
        let open = seq![
            Action::OpenPopup {
                id,
                parent: if known {
                    Some(parent_id)
                } else {
                    None
                },
                frame,
            },
        ];
        Step {
            state: DesktopView {
                popups: self.popups.insert(id as u64, ()),
                ..self.opened(id, plain_entry(size.0 as int, size.1 as int))
            },
            actions: if frame.spec_contains(seen.mouse) || self.grab == Some(id) {
                open + enter_and_focus(
                    id,
                    seen.mouse.x - frame.x,
                    frame.h - (seen.mouse.y - frame.y),
                )
            } else {
                open
            },
        }
    }

    /// A new buffer in a window. The window takes the buffer's size unless the user
    /// owns it; during a resize the corner opposite the dragged edges stays.
    pub open spec fn present_frame(
        self,
        id: u32,
        size: (i32, i32),
        dst: (i32, i32),
        color: Option<ColorDesc>,
        geom: (i32, i32, i32, i32),
        seen: Seen,
        display: Display,
    ) -> Step {
        if !seen.image_built || !self.windows.contains_key(id as u64) || seen.window is None {
            Step { state: self, actions: Seq::empty() }
        } else {
            let s = display.spec_scale();
            let e = self.windows[id as u64];
            let (lw, lh) = spec_logical_size(size.0, size.1, dst.0, dst.1, s);
            let (mw, mh) = spec_csd_margin(size.0, size.1, dst.0, dst.1, geom, s);
            let resizes = !e.decorated && !seen.window->0.live_resize && (e.cur_w != lw || e.cur_h
                != lh);
            let show = Action::ShowImage { id, hdr: color is Some && color->0.spec_is_hdr() };
            Step {
                state: DesktopView {
                    windows: self.windows.insert(
                        id as u64,
                        WinEntry {
                            margin_w: mw as i32,
                            margin_h: mh as i32,
                            cur_w: if resizes {
                                lw as i32
                            } else {
                                e.cur_w
                            },
                            cur_h: if resizes {
                                lh as i32
                            } else {
                                e.cur_h
                            },
                            ..e
                        },
                    ),
                    ..self
                },
                actions: if !resizes {
                    seq![show]
                } else if self.resize is Some && self.resize->0.window_id == id {
                    seq![
                        Action::SetFrame {
                            id,
                            frame: pinned(
                                self.resize->0.anchor_frame,
                                self.resize->0.edges,
                                units(lw),
                                units(lh),
                            ),
                        },
                        show,
                    ]
                } else {
                    seq![
                        Action::SetContentSize { id, width: lw as i32, height: lh as i32 },
                        show,
                    ]
                },
            }
        }
    }

    /// A subsurface's buffer in a layer of its window.
    pub open spec fn present_subframe(
        self,
        window_id: u32,
        sub_id: u32,
        at: (i32, i32),
        size: (i32, i32),
        dst: (i32, i32),
        color: Option<ColorDesc>,
        seen: Seen,
        display: Display,
    ) -> Step {
        if !seen.image_built || !self.windows.contains_key(window_id as u64) || seen.window
            is None {
            Step { state: self, actions: Seq::empty() }
        } else {
            let (lw, lh) = spec_logical_size(
                size.0,
                size.1,
                dst.0,
                dst.1,
                display.spec_scale(),
            );
            let o = spec_subsurface_origin(
                seen.window->0.view_h as int,
                at.0 as int,
                at.1 as int,
                units(lh),
            );
            Step {
                state: DesktopView {
                    sublayers: self.sublayers.insert(layer_key(window_id, sub_id), ()),
                    ..self
                },
                actions: seq![
                    Action::ShowSublayer {
                        window_id,
                        sub_id,
                        fresh: !self.sublayers.contains_key(layer_key(window_id, sub_id)),
                        x: o.0 as i64,
                        y: o.1 as i64,
                        width: lw as i32,
                        height: lh as i32,
                        hdr: color is Some && color->0.spec_is_hdr(),
                    },
                ],
            }
        }
    }

    /// Maximizing and fullscreen: the first frame is saved, and restored at the end.
    pub open spec fn set_window_fill(
        self,
        id: u32,
        on: bool,
        whole_screen: bool,
        seen: Seen,
        display: Display,
    ) -> Step {
        let k = id as u64;
        if !self.windows.contains_key(k) || seen.window is None {
            Step { state: self, actions: Seq::empty() }
        } else if on {
            let w = seen.window->0;
            let target = if whole_screen {
                w.screen
            } else if w.visible is Some {
                Some(inset(w.visible->0, display.spec_insets()))
            } else {
                None
            };
            Step {
                state: DesktopView {
                    saved: if self.saved.contains_key(k) {
                        self.saved
                    } else {
                        self.saved.insert(k, w.frame)
                    },
                    fullscreen: if whole_screen {
                        self.fullscreen.insert(k, ())
                    } else {
                        self.fullscreen.remove(k)
                    },
                    ..self
                },
                actions: match target {
                    Some(frame) => seq![Action::SetFrame { id, frame }],
                    None => Seq::empty(),
                },
            }
        } else {
            Step {
                state: DesktopView {
                    saved: self.saved.remove(k),
                    fullscreen: self.fullscreen.remove(k),
                    ..self
                },
                actions: if self.saved.contains_key(k) {
                    seq![Action::SetFrame { id, frame: self.saved[k] }]
                } else {
                    Seq::empty()
                },
            }
        }
    }

    /// A window goes away with all that was remembered of it. Where it grabbed the
    /// pointer, or was the last open menu, the window under the mouse takes over.
    pub open spec fn destroy(self, id: u32, seen: Seen) -> Step {
        let k = id as u64;
        let grab_ended = self.grab == Some(id);
        let popups = self.popups.remove(k);
        let last_menu = self.popups.contains_key(k) && popups.dom() == Set::<u64>::empty();
        let close: Seq<Action> = if self.windows.contains_key(k) {
            seq![Action::Close { id }]
        } else {
            Seq::empty()
        };
        Step {
            state: DesktopView {
                grab: if grab_ended {
                    None
                } else {
                    self.grab
                },
                windows: self.windows.remove(k),
                sublayers: if self.windows.contains_key(k) {
                    self.sublayers.remove_keys(layers_of(id))
                } else {
                    self.sublayers
                },
                layers: self.layers.remove(k),
                fullscreen: self.fullscreen.remove(k),
                saved: self.saved.remove(k),
                popups,
                ..self
            },
            actions: if grab_ended || last_menu {
                close + focus_under_cursor(self.windows.remove(k), seen)
            } else {
                close
            },
        }
    }

    /// Actions only, and only for a window that exists.
    pub open spec fn on_window(self, id: u32, action: Action) -> Step {
        Step {
            state: self,
            actions: if self.windows.contains_key(id as u64) {
                seq![action]
            } else {
                Seq::empty()
            },
        }
    }

    /// What a command does.
    pub open spec fn handle(self, cmd: WinCmd, seen: Seen, display: Display, rail: bool) -> Step {
        match cmd {
            WinCmd::Create { id, width, height, dst_w, dst_h, decorated, title, geom } => self.create_window(
            id, (width, height), (dst_w, dst_h), decorated, title, geom, seen, display, rail),
            WinCmd::Frame { id, width, height, dst_w, dst_h, color, geom, .. } => self.present_frame(
            id, (width, height), (dst_w, dst_h), color, geom, seen, display),
            WinCmd::Title { id, title } => self.on_window(id, Action::SetTitle { id, title }),
            WinCmd::StartMove { id } => Step {
                state: DesktopView { drag: Some(id), ..self },
                actions: Seq::empty(),
            },
            WinCmd::StartResize { id, edges } => Step {
                state: if self.windows.contains_key(id as u64) && seen.window is Some {
                    DesktopView {
                        resize: Some(
                            ResizeState {
                                window_id: id,
                                edges,
                                anchor_mouse: seen.mouse,
                                anchor_frame: seen.window->0.frame,
                            },
                        ),
                        ..self
                    }
                } else {
                    self
                },
                actions: Seq::empty(),
            },
            WinCmd::Move { id, x, y } => if self.windows.contains_key(id as u64) && seen.window
                is Some && seen.screens@.len() > 0 {
                Step {
                    state: self,
                    actions: seq![
                        Action::SetOrigin {
                            id,
                            origin: Point {
                                x: (left_edge(seen.screens@) + units(x as int)) as i64,
                                y: (top_edge(seen.screens@) - units(y as int)
                                    - seen.window->0.frame.h) as i64,
                            },
                        },
                    ],
                }
            } else {
                Step { state: self, actions: Seq::empty() }
            },
            WinCmd::CreatePopup {
                id,
                parent_id,
                x,
                y,
                x_flip,
                y_flip,
                constraint,
                width,
                height,
            } => self.create_popup(
                id,
                parent_id,
                (x, y),
                (x_flip, y_flip),
                constraint,
                (positive(width), positive(height)),
                seen,
                display,
            ),
            WinCmd::SetGrab { window } => Step {
                state: DesktopView { grab: window, ..self },
                actions: if window is None && self.grab is Some {
                    focus_under_cursor(self.windows, seen)
                } else {
                    Seq::empty()
                },
            },
            WinCmd::SetCursor { shape } => Step {
                state: self,
                actions: seq![Action::UseCursor { cursor: spec_map_cursor(shape) }],
            },
            WinCmd::SetCursorImage { width, height, hotspot_x, hotspot_y, scale, .. } => Step {
                state: self,
                actions: if seen.image_built {
                    seq![
                        Action::UseCursorImage {
                            width,
                            height,
                            hotspot_x,
                            hotspot_y,
                            scale: positive(scale),
                        },
                    ]
                } else {
                    Seq::empty()
                },
            },
            WinCmd::HideCursor => Step {
                state: self,
                actions: seq![Action::UseCursor { cursor: NativeCursor::Hidden }],
            },
            WinCmd::SubFrame {
                window_id,
                sub_id,
                x,
                y,
                width,
                height,
                dst_w,
                dst_h,
                color,
                ..
            } => self.present_subframe(
                window_id,
                sub_id,
                (x, y),
                (width, height),
                (dst_w, dst_h),
                color,
                seen,
                display,
            ),
            WinCmd::SubDestroy { window_id, sub_id } => Step {
                state: DesktopView {
                    sublayers: self.sublayers.remove(layer_key(window_id, sub_id)),
                    ..self
                },
                actions: if self.sublayers.contains_key(layer_key(window_id, sub_id)) {
                    seq![Action::RemoveSublayer { window_id, sub_id }]
                } else {
                    Seq::empty()
                },
            },
            WinCmd::Maximize { id, on } => self.set_window_fill(id, on, false, seen, display),
            WinCmd::Fullscreen { id, on } => self.set_window_fill(id, on, true, seen, display),
            WinCmd::Minimize { id } => self.on_window(id, Action::Minimize { id }),
            WinCmd::SetMinSize { id, width, height } => self.on_window(
                id,
                Action::SetContentMinSize {
                    id,
                    width: spec_points(width, display.spec_scale()) as i32,
                    height: spec_points(height, display.spec_scale()) as i32,
                },
            ),
            WinCmd::SetMaxSize { id, width, height } => self.on_window(
                id,
                Action::SetContentMaxSize {
                    id,
                    width: size_limit(width, display.spec_scale()),
                    height: size_limit(height, display.spec_scale()),
                },
            ),
            WinCmd::Activate { id } => self.on_window(id, Action::Activate { id }),
            WinCmd::SetModal { id, modal } => self.on_window(id, Action::SetModal { id, modal }),
            WinCmd::SetIcon { width, height, .. } => Step {
                state: self,
                actions: if seen.image_built {
                    seq![Action::SetIcon { width, height }]
                } else {
                    Seq::empty()
                },
            },
            WinCmd::Destroy { id } => self.destroy(id, seen),
            WinCmd::CreateLayer {
                id,
                width,
                height,
                anchor,
                margin_top,
                margin_right,
                margin_bottom,
                margin_left,
                keyboard,
            } => self.create_layer(
                id,
                (width, height),
                anchor,
                (margin_top, margin_right, margin_bottom, margin_left),
                keyboard,
                seen,
                display,
            ),
        }
    }

    /// Every layer belongs to a window that exists, and so does every popup and bar;
    /// an ongoing resize is within reach.
    pub open spec fn wf(self) -> bool {
        &&& self.resize is Some ==> self.resize->0.anchor_mouse.near()
            && self.resize->0.anchor_frame.near()
        &&& self.press_origin is Some ==> self.press_origin->0.near()
        &&& forall|k: u64| #[trigger] self.popups.contains_key(k) ==> self.windows.contains_key(k)
        &&& forall|k: u64| #[trigger] self.layers.contains_key(k) ==> self.windows.contains_key(k)
        &&& forall|k: u64| #[trigger] self.saved.contains_key(k) ==> self.windows.contains_key(k)
        &&& forall|k: u64| #[trigger]
            self.fullscreen.contains_key(k) ==> self.windows.contains_key(k) && self.saved.contains_key(
            k)
        &&& forall|k: u64| #[trigger]
            self.sublayers.contains_key(k) ==> self.windows.contains_key(k / 0x1_0000_0000)
        &&& forall|k: u64| #[trigger] self.windows.contains_key(k) ==> k <= u32::MAX
            && self.windows[k].margin_w >= 0 && self.windows[k].margin_h >= 0
    }
}

/// The record of a window that native resizes do not concern.
pub open spec fn plain_entry(w: int, h: int) -> WinEntry {
    WinEntry {
        cur_w: w as i32,
        cur_h: h as i32,
        decorated: false,
        margin_w: 0,
        margin_h: 0,
        forwards_resize: false,
        last_w: 0,
        last_h: 0,
    }
}

/// A number as one that is 1 or more.
pub open spec fn positive(v: i32) -> i32 {
    if v < 1 {
        1
    } else {
        v
    }
}

/// An upper size limit in points; 0 or less is no limit.
pub open spec fn size_limit(v: i32, scale: i32) -> i32 {
    if v > 0 {
        (v as int / scale as int) as i32
    } else {
        1_000_000
    }
}

/// The windowing side's bookkeeping.
pub struct Desktop {
    windows: IdMap<WinEntry>,
    sublayers: IdMap<()>,
    drag: Option<u32>,
    resize: Option<ResizeState>,
    grab: Option<u32>,
    implicit_grab: Option<u32>,
    press_origin: Option<Point>,
    saved: IdMap<Area>,
    fullscreen: IdMap<()>,
    layers: IdMap<()>,
    popups: IdMap<()>,
}

impl View for Desktop {
    type V = DesktopView;

    closed spec fn view(&self) -> DesktopView {
        DesktopView {
            windows: self.windows@,
            sublayers: self.sublayers@,
            drag: self.drag,
            resize: self.resize,
            grab: self.grab,
            implicit_grab: self.implicit_grab,
            press_origin: self.press_origin,
            saved: self.saved@,
            fullscreen: self.fullscreen@,
            layers: self.layers@,
            popups: self.popups@,
        }
    }
}

fn layer_id(window_id: u32, sub_id: u32) -> (k: u64)
    ensures
        k == layer_key(window_id, sub_id),
{
    window_id as u64 * 0x1_0000_0000 + sub_id as u64
}

fn is_hdr(color: Option<ColorDesc>) -> (b: bool)
    ensures
        b == (color is Some && color->0.spec_is_hdr()),
{
    match color {
        Some(c) => c.is_hdr(),
        None => false,
    }
}

/// The frame of a window, where it is listed.
fn find_frame(frames: &Vec<(u32, Area)>, id: u32) -> (r: Option<Area>)
    ensures
        r == frame_of(frames@, id),
{
    let mut i: usize = 0;
    while i < frames.len()
        invariant
            i <= frames@.len(),
            frame_of(frames@.take(i as int), id) is None,
        decreases frames@.len() - i,
    {
        proof {
            assert(frames@.take(i + 1).drop_last() =~= frames@.take(i as int));
        }
        if frames[i].0 == id {
            proof {
                lemma_frame_prefix(frames@, i + 1, id);
            }
            return Some(frames[i].1);
        }
        i = i + 1;
    }
    assert(frames@.take(i as int) =~= frames@);
    None
}

proof fn lemma_frame_prefix(frames: Seq<(u32, Area)>, n: int, id: u32)
    requires
        0 <= n <= frames.len(),
        frame_of(frames.take(n), id) is Some,
    ensures
        frame_of(frames, id) == frame_of(frames.take(n), id),
    decreases frames.len() - n,
{
    if n < frames.len() {
        assert(frames.take(n + 1).drop_last() =~= frames.take(n));
        lemma_frame_prefix(frames, n + 1, id);
    } else {
        assert(frames.take(n) =~= frames);
    }
}

proof fn lemma_under_prefix(
    frames: Seq<(u32, Area)>,
    windows: Map<u64, WinEntry>,
    n: int,
    p: Point,
)
    requires
        0 <= n <= frames.len(),
        first_under(frames.take(n), windows, p) is Some,
    ensures
        first_under(frames, windows, p) == first_under(frames.take(n), windows, p),
    decreases frames.len() - n,
{
    if n < frames.len() {
        assert(frames.take(n + 1).drop_last() =~= frames.take(n));
        lemma_under_prefix(frames, windows, n + 1, p);
    } else {
        assert(frames.take(n) =~= frames);
    }
}

/// After a popup's grab ends, the window under the mouse, usually the parent, gets
/// the pointer and the keyboard.
fn restore_focus_under_cursor(windows: &IdMap<WinEntry>, seen: &Seen, out: &mut Vec<Action>)
    requires
        windows.wf(),
        seen.near(),
    ensures
        final(out)@ == old(out)@ + focus_under_cursor(windows@, *seen),
{
    let mut i: usize = 0;
    while i < seen.frames.len()
        invariant
            i <= seen.frames@.len(),
            windows.wf(),
            seen.near(),
            out@ == old(out)@,
            first_under(seen.frames@.take(i as int), windows@, seen.mouse) is None,
        decreases seen.frames@.len() - i,
    {
        let (id, f) = seen.frames[i];
        assert(seen.frames@[i as int].1.near());
        proof {
            assert(seen.frames@.take(i + 1).drop_last() =~= seen.frames@.take(i as int));
        }
        let (x, y, inside) = in_window(f, seen.mouse);
        if windows.contains(id as u64) && inside {
            proof {
                lemma_under_prefix(seen.frames@, windows@, i + 1, seen.mouse);
            }
            push_enter_and_focus(out, id, x, y);
            return;
        }
        i = i + 1;
    }
    proof {
        assert(seen.frames@.take(i as int) =~= seen.frames@);
        assert(out@ =~= old(out)@ + focus_under_cursor(windows@, *seen));
    }
}

fn push_enter_and_focus(out: &mut Vec<Action>, id: u32, x: i64, y: i64)
    ensures
        final(out)@ == old(out)@ + enter_and_focus(id, x as int, y as int),
{
    out.push(Action::Push { event: InputEvent::PointerEnter { window_id: id, x, y } });
    out.push(Action::Push { event: InputEvent::Focus { window_id: id, focused: true } });
    assert(out@ =~= old(out)@ + enter_and_focus(id, x as int, y as int));
}

impl Desktop {
    /// The tables are sound and fit together.
    pub closed spec fn wf(&self) -> bool {
        &&& self.windows.wf()
        &&& self.sublayers.wf()
        &&& self.saved.wf()
        &&& self.fullscreen.wf()
        &&& self.layers.wf()
        &&& self.popups.wf()
        &&& self@.wf()
    }

    /// What `wf` says of the view.
    pub proof fn lemma_wf(&self)
        requires
            self.wf(),
        ensures
            self@.wf(),
    {
    }

    spec fn tables_wf(&self) -> bool {
        &&& self.windows.wf()
        &&& self.sublayers.wf()
        &&& self.saved.wf()
        &&& self.fullscreen.wf()
        &&& self.layers.wf()
        &&& self.popups.wf()
    }

    /// No window yet.
    pub fn new() -> (d: Self)
        ensures
            d.wf(),
            d@.windows == Map::<u64, WinEntry>::empty(),
            d@.sublayers == Map::<u64, ()>::empty(),
            d@.saved == Map::<u64, Area>::empty(),
            d@.fullscreen == Map::<u64, ()>::empty(),
            d@.layers == Map::<u64, ()>::empty(),
            d@.popups == Map::<u64, ()>::empty(),
            d@.drag is None,
            d@.resize is None,
            d@.grab is None,
            d@.implicit_grab is None,
            d@.press_origin is None,
    {
        Desktop {
            windows: IdMap::new(),
            sublayers: IdMap::new(),
            drag: None,
            resize: None,
            grab: None,
            implicit_grab: None,
            press_origin: None,
            saved: IdMap::new(),
            fullscreen: IdMap::new(),
            layers: IdMap::new(),
            popups: IdMap::new(),
        }
    }

    /// True while any menu is open: keyboard focus stays pinned to it.
    pub fn popup_open(&self) -> (b: bool)
        requires
            self.wf(),
        ensures
            b == self@.menu_open(),
    {
        self.has_popup()
    }

    fn has_popup(&self) -> (b: bool)
        requires
            self.popups.wf(),
        ensures
            b == (self@.popups.dom() != Set::<u64>::empty()),
    {
        let n: usize = self.popups.len();
        proof {
            self.popups.lemma_ids();
            if n == 0 {
                assert(self@.popups.dom() =~= Set::<u64>::empty());
            } else {
                assert(self@.popups.dom().contains(self.popups.ids()[0]));
            }
        }
        n > 0
    }

    fn put(&mut self, id: u32, entry: WinEntry)
        requires
            old(self).tables_wf(),
        ensures
            final(self).tables_wf(),
            final(self)@ == old(self)@.opened(id, entry),
    {
        self.windows.insert(id as u64, entry);
        let lo: u64 = layer_id(id, 0);
        let hi: u64 = layer_id(id, 0xffff_ffff);
        self.sublayers.remove_range(lo, hi);
        assert(Set::new(|k: u64| lo <= k <= hi) =~= layers_of(id));
        assert(self@.sublayers =~= old(self)@.opened(id, entry).sublayers);
    }

    fn create_window(
        &mut self,
        id: u32,
        size: (i32, i32),
        dst: (i32, i32),
        decorated: bool,
        title: String,
        geom: (i32, i32, i32, i32),
        seen: &Seen,
        display: &Display,
        rail: bool,
    ) -> (out: Vec<Action>)
        requires
            old(self).tables_wf(),
            seen.near(),
        ensures
            final(self).tables_wf(),
            (Step { state: final(self)@, actions: out@ }) == old(self)@.create_window(
                id,
                size,
                dst,
                decorated,
                title,
                geom,
                *seen,
                *display,
                rail,
            ),
    {
        let s: i32 = scale(display);
        let (lw, lh) = logical_size(size.0, size.1, dst.0, dst.1, s);
        let (mw, mh) = csd_margin(size.0, size.1, dst.0, dst.1, geom, s);
        let style: Style = if decorated {
            Style::Titled
        } else if rail {
            Style::Borderless
        } else {
            Style::BorderlessResizable
        };
        let at: Option<HalfPoint> = match seen.visible {
            Some(v) => Some(
                place_in_work_area(
                    apply_reserved_insets(v, reserved_insets(display)),
                    lw as i64 * UNIT,
                    lh as i64 * UNIT,
                ),
            ),
            None => None,
        };
        self.put(
            id,
            WinEntry {
                cur_w: lw,
                cur_h: lh,
                decorated,
                margin_w: mw,
                margin_h: mh,
                forwards_resize: true,
                last_w: lw,
                last_h: lh,
            },
        );
        let mut out: Vec<Action> = Vec::new();
        out.push(Action::OpenWindow { id, width: lw, height: lh, style, title, at });
        let ghost want = old(self)@.create_window(
            id,
            size,
            dst,
            decorated,
            title,
            geom,
            *seen,
            *display,
            rail,
        );
        assert(out@ =~= want.actions);
        out
    }

    fn create_layer_window(
        &mut self,
        id: u32,
        size: (i32, i32),
        anchor: u32,
        margins: (i32, i32, i32, i32),
        keyboard: bool,
        seen: &Seen,
        display: &Display,
    ) -> (out: Vec<Action>)
        requires
            old(self).tables_wf(),
            seen.near(),
        ensures
            final(self).tables_wf(),
            (Step { state: final(self)@, actions: out@ }) == old(self)@.create_layer(
                id,
                size,
                anchor,
                margins,
                keyboard,
                *seen,
                *display,
            ),
    {
        let s: i32 = scale(display);
        let w: i32 = points(size.0, s);
        let h: i32 = points(size.1, s);
        let lw: i64 = w as i64 * UNIT;
        let lh: i64 = h as i64 * UNIT;
        let screen: Area = match seen.visible {
            Some(v) => v,
            None => Area { x: 0, y: 0, w: lw, h: lh },
        };
        let at: HalfPoint = layer_origin(screen, lw, lh, anchor, margins);
        self.layers.insert(id as u64, ());
        self.put(
            id,
            WinEntry {
                cur_w: w,
                cur_h: h,
                decorated: false,
                margin_w: 0,
                margin_h: 0,
                forwards_resize: false,
                last_w: 0,
                last_h: 0,
            },
        );
        let mut out: Vec<Action> = Vec::new();
        out.push(Action::OpenLayer { id, at, width: w, height: h, keyboard });
        let ghost want = old(self)@.create_layer(
            id,
            size,
            anchor,
            margins,
            keyboard,
            *seen,
            *display,
        );
        assert(out@ =~= want.actions);
        out
    }

    fn create_popup(
        &mut self,
        id: u32,
        parent_id: u32,
        offset: (i32, i32),
        flip: (i32, i32),
        constraint: u32,
        size: (i32, i32),
        seen: &Seen,
        display: &Display,
    ) -> (out: Vec<Action>)
        requires
            old(self).tables_wf(),
            seen.near(),
        ensures
            final(self).tables_wf(),
            (Step { state: final(self)@, actions: out@ }) == old(self)@.create_popup(
                id,
                parent_id,
                offset,
                flip,
                constraint,
                size,
                *seen,
                *display,
            ),
    {
        let s: i32 = scale(display);
        let lw: i64 = points(size.0, s) as i64 * UNIT;
        let lh: i64 = points(size.1, s) as i64 * UNIT;
        let known: bool = self.windows.contains(parent_id as u64) && seen.window.is_some();
        let content: Option<Area> = match seen.window {
            Some(w) => if known {
                Some(w.content)
            } else {
                None
            },
            None => None,
        };
        let screen: Option<Area> = match seen.window {
            Some(w) => if known && w.visible.is_some() {
                w.visible
            } else {
                seen.visible
            },
            None => seen.visible,
        };
        let p: Point = popup_place(content, screen, offset, flip, constraint, lw, lh);
        let frame = Area { x: p.x, y: p.y, w: lw, h: lh };
        let mut out: Vec<Action> = Vec::new();
        out.push(
            Action::OpenPopup {
                id,
                parent: if known {
                    Some(parent_id)
                } else {
                    None
                },
                frame,
            },
        );
        self.popups.insert(id as u64, ());
        self.put(
            id,
            WinEntry {
                cur_w: size.0,
                cur_h: size.1,
                decorated: false,
                margin_w: 0,
                margin_h: 0,
                forwards_resize: false,
                last_w: 0,
                last_h: 0,
            },
        );
        let ghost want = old(self)@.create_popup(
            id,
            parent_id,
            offset,
            flip,
            constraint,
            size,
            *seen,
            *display,
        );
        let grabs: bool = match self.grab {
            Some(g) => g == id,
            None => false,
        };
        let mx: i64 = seen.mouse.x - p.x;
        let my: i64 = seen.mouse.y - p.y;
        let inside: bool = mx >= 0 && my >= 0 && mx <= lw && my <= lh;
        if inside || grabs {
            push_enter_and_focus(&mut out, id, mx, lh - my);
        }
        assert(out@ =~= want.actions);
        out
    }

    fn present_frame(
        &mut self,
        id: u32,
        size: (i32, i32),
        dst: (i32, i32),
        color: Option<ColorDesc>,
        geom: (i32, i32, i32, i32),
        seen: &Seen,
        display: &Display,
    ) -> (out: Vec<Action>)
        requires
            old(self).tables_wf(),
            old(self)@.wf(),
            seen.near(),
        ensures
            final(self).tables_wf(),
            (Step { state: final(self)@, actions: out@ }) == old(self)@.present_frame(
                id,
                size,
                dst,
                color,
                geom,
                *seen,
                *display,
            ),
    {
        let mut out: Vec<Action> = Vec::new();
        let ghost want = old(self)@.present_frame(id, size, dst, color, geom, *seen, *display);
        let live: bool = match seen.window {
            Some(w) => w.live_resize,
            None => {
                assert(out@ =~= want.actions);
                return out;
            },
        };
        let mut e: WinEntry = match self.windows.get(id as u64) {
            Some(e) => *e,
            None => {
                assert(out@ =~= want.actions);
                return out;
            },
        };
        if !seen.image_built {
            assert(out@ =~= want.actions);
            return out;
        }
        let s: i32 = scale(display);
        let (mw, mh) = csd_margin(size.0, size.1, dst.0, dst.1, geom, s);
        e.margin_w = mw;
        e.margin_h = mh;
        let (lw, lh) = logical_size(size.0, size.1, dst.0, dst.1, s);
        if !e.decorated && !live && (e.cur_w != lw || e.cur_h != lh) {
            match self.resize {
                Some(r) => if r.window_id == id {
                    out.push(
                        Action::SetFrame {
                            id,
                            frame: pin_frame(
                                r.anchor_frame,
                                r.edges,
                                lw as i64 * UNIT,
                                lh as i64 * UNIT,
                            ),
                        },
                    );
                } else {
                    out.push(Action::SetContentSize { id, width: lw, height: lh });
                },
                None => out.push(Action::SetContentSize { id, width: lw, height: lh }),
            }
            e.cur_w = lw;
            e.cur_h = lh;
        }
        self.windows.insert(id as u64, e);
        out.push(Action::ShowImage { id, hdr: is_hdr(color) });
        assert(out@ =~= want.actions);
        out
    }

    fn present_subframe(
        &mut self,
        window_id: u32,
        sub_id: u32,
        at: (i32, i32),
        size: (i32, i32),
        dst: (i32, i32),
        color: Option<ColorDesc>,
        seen: &Seen,
        display: &Display,
    ) -> (out: Vec<Action>)
        requires
            old(self).tables_wf(),
            seen.near(),
        ensures
            final(self).tables_wf(),
            (Step { state: final(self)@, actions: out@ }) == old(self)@.present_subframe(
                window_id,
                sub_id,
                at,
                size,
                dst,
                color,
                *seen,
                *display,
            ),
    {
        let mut out: Vec<Action> = Vec::new();
        let ghost want = old(self)@.present_subframe(
            window_id,
            sub_id,
            at,
            size,
            dst,
            color,
            *seen,
            *display,
        );
        let win_h: i64 = match seen.window {
            Some(w) => w.view_h,
            None => {
                assert(out@ =~= want.actions);
                return out;
            },
        };
        if !seen.image_built || !self.windows.contains(window_id as u64) {
            assert(out@ =~= want.actions);
            return out;
        }
        let (lw, lh) = logical_size(size.0, size.1, dst.0, dst.1, scale(display));
        let (x, y) = subsurface_origin(win_h, at.0, at.1, lh as i64 * UNIT);
        let k: u64 = layer_id(window_id, sub_id);
        let fresh: bool = !self.sublayers.contains(k);
        self.sublayers.insert(k, ());
        out.push(
            Action::ShowSublayer {
                window_id,
                sub_id,
                fresh,
                x,
                y,
                width: lw,
                height: lh,
                hdr: is_hdr(color),
            },
        );
        assert(out@ =~= want.actions);
        out
    }

    fn set_window_fill(
        &mut self,
        id: u32,
        on: bool,
        whole_screen: bool,
        seen: &Seen,
        display: &Display,
    ) -> (out: Vec<Action>)
        requires
            old(self).tables_wf(),
            seen.near(),
        ensures
            final(self).tables_wf(),
            (Step { state: final(self)@, actions: out@ }) == old(self)@.set_window_fill(
                id,
                on,
                whole_screen,
                *seen,
                *display,
            ),
    {
        let mut out: Vec<Action> = Vec::new();
        let ghost want = old(self)@.set_window_fill(id, on, whole_screen, *seen, *display);
        let k: u64 = id as u64;
        let w: WindowSeen = match seen.window {
            Some(w) => w,
            None => {
                assert(out@ =~= want.actions);
                return out;
            },
        };
        if !self.windows.contains(k) {
            assert(out@ =~= want.actions);
            return out;
        }
        if on {
            if !self.saved.contains(k) {
                self.saved.insert(k, w.frame);
            }
            let target: Option<Area> = if whole_screen {
                self.fullscreen.insert(k, ());
                w.screen
            } else {
                let _ = self.fullscreen.remove(k);
                match w.visible {
                    Some(v) => Some(apply_reserved_insets(v, reserved_insets(display))),
                    None => None,
                }
            };
            if let Some(frame) = target {
                out.push(Action::SetFrame { id, frame });
            }
        } else {
            let _ = self.fullscreen.remove(k);
            if let Some(frame) = self.saved.remove(k) {
                out.push(Action::SetFrame { id, frame });
            }
        }
        assert(out@ =~= want.actions);
        out
    }

    fn destroy(&mut self, id: u32, seen: &Seen) -> (out: Vec<Action>)
        requires
            old(self).tables_wf(),
            seen.near(),
        ensures
            final(self).tables_wf(),
            (Step { state: final(self)@, actions: out@ }) == old(self)@.destroy(id, *seen),
    {
        let mut out: Vec<Action> = Vec::new();
        let ghost want = old(self)@.destroy(id, *seen);
        let k: u64 = id as u64;
        let grab_ended: bool = match self.grab {
            Some(g) => g == id,
            None => false,
        };
        if grab_ended {
            self.grab = None;
        }
        if self.windows.remove(k).is_some() {
            let lo: u64 = layer_id(id, 0);
            let hi: u64 = layer_id(id, 0xffff_ffff);
            self.sublayers.remove_range(lo, hi);
            assert(Set::new(|k: u64| lo <= k <= hi) =~= layers_of(id));
            out.push(Action::Close { id });
        }
        let _ = self.layers.remove(k);
        let _ = self.fullscreen.remove(k);
        let _ = self.saved.remove(k);
        let was_popup: bool = self.popups.remove(k).is_some();
        if grab_ended || (was_popup && !self.has_popup()) {
            restore_focus_under_cursor(&self.windows, seen, &mut out);
        }
        assert(out@ =~= want.actions);
        out
    }
}

/// What the bookkeeping keeps to, whatever is commanded.
#[verifier::spinoff_prover]
pub proof fn lemma_handle_keeps_wf(
    d: DesktopView,
    cmd: WinCmd,
    seen: Seen,
    display: Display,
    rail: bool,
)
    requires
        d.wf(),
        seen.near(),
        display.spec_scale() >= 1,
    ensures
        d.handle(cmd, seen, display, rail).state.wf(),
{
    let t = d.handle(cmd, seen, display, rail).state;
    match cmd {
        WinCmd::Create { id, width, height, geom, .. } => {
            lemma_margins_fit(width, height, geom, display.spec_scale());
            lemma_opened_keeps_wf(d, id, t.windows[id as u64]);
        },
        WinCmd::CreateLayer { id, .. } => {
            lemma_opened_keeps_wf(d, id, t.windows[id as u64]);
        },
        WinCmd::CreatePopup { id, .. } => {
            lemma_opened_keeps_wf(d, id, t.windows[id as u64]);
        },
        WinCmd::Frame { id, width, height, dst_w, dst_h, color, geom, .. } => {
            lemma_margins_fit(width, height, geom, display.spec_scale());
            lemma_frame_keeps_wf(
                d,
                id,
                (width, height),
                (dst_w, dst_h),
                color,
                geom,
                seen,
                display,
            );
        },
        WinCmd::SubFrame { window_id, sub_id, .. } => {
            lemma_sublayer_keeps_wf(d, t, window_id, sub_id);
        },
        WinCmd::Maximize { id, on } => {
            lemma_fill_keeps_wf(d, id, on, false, seen, display);
        },
        WinCmd::Fullscreen { id, on } => {
            lemma_fill_keeps_wf(d, id, on, true, seen, display);
        },
        WinCmd::Destroy { id } => {
            lemma_destroy_keeps_wf(d, id, seen);
        },
        _ => {},
    }
}

proof fn lemma_opened_keeps_wf(d: DesktopView, id: u32, entry: WinEntry)
    requires
        d.wf(),
        entry.margin_w >= 0,
        entry.margin_h >= 0,
    ensures
        d.opened(id, entry).wf(),
{
}

proof fn lemma_frame_keeps_wf(
    d: DesktopView,
    id: u32,
    size: (i32, i32),
    dst: (i32, i32),
    color: Option<ColorDesc>,
    geom: (i32, i32, i32, i32),
    seen: Seen,
    display: Display,
)
    requires
        d.wf(),
        geom.2 > 0 ==> 0 <= excess(size.0, geom.2, display.spec_scale()) <= i32::MAX,
        geom.3 > 0 ==> 0 <= excess(size.1, geom.3, display.spec_scale()) <= i32::MAX,
    ensures
        d.present_frame(id, size, dst, color, geom, seen, display).state.wf(),
{
}

proof fn lemma_sublayer_keeps_wf(d: DesktopView, t: DesktopView, window_id: u32, sub_id: u32)
    requires
        d.wf(),
        t == d || (t == (DesktopView {
            sublayers: d.sublayers.insert(layer_key(window_id, sub_id), ()),
            ..d
        }) && d.windows.contains_key(window_id as u64)),
    ensures
        t.wf(),
{
    assert(layer_key(window_id, sub_id) / 0x1_0000_0000 == window_id as u64);
}

proof fn lemma_fill_keeps_wf(
    d: DesktopView,
    id: u32,
    on: bool,
    whole_screen: bool,
    seen: Seen,
    display: Display,
)
    requires
        d.wf(),
    ensures
        d.set_window_fill(id, on, whole_screen, seen, display).state.wf(),
{
}

proof fn lemma_destroy_keeps_wf(d: DesktopView, id: u32, seen: Seen)
    requires
        d.wf(),
    ensures
        d.destroy(id, seen).state.wf(),
{
    let t = d.destroy(id, seen).state;
    assert forall|k: u64| #[trigger] t.sublayers.contains_key(k) implies t.windows.contains_key(
        k / 0x1_0000_0000,
    ) by {
        assert(d.sublayers.contains_key(k));
        if d.windows.contains_key(id as u64) && k / 0x1_0000_0000 == id as u64 {
            assert(layers_of(id).contains(k));
        }
    }
}

proof fn lemma_margins_fit(width: i32, height: i32, geom: (i32, i32, i32, i32), scale: i32)
    requires
        scale >= 1,
    ensures
        geom.2 > 0 ==> 0 <= excess(width, geom.2, scale) <= i32::MAX,
        geom.3 > 0 ==> 0 <= excess(height, geom.3, scale) <= i32::MAX,
{
    if width >= scale {
        assert(width as int / scale as int <= width) by (nonlinear_arith)
            requires
                1 <= scale <= width,
        ;
    }
    if height >= scale {
        assert(height as int / scale as int <= height) by (nonlinear_arith)
            requires
                1 <= scale <= height,
        ;
    }
}

impl Desktop {
    /// Carries a command out: what it changes here, and what the windowing system is
    /// to do. `rail` holds in a remote session, whose server owns the windows' sizes.
    pub fn handle(&mut self, cmd: WinCmd, seen: &Seen, display: &Display, rail: bool) -> (out: Vec<
        Action,
    >)
        requires
            old(self).wf(),
            seen.near(),
        ensures
            final(self).wf(),
            (Step { state: final(self)@, actions: out@ }) == old(self)@.handle(
                cmd,
                *seen,
                *display,
                rail,
            ),
    {
        let s: i32 = scale(display);
        proof {
            lemma_handle_keeps_wf(self@, cmd, *seen, *display, rail);
        }
        let ghost want = old(self)@.handle(cmd, *seen, *display, rail);
        let mut out: Vec<Action> = Vec::new();
        match cmd {
            WinCmd::Create { id, width, height, dst_w, dst_h, decorated, title, geom } => {
                out =
                self.create_window(
                    id,
                    (width, height),
                    (dst_w, dst_h),
                    decorated,
                    title,
                    geom,
                    seen,
                    display,
                    rail,
                );
            },
            WinCmd::Frame { id, width, height, dst_w, dst_h, color, geom, .. } => {
                out =
                self.present_frame(
                    id,
                    (width, height),
                    (dst_w, dst_h),
                    color,
                    geom,
                    seen,
                    display,
                );
            },
            WinCmd::Title { id, title } => {
                if self.windows.contains(id as u64) {
                    out.push(Action::SetTitle { id, title });
                }
            },
            WinCmd::StartMove { id } => {
                self.drag = Some(id);
            },
            WinCmd::StartResize { id, edges } => {
                if let Some(w) = seen.window {
                    if self.windows.contains(id as u64) {
                        self.resize =
                        Some(
                            ResizeState {
                                window_id: id,
                                edges,
                                anchor_mouse: seen.mouse,
                                anchor_frame: w.frame,
                            },
                        );
                    }
                }
            },
            WinCmd::Move { id, x, y } => {
                if let Some(w) = seen.window {
                    if self.windows.contains(id as u64) {
                        if let Some(origin) = desktop_origin(&seen.screens, x, y, w.frame.h) {
                            out.push(Action::SetOrigin { id, origin });
                        }
                    }
                }
            },
            WinCmd::CreatePopup {
                id,
                parent_id,
                x,
                y,
                x_flip,
                y_flip,
                constraint,
                width,
                height,
            } => {
                out =
                self.create_popup(
                    id,
                    parent_id,
                    (x, y),
                    (x_flip, y_flip),
                    constraint,
                    (if width < 1 { 1 } else { width }, if height < 1 { 1 } else { height }),
                    seen,
                    display,
                );
            },
            WinCmd::SetGrab { window } => {
                let ended: bool = window.is_none() && self.grab.is_some();
                self.grab = window;
                if ended {
                    restore_focus_under_cursor(&self.windows, seen, &mut out);
                }
            },
            WinCmd::SetCursor { shape } => {
                out.push(Action::UseCursor { cursor: map_cursor(shape) });
            },
            WinCmd::SetCursorImage { width, height, hotspot_x, hotspot_y, scale, .. } => {
                if seen.image_built {
                    out.push(
                        Action::UseCursorImage {
                            width,
                            height,
                            hotspot_x,
                            hotspot_y,
                            scale: if scale < 1 { 1 } else { scale },
                        },
                    );
                }
            },
            WinCmd::HideCursor => {
                out.push(Action::UseCursor { cursor: NativeCursor::Hidden });
            },
            WinCmd::SubFrame {
                window_id,
                sub_id,
                x,
                y,
                width,
                height,
                dst_w,
                dst_h,
                color,
                ..
            } => {
                out =
                self.present_subframe(
                    window_id,
                    sub_id,
                    (x, y),
                    (width, height),
                    (dst_w, dst_h),
                    color,
                    seen,
                    display,
                );
            },
            WinCmd::SubDestroy { window_id, sub_id } => {
                if self.sublayers.remove(layer_id(window_id, sub_id)).is_some() {
                    out.push(Action::RemoveSublayer { window_id, sub_id });
                }
            },
            WinCmd::Maximize { id, on } => {
                out = self.set_window_fill(id, on, false, seen, display);
            },
            WinCmd::Fullscreen { id, on } => {
                out = self.set_window_fill(id, on, true, seen, display);
            },
            WinCmd::Minimize { id } => {
                if self.windows.contains(id as u64) {
                    out.push(Action::Minimize { id });
                }
            },
            WinCmd::SetMinSize { id, width, height } => {
                if self.windows.contains(id as u64) {
                    out.push(
                        Action::SetContentMinSize {
                            id,
                            width: points(width, s),
                            height: points(height, s),
                        },
                    );
                }
            },
            WinCmd::SetMaxSize { id, width, height } => {
                if self.windows.contains(id as u64) {
                    out.push(
                        Action::SetContentMaxSize {
                            id,
                            width: max_points(width, s),
                            height: max_points(height, s),
                        },
                    );
                }
            },
            WinCmd::Activate { id } => {
                if self.windows.contains(id as u64) {
                    out.push(Action::Activate { id });
                }
            },
            WinCmd::SetModal { id, modal } => {
                if self.windows.contains(id as u64) {
                    out.push(Action::SetModal { id, modal });
                }
            },
            WinCmd::SetIcon { width, height, .. } => {
                if seen.image_built {
                    out.push(Action::SetIcon { width, height });
                }
            },
            WinCmd::Destroy { id } => {
                out = self.destroy(id, seen);
            },
            WinCmd::CreateLayer {
                id,
                width,
                height,
                anchor,
                margin_top,
                margin_right,
                margin_bottom,
                margin_left,
                keyboard,
            } => {
                out =
                self.create_layer_window(
                    id,
                    (width, height),
                    anchor,
                    (margin_top, margin_right, margin_bottom, margin_left),
                    keyboard,
                    seen,
                    display,
                );
            },
        }
        assert(out@ =~= want.actions);
        assert(self@ == want.state);
        out
    }
}

fn max_points(v: i32, scale: i32) -> (r: i32)
    requires
        scale >= 1,
    ensures
        r == size_limit(v, scale),
{
    if v > 0 {
        assert(0 <= v as int / scale as int <= v) by (nonlinear_arith)
            requires
                v > 0,
                scale >= 1,
        ;
        (v as u32 / scale as u32) as i32
    } else {
        1_000_000
    }
}

/// An event for the Wayland side.
pub open spec fn push(event: InputEvent) -> Action {
    Action::Push { event }
}

/// Where the mouse is in a window with this frame: its own top-left coordinates.
pub open spec fn motion_in(id: u32, frame: Area, mouse: Point) -> InputEvent {
    InputEvent::PointerMotion {
        window_id: id,
        x: (mouse.x - frame.x) as i64,
        y: (frame.h - (mouse.y - frame.y)) as i64,
    }
}

impl DesktopView {
    /// A grab whose popup is gone is dropped, so that it does not swallow all input.
    pub open spec fn healed(self) -> DesktopView {
        if self.grab is Some && !self.windows.contains_key(self.grab->0 as u64) {
            DesktopView { grab: None, ..self }
        } else {
            self
        }
    }

    /// An event of a window that an active grab suppresses.
    pub open spec fn unless_grabbed(self, event: InputEvent) -> Step {
        Step {
            state: self.healed(),
            actions: if self.healed().grab is Some {
                Seq::empty()
            } else {
                seq![push(event)]
            },
        }
    }

    /// The pointer comes into a window.
    pub open spec fn entered(self, id: u32, x: i64, y: i64) -> Step {
        self.unless_grabbed(InputEvent::PointerEnter { window_id: id, x, y })
    }

    /// The pointer goes out of a window.
    pub open spec fn exited(self, id: u32) -> Step {
        self.unless_grabbed(InputEvent::PointerLeave { window_id: id })
    }

    /// The left button goes up: a move or a resize ends with it.
    pub open spec fn mouse_up(self, button: u32, seen: Seen) -> Step {
        (DesktopView { drag: None, resize: None, ..self }).release(button, seen)
    }

    /// A menu is open.
    pub open spec fn menu_open(self) -> bool {
        self.popups.dom() != Set::<u64>::empty()
    }

    /// A window becomes the key window.
    pub open spec fn became_key(self, id: u32) -> Seq<Action> {
        if self.menu_open() {
            Seq::empty()
        } else {
            seq![push(InputEvent::Focus { window_id: id, focused: true })]
        }
    }

    /// A window is the key window no longer.
    pub open spec fn resigned_key(self, id: u32) -> Seq<Action> {
        seq![
            push(InputEvent::AppDeactivated { window_id: id }),
            push(InputEvent::Focus { window_id: id, focused: false }),
        ]
    }

    /// A window stands where it was asked to, whatever bars there are.
    pub open spec fn is_placed_exactly(self, id: u32, rail: bool) -> bool {
        rail || self.fullscreen.contains_key(id as u64) || self.layers.contains_key(id as u64)
    }

    /// Motion goes to the grabbing popup, wherever the mouse is, or else to `id`.
    pub open spec fn motion(self, id: u32, x: i64, y: i64, seen: Seen) -> Step {
        Step {
            state: self.healed(),
            actions: match self.healed().grab {
                Some(g) => match frame_of(seen.frames@, g) {
                    Some(f) => seq![push(motion_in(g, f, seen.mouse))],
                    None => Seq::empty(),
                },
                None => seq![push(InputEvent::PointerMotion { window_id: id, x, y })],
            },
        }
    }

    /// A drag resizes, moves, or is motion, in that order of preference.
    pub open spec fn drag(self, id: u32, x: i64, y: i64, seen: Seen) -> Step {
        if self.resize is Some && self.resize->0.window_id == id {
            let r = self.resize->0;
            let size = drag_size(
                r.anchor_frame,
                r.edges,
                seen.mouse.x - r.anchor_mouse.x,
                seen.mouse.y - r.anchor_mouse.y,
            );
            Step {
                state: self,
                actions: seq![
                    push(
                        InputEvent::Resize {
                            window_id: id,
                            width: size.0 as i32,
                            height: size.1 as i32,
                        },
                    ),
                ],
            }
        } else if self.drag == Some(id) {
            Step {
                state: DesktopView { drag: None, ..self },
                actions: seq![Action::NativeDrag { id }],
            }
        } else {
            self.motion(id, x, y, seen)
        }
    }

    /// A press goes to the grabbing popup where it is inside, dismisses it where it
    /// is outside, and goes to `id` where nothing is grabbed. Who got it also gets
    /// the release.
    pub open spec fn press(self, id: u32, button: u32, seen: Seen) -> Step {
        let s = DesktopView { press_origin: Some(seen.mouse), ..self.healed() };
        match s.grab {
            Some(g) => match frame_of(seen.frames@, g) {
                Some(f) => if f.spec_contains(seen.mouse) {
                    Step {
                        state: DesktopView { implicit_grab: Some(g), ..s },
                        actions: seq![
                            push(motion_in(g, f, seen.mouse)),
                            push(InputEvent::PointerButton { window_id: g, button, pressed: true }),
                        ],
                    }
                } else {
                    Step {
                        state: DesktopView { implicit_grab: None, ..s },
                        actions: seq![push(InputEvent::PopupDismiss { window_id: g })],
                    }
                },
                None => Step { state: s, actions: Seq::empty() },
            },
            None => Step {
                state: DesktopView { implicit_grab: Some(id), ..s },
                actions: seq![
                    push(InputEvent::PointerButton { window_id: id, button, pressed: true }),
                ],
            },
        }
    }

    /// A release after a drag into the grabbing popup goes to that popup; any other
    /// goes to the window that got the press.
    pub open spec fn release(self, button: u32, seen: Seen) -> Step {
        let moved = self.press_origin is Some && spec_dragged(self.press_origin->0, seen.mouse);
        let s = DesktopView {
            press_origin: None,
            ..if moved {
                self.healed()
            } else {
                self
            }
        };
        if moved && s.grab is Some && frame_of(seen.frames@, s.grab->0) is Some && frame_of(
            seen.frames@,
            s.grab->0,
        )->0.spec_contains(seen.mouse) {
            let g = s.grab->0;
            Step {
                state: DesktopView { implicit_grab: None, ..s },
                actions: seq![
                    push(motion_in(g, frame_of(seen.frames@, g)->0, seen.mouse)),
                    push(InputEvent::PointerButton { window_id: g, button, pressed: false }),
                ],
            }
        } else {
            Step {
                state: DesktopView { implicit_grab: None, ..s },
                actions: match s.implicit_grab {
                    Some(w) => seq![
                        push(InputEvent::PointerButton { window_id: w, button, pressed: false }),
                    ],
                    None => Seq::empty(),
                },
            }
        }
    }

    /// A native resize asks the client for the window's size without its margin,
    /// unless a resize by the client is under way or the size was asked for already. A
    /// window that is not recorded has no margin.
    pub open spec fn native_resize(self, id: u32, w: i32, h: i32) -> Step {
        let e = self.windows[id as u64];
        if self.resize is Some && self.resize->0.window_id == id {
            Step { state: self, actions: Seq::empty() }
        } else if !self.windows.contains_key(id as u64) {
            Step {
                state: self,
                actions: seq![
                    push(
                        InputEvent::Resize {
                            window_id: id,
                            width: positive(w),
                            height: positive(h),
                        },
                    ),
                ],
            }
        } else if !e.forwards_resize || (e.last_w == w && e.last_h == h) {
            Step { state: self, actions: Seq::empty() }
        } else {
            Step {
                state: DesktopView {
                    windows: self.windows.insert(id as u64, WinEntry { last_w: w, last_h: h, ..e }),
                    ..self
                },
                actions: seq![
                    push(
                        InputEvent::Resize {
                            window_id: id,
                            width: if w - e.margin_w < 1 {
                                1
                            } else {
                                (w - e.margin_w) as i32
                            },
                            height: if h - e.margin_h < 1 {
                                1
                            } else {
                                (h - e.margin_h) as i32
                            },
                        },
                    ),
                ],
            }
        }
    }
}

/// `ev` is what a key on the native keyboard gives.
pub open spec fn is_key_event(kc: u16, pressed: bool, ev: InputEvent) -> bool {
    exists|code: u32| #[trigger]
        key_table().contains((kc, code)) && ev == (InputEvent::Key { keycode: code, pressed })
}

/// A key on the native keyboard; keys without an evdev code are dropped.
pub fn key(kc: u16, pressed: bool) -> (r: Option<InputEvent>)
    ensures
        r is Some ==> is_key_event(kc, pressed, r->0),
        r is None ==> forall|code: u32| !key_table().contains((kc, code)),
{
    match macos_to_evdev(kc) {
        Some(keycode) => {
            assert(key_table().contains((kc, keycode)));
            Some(InputEvent::Key { keycode, pressed })
        },
        None => None,
    }
}

/// What scrolling by these native distances is to a client.
pub open spec fn scrolled(dx: i64, dy: i64) -> InputEvent {
    InputEvent::PointerAxis { dx: (-dx) as i64, dy: (-dy) as i64 }
}

/// Scrolling: the native distances point the other way.
pub fn scroll_wheel(dx: i64, dy: i64) -> (r: InputEvent)
    requires
        dx > i64::MIN,
        dy > i64::MIN,
    ensures
        r == scrolled(dx, dy),
{
    InputEvent::PointerAxis { dx: -dx, dy: -dy }
}

/// What is left of a side without its margin, at least 1.
fn without_margin(v: i32, margin: i32) -> (r: i32)
    requires
        margin >= 0,
    ensures
        r == if v - margin < 1 {
            1
        } else {
            v - margin
        },
{
    let d: i64 = v as i64 - margin as i64;
    if d < 1 {
        1
    } else {
        d as i32
    }
}

impl Desktop {
    /// The popup that grabs the pointer. A grab whose popup is gone is dropped.
    pub fn grabbed(&mut self) -> (r: Option<u32>)
        requires
            old(self).wf(),
        ensures
            final(self).wf(),
            final(self)@ == old(self)@.healed(),
            r == final(self)@.grab,
    {
        if let Some(g) = self.grab {
            if !self.windows.contains(g as u64) {
                self.grab = None;
            }
        }
        proof {
            self.lemma_same_tables(old(self));
        }
        self.grab
    }

    proof fn lemma_same_tables(&self, other: &Self)
        requires
            other.wf(),
            self.windows == other.windows,
            self.sublayers == other.sublayers,
            self.saved == other.saved,
            self.fullscreen == other.fullscreen,
            self.layers == other.layers,
            self.popups == other.popups,
            self.resize is Some ==> self.resize->0.anchor_mouse.near()
                && self.resize->0.anchor_frame.near(),
            self.press_origin is Some ==> self.press_origin->0.near(),
        ensures
            self.wf(),
    {
        assert(other@.wf());
        assert(self@.windows == other@.windows);
        assert(self@.sublayers == other@.sublayers);
        assert(self@.saved == other@.saved);
        assert(self@.fullscreen == other@.fullscreen);
        assert(self@.layers == other@.layers);
        assert(self@.popups == other@.popups);
        assert(self@.wf());
    }

    /// The pointer entered a window; the keyboard does not follow it.
    pub fn mouse_entered(&mut self, id: u32, x: i64, y: i64) -> (out: Vec<Action>)
        requires
            old(self).wf(),
        ensures
            final(self).wf(),
            (Step { state: final(self)@, actions: out@ }) == old(self)@.entered(id, x, y),
    {
        let mut out: Vec<Action> = Vec::new();
        if self.grabbed().is_none() {
            out.push(Action::Push { event: InputEvent::PointerEnter { window_id: id, x, y } });
        }
        assert(out@ =~= old(self)@.unless_grabbed(
            InputEvent::PointerEnter { window_id: id, x, y },
        ).actions);
        out
    }

    /// The pointer left a window.
    pub fn mouse_exited(&mut self, id: u32) -> (out: Vec<Action>)
        requires
            old(self).wf(),
        ensures
            final(self).wf(),
            (Step { state: final(self)@, actions: out@ }) == old(self)@.exited(id),
    {
        let mut out: Vec<Action> = Vec::new();
        if self.grabbed().is_none() {
            out.push(Action::Push { event: InputEvent::PointerLeave { window_id: id } });
        }
        assert(out@ =~= old(self)@.unless_grabbed(
            InputEvent::PointerLeave { window_id: id },
        ).actions);
        out
    }

    /// The pointer moved over a window, at (x, y) in its own coordinates.
    pub fn handle_motion(&mut self, id: u32, x: i64, y: i64, seen: &Seen) -> (out: Vec<Action>)
        requires
            old(self).wf(),
            seen.near(),
        ensures
            final(self).wf(),
            (Step { state: final(self)@, actions: out@ }) == old(self)@.motion(id, x, y, *seen),
    {
        let mut out: Vec<Action> = Vec::new();
        match self.grabbed() {
            Some(g) => {
                if let Some(f) = find_frame(&seen.frames, g) {
                    proof {
                        lemma_listed_frame_is_near(seen.frames@, g);
                    }
                    let (mx, my, _) = in_window(f, seen.mouse);
                    out.push(
                        Action::Push {
                            event: InputEvent::PointerMotion { window_id: g, x: mx, y: my },
                        },
                    );
                }
            },
            None => {
                out.push(
                    Action::Push { event: InputEvent::PointerMotion { window_id: id, x, y } },
                );
            },
        }
        assert(out@ =~= old(self)@.motion(id, x, y, *seen).actions);
        out
    }

    /// The pointer moved over a window with the button held.
    pub fn mouse_dragged(&mut self, id: u32, x: i64, y: i64, seen: &Seen) -> (out: Vec<Action>)
        requires
            old(self).wf(),
            seen.near(),
        ensures
            final(self).wf(),
            (Step { state: final(self)@, actions: out@ }) == old(self)@.drag(id, x, y, *seen),
    {
        let mut out: Vec<Action> = Vec::new();
        if let Some(r) = self.resize {
            if r.window_id == id {
                let (width, height) = resize_request(
                    r.anchor_frame,
                    r.edges,
                    r.anchor_mouse,
                    seen.mouse,
                );
                out.push(
                    Action::Push { event: InputEvent::Resize { window_id: id, width, height } },
                );
                assert(out@ =~= old(self)@.drag(id, x, y, *seen).actions);
                return out;
            }
        }
        let pending: bool = match self.drag {
            Some(d) => d == id,
            None => false,
        };
        if pending {
            self.drag = None;
            proof {
                self.lemma_same_tables(old(self));
            }
            out.push(Action::NativeDrag { id });
            assert(out@ =~= old(self)@.drag(id, x, y, *seen).actions);
            return out;
        }
        self.handle_motion(id, x, y, seen)
    }

    /// A button went down or up over a window. `n` is the native button number.
    pub fn handle_button(&mut self, id: u32, n: isize, pressed: bool, seen: &Seen) -> (out: Vec<
        Action,
    >)
        requires
            old(self).wf(),
            seen.near(),
            button_has_code(n),
        ensures
            final(self).wf(),
            (Step { state: final(self)@, actions: out@ }) == if pressed {
                old(self)@.press(id, spec_btn_code(n), *seen)
            } else {
                old(self)@.release(spec_btn_code(n), *seen)
            },
    {
        let button: u32 = btn_code(n);
        if pressed {
            self.button_down(id, button, seen)
        } else {
            self.button_up(button, seen)
        }
    }

    fn button_up(&mut self, button: u32, seen: &Seen) -> (out: Vec<Action>)
        requires
            old(self).wf(),
            seen.near(),
        ensures
            final(self).wf(),
            (Step { state: final(self)@, actions: out@ }) == old(self)@.release(button, *seen),
    {
        let ghost want = old(self)@.release(button, *seen);
        let mut out: Vec<Action> = Vec::new();
        let moved: bool = match self.press_origin {
            Some(p) => dragged(p, seen.mouse),
            None => false,
        };
        self.press_origin = None;
        proof {
            self.lemma_same_tables(old(self));
        }
        if moved {
            if let Some(g) = self.grabbed() {
                if let Some(f) = find_frame(&seen.frames, g) {
                    proof {
                        lemma_listed_frame_is_near(seen.frames@, g);
                    }
                    let (x, y, inside) = in_window(f, seen.mouse);
                    if inside {
                        out.push(
                            Action::Push {
                                event: InputEvent::PointerMotion { window_id: g, x, y },
                            },
                        );
                        out.push(
                            Action::Push {
                                event: InputEvent::PointerButton {
                                    window_id: g,
                                    button,
                                    pressed: false,
                                },
                            },
                        );
                        let ghost mid = *self;
                        self.implicit_grab = None;
                        proof {
                            self.lemma_same_tables(&mid);
                        }
                        assert(out@ =~= want.actions);
                        return out;
                    }
                }
            }
        }
        if let Some(w) = self.implicit_grab {
            out.push(
                Action::Push {
                    event: InputEvent::PointerButton { window_id: w, button, pressed: false },
                },
            );
        }
        let ghost mid = *self;
        self.implicit_grab = None;
        proof {
            self.lemma_same_tables(&mid);
        }
        assert(out@ =~= want.actions);
        out
    }

    fn button_down(&mut self, id: u32, button: u32, seen: &Seen) -> (out: Vec<Action>)
        requires
            old(self).wf(),
            seen.near(),
        ensures
            final(self).wf(),
            (Step { state: final(self)@, actions: out@ }) == old(self)@.press(id, button, *seen),
    {
        let ghost want = old(self)@.press(id, button, *seen);
        let mut out: Vec<Action> = Vec::new();
        self.press_origin = Some(seen.mouse);
        proof {
            self.lemma_same_tables(old(self));
        }
        let grab: Option<u32> = self.grabbed();
        let ghost mid = *self;
        match grab {
            Some(g) => {
                if let Some(f) = find_frame(&seen.frames, g) {
                    proof {
                        lemma_listed_frame_is_near(seen.frames@, g);
                    }
                    let (x, y, inside) = in_window(f, seen.mouse);
                    if inside {
                        out.push(
                            Action::Push {
                                event: InputEvent::PointerMotion { window_id: g, x, y },
                            },
                        );
                        out.push(
                            Action::Push {
                                event: InputEvent::PointerButton {
                                    window_id: g,
                                    button,
                                    pressed: true,
                                },
                            },
                        );
                        self.implicit_grab = Some(g);
                    } else {
                        out.push(
                            Action::Push { event: InputEvent::PopupDismiss { window_id: g } },
                        );
                        self.implicit_grab = None;
                    }
                }
            },
            None => {
                out.push(
                    Action::Push {
                        event: InputEvent::PointerButton { window_id: id, button, pressed: true },
                    },
                );
                self.implicit_grab = Some(id);
            },
        }
        proof {
            self.lemma_same_tables(&mid);
        }
        assert(out@ =~= want.actions);
        out
    }

    /// The left button went up: any move or resize ends, then it is a release.
    pub fn mouse_up(&mut self, id: u32, n: isize, seen: &Seen) -> (out: Vec<Action>)
        requires
            old(self).wf(),
            seen.near(),
            button_has_code(n),
        ensures
            final(self).wf(),
            (Step { state: final(self)@, actions: out@ }) == old(self)@.mouse_up(
                spec_btn_code(n),
                *seen,
            ),
    {
        self.drag = None;
        self.resize = None;
        proof {
            self.lemma_same_tables(old(self));
        }
        self.handle_button(id, n, false, seen)
    }

    /// A window became the key window. An open menu keeps the keyboard.
    pub fn window_did_become_key(&self, id: u32) -> (out: Vec<Action>)
        requires
            self.wf(),
        ensures
            out@ == self@.became_key(id),
    {
        let mut out: Vec<Action> = Vec::new();
        if !self.has_popup() {
            out.push(Action::Push { event: InputEvent::Focus { window_id: id, focused: true } });
            assert(out@ =~= seq![push(InputEvent::Focus { window_id: id, focused: true })]);
        }
        out
    }

    /// A window lost the key focus: its application is told so, and loses the keyboard.
    pub fn window_did_resign_key(&self, id: u32) -> (out: Vec<Action>)
        ensures
            out@ == self@.resigned_key(id),
    {
        let mut out: Vec<Action> = Vec::new();
        out.push(Action::Push { event: InputEvent::AppDeactivated { window_id: id } });
        out.push(Action::Push { event: InputEvent::Focus { window_id: id, focused: false } });
        assert(out@ =~= seq![
            push(InputEvent::AppDeactivated { window_id: id }),
            push(InputEvent::Focus { window_id: id, focused: false }),
        ]);
        out
    }

    /// The system resized a window's content to `w` by `h` points.
    pub fn window_did_resize(&mut self, id: u32, w: i32, h: i32) -> (out: Vec<Action>)
        requires
            old(self).wf(),
        ensures
            final(self).wf(),
            (Step { state: final(self)@, actions: out@ }) == old(self)@.native_resize(id, w, h),
    {
        let ghost want = old(self)@.native_resize(id, w, h);
        let mut out: Vec<Action> = Vec::new();
        let resizing: bool = match self.resize {
            Some(r) => r.window_id == id,
            None => false,
        };
        let found: Option<WinEntry> = match self.windows.get(id as u64) {
            Some(e) => Some(*e),
            None => None,
        };
        if found.is_none() && !resizing {
            out.push(
                Action::Push {
                    event: InputEvent::Resize {
                        window_id: id,
                        width: without_margin(w, 0),
                        height: without_margin(h, 0),
                    },
                },
            );
        }
        if let Some(e) = found {
            if e.forwards_resize && !resizing && !(e.last_w == w && e.last_h == h) {
                let ghost before = self@;
                assert(before.wf());
                self.windows.insert(id as u64, WinEntry { last_w: w, last_h: h, ..e });
                out.push(
                    Action::Push {
                        event: InputEvent::Resize {
                            window_id: id,
                            width: without_margin(w, e.margin_w),
                            height: without_margin(h, e.margin_h),
                        },
                    },
                );
                assert(self@.windows.dom() =~= before.windows.dom());
                assert(self@.wf()) by {
                    lemma_windows_may_change(before, self@);
                }
            }
        }
        assert(out@ =~= want.actions);
        out
    }

    /// Whether a window is placed exactly as asked for: in a remote session, when it
    /// is fullscreen, or when it is a docked bar.
    pub fn placed_exactly(&self, id: u32, rail: bool) -> (b: bool)
        requires
            self.wf(),
        ensures
            b == self@.is_placed_exactly(id, rail),
    {
        rail || self.fullscreen.contains(id as u64) || self.layers.contains(id as u64)
    }
}

proof fn lemma_windows_may_change(a: DesktopView, b: DesktopView)
    requires
        a.wf(),
        b == (DesktopView { windows: b.windows, ..a }),
        b.windows.dom() == a.windows.dom(),
        forall|k: u64| #[trigger]
            b.windows.contains_key(k) ==> b.windows[k].margin_w == a.windows[k].margin_w
                && b.windows[k].margin_h == a.windows[k].margin_h,
    ensures
        b.wf(),
{
    assert forall|k: u64| b.windows.contains_key(k) == a.windows.contains_key(k) by {
        assert(b.windows.dom().contains(k) == a.windows.dom().contains(k));
    }
}

proof fn lemma_listed_frame_is_near(frames: Seq<(u32, Area)>, id: u32)
    requires
        forall|i: int| 0 <= i < frames.len() ==> (#[trigger] frames[i]).1.near(),
        frame_of(frames, id) is Some,
    ensures
        frame_of(frames, id)->0.near(),
    decreases frames.len(),
{
    if frame_of(frames.drop_last(), id) is Some {
        assert forall|i: int| 0 <= i < frames.drop_last().len() implies (
        #[trigger] frames.drop_last()[i]).1.near() by {
            assert(frames[i].1.near());
        }
        lemma_listed_frame_is_near(frames.drop_last(), id);
    } else {
        assert(frames[frames.len() - 1].1.near());
    }
}

/// The click that opens a menu does not select the item that the menu maps under: if
/// the pointer does not travel between press and release, the release goes to the
/// window that got the press, although a popup has grabbed the pointer meanwhile.
pub proof fn lemma_opening_click_selects_nothing(
    d: DesktopView,
    id: u32,
    popup: u32,
    button: u32,
    down: Seen,
    between: Seen,
    up: Seen,
    display: Display,
    rail: bool,
)
    requires
        d.wf(),
        d.healed().grab is None,
        !spec_dragged(down.mouse, up.mouse),
    ensures
        ({
            let pressed = d.press(id, button, down).state;
            let grabbed = pressed.handle(
                WinCmd::SetGrab { window: Some(popup) },
                between,
                display,
                rail,
            ).state;
            grabbed.release(button, up).actions == seq![
                push(InputEvent::PointerButton { window_id: id, button, pressed: false }),
            ]
        }),
{
}

/// Press, drag and release onto a menu item activates it: the release goes to the
/// grabbing popup that the pointer is inside of.
pub proof fn lemma_drag_onto_menu_selects(d: DesktopView, button: u32, up: Seen, popup: u32)
    requires
        d.wf(),
        d.grab == Some(popup),
        d.windows.contains_key(popup as u64),
        d.press_origin is Some,
        spec_dragged(d.press_origin->0, up.mouse),
        frame_of(up.frames@, popup) is Some,
        frame_of(up.frames@, popup)->0.spec_contains(up.mouse),
    ensures
        d.release(button, up).actions.last() == push(
            InputEvent::PointerButton { window_id: popup, button, pressed: false },
        ),
        d.release(button, up).state.implicit_grab is None,
{
}

/// Every release ends the implicit grab, so a second release reaches nobody.
pub proof fn lemma_release_ends_implicit_grab(d: DesktopView, button: u32, first: Seen, second: Seen)
    ensures
        d.release(button, first).state.implicit_grab is None,
        d.release(button, first).state.press_origin is None,
        d.release(button, first).state.release(button, second).actions == Seq::<Action>::empty(),
{
}

/// A grab never outlives its popup as far as input is concerned: motion reaches the
/// window under the pointer once the grabbing popup is gone.
pub proof fn lemma_dead_grab_swallows_nothing(d: DesktopView, id: u32, x: i64, y: i64, seen: Seen)
    requires
        d.grab is Some,
        !d.windows.contains_key(d.grab->0 as u64),
    ensures
        d.motion(id, x, y, seen).actions == seq![
            push(InputEvent::PointerMotion { window_id: id, x, y }),
        ],
        d.motion(id, x, y, seen).state.grab is None,
{
}

/// Nothing of a destroyed window is left.
pub proof fn lemma_destroy_forgets_window(
    d: DesktopView,
    id: u32,
    seen: Seen,
    display: Display,
    rail: bool,
)
    requires
        d.wf(),
        d.windows.contains_key(id as u64),
    ensures
        ({
            let t = d.handle(WinCmd::Destroy { id }, seen, display, rail).state;
            &&& !t.windows.contains_key(id as u64)
            &&& !t.layers.contains_key(id as u64)
            &&& !t.popups.contains_key(id as u64)
            &&& !t.fullscreen.contains_key(id as u64)
            &&& !t.saved.contains_key(id as u64)
            &&& t.grab != Some(id)
            &&& forall|sub: u32| !#[trigger] t.sublayers.contains_key(layer_key(id, sub))
        }),
{
    let t = d.handle(WinCmd::Destroy { id }, seen, display, rail).state;
    assert forall|sub: u32| !#[trigger] t.sublayers.contains_key(layer_key(id, sub)) by {
        assert(layers_of(id).contains(layer_key(id, sub)));
    }
}

/// Only a window that is still there takes over from a destroyed one.
pub proof fn lemma_focus_returns_to_a_living_window(
    d: DesktopView,
    id: u32,
    seen: Seen,
    display: Display,
    rail: bool,
    target: u32,
)
    requires
        d.handle(WinCmd::Destroy { id }, seen, display, rail).actions.contains(
            push(InputEvent::Focus { window_id: target, focused: true }),
        ),
    ensures
        target != id,
        d.handle(WinCmd::Destroy { id }, seen, display, rail).state.windows.contains_key(
            target as u64,
        ),
{
    lemma_first_under_exists(seen.frames@, d.windows.remove(id as u64), seen.mouse);
}

proof fn lemma_first_under_exists(
    frames: Seq<(u32, Area)>,
    windows: Map<u64, WinEntry>,
    p: Point,
)
    ensures
        first_under(frames, windows, p) matches Some((id, f)) ==> windows.contains_key(id as u64),
    decreases frames.len(),
{
    if frames.len() > 0 {
        lemma_first_under_exists(frames.drop_last(), windows, p);
    }
}

/// A second destroy does nothing to the windowing system.
pub proof fn lemma_destroy_is_idempotent(
    d: DesktopView,
    id: u32,
    seen: Seen,
    display: Display,
    rail: bool,
)
    requires
        d.wf(),
    ensures
        ({
            let t = d.handle(WinCmd::Destroy { id }, seen, display, rail).state;
            t.handle(WinCmd::Destroy { id }, seen, display, rail).actions == Seq::<Action>::empty()
        }),
{
}

/// The state once a window was maximized (`false`) or made fullscreen (`true`), one
/// after the other, each with what was to be seen then.
pub open spec fn filled(d: DesktopView, id: u32, fills: Seq<(bool, Seen, Display)>) -> DesktopView
    decreases fills.len(),
{
    if fills.len() == 0 {
        d
    } else {
        let (whole_screen, seen, display) = fills.last();
        filled(d, id, fills.drop_last()).set_window_fill(
            id,
            true,
            whole_screen,
            seen,
            display,
        ).state
    }
}

/// A window that was maximized or made fullscreen, any number of times in a row, comes
/// back to the frame that it had before the first time, and nothing else is left of it.
pub proof fn lemma_fill_is_undone(
    d: DesktopView,
    id: u32,
    fills: Seq<(bool, Seen, Display)>,
    whole_screen: bool,
    later: Seen,
    display: Display,
)
    requires
        d.wf(),
        d.windows.contains_key(id as u64),
        !d.saved.contains_key(id as u64),
        fills.len() > 0,
        forall|i: int| 0 <= i < fills.len() ==> (#[trigger] fills[i]).1.window is Some,
        later.window is Some,
    ensures
        ({
            let back = filled(d, id, fills).set_window_fill(
                id,
                false,
                whole_screen,
                later,
                display,
            );
            &&& back.actions == seq![Action::SetFrame { id, frame: fills[0].1.window->0.frame }]
            &&& back.state == d
        }),
{
    let k = id as u64;
    lemma_first_frame_is_saved(d, id, fills);
    let back = filled(d, id, fills).set_window_fill(id, false, whole_screen, later, display).state;
    assert(!d.fullscreen.contains_key(k));
    assert(back.saved =~= d.saved);
    assert(back.fullscreen =~= d.fullscreen);
}

proof fn lemma_first_frame_is_saved(d: DesktopView, id: u32, fills: Seq<(bool, Seen, Display)>)
    requires
        d.windows.contains_key(id as u64),
        !d.saved.contains_key(id as u64),
        fills.len() > 0,
        forall|i: int| 0 <= i < fills.len() ==> (#[trigger] fills[i]).1.window is Some,
    ensures
        ({
            let t = filled(d, id, fills);
            &&& t == (DesktopView { saved: t.saved, fullscreen: t.fullscreen, ..d })
            &&& t.saved == d.saved.insert(id as u64, fills[0].1.window->0.frame)
            &&& t.fullscreen.remove(id as u64) == d.fullscreen.remove(id as u64)
        }),
    decreases fills.len(),
{
    let k = id as u64;
    let rest = fills.drop_last();
    let t = filled(d, id, fills);
    assert(fills.last().1.window is Some);
    if rest.len() > 0 {
        assert forall|i: int| 0 <= i < rest.len() implies (#[trigger] rest[i]).1.window is Some by {
            assert(rest[i] == fills[i]);
        }
        lemma_first_frame_is_saved(d, id, rest);
        assert(rest[0] == fills[0]);
    } else {
        assert(filled(d, id, rest) == d);
    }
    assert(t.fullscreen.remove(k) =~= d.fullscreen.remove(k));
}

/// The size of a window with a native titlebar is the user's: no frame resizes it.
pub proof fn lemma_frame_never_resizes_decorated_window(
    d: DesktopView,
    id: u32,
    size: (i32, i32),
    dst: (i32, i32),
    color: Option<ColorDesc>,
    geom: (i32, i32, i32, i32),
    seen: Seen,
    display: Display,
)
    requires
        d.wf(),
        d.windows.contains_key(id as u64),
        d.windows[id as u64].decorated,
    ensures
        ({
            let t = d.present_frame(id, size, dst, color, geom, seen, display);
            &&& t.state.windows[id as u64].cur_w == d.windows[id as u64].cur_w
            &&& t.state.windows[id as u64].cur_h == d.windows[id as u64].cur_h
            &&& forall|i: int|
                0 <= i < t.actions.len() ==> #[trigger] t.actions[i] is ShowImage
        }),
{
}

/// Presenting the same buffer again changes no window size.
pub proof fn lemma_frame_settles(
    d: DesktopView,
    id: u32,
    size: (i32, i32),
    dst: (i32, i32),
    color: Option<ColorDesc>,
    geom: (i32, i32, i32, i32),
    seen: Seen,
    display: Display,
)
    requires
        d.wf(),
        d.windows.contains_key(id as u64),
        seen.window is Some,
        seen.image_built,
        display.spec_scale() >= 1,
    ensures
        ({
            let once = d.present_frame(id, size, dst, color, geom, seen, display).state;
            let twice = once.present_frame(id, size, dst, color, geom, seen, display);
            &&& twice.actions.len() == 1
            &&& twice.state == once
        }),
{
    let once = d.present_frame(id, size, dst, color, geom, seen, display).state;
    let twice = once.present_frame(id, size, dst, color, geom, seen, display).state;
    lemma_points_fit(size.0, display.spec_scale());
    lemma_points_fit(size.1, display.spec_scale());
    assert(twice.windows =~= once.windows);
}

proof fn lemma_points_fit(pixels: i32, scale: i32)
    requires
        scale >= 1,
    ensures
        1 <= spec_points(pixels, scale) <= i32::MAX,
{
    if pixels >= scale {
        assert(1 <= pixels as int / scale as int <= pixels) by (nonlinear_arith)
            requires
                1 <= scale <= pixels,
        ;
    }
}

/// The size that the user gave a window is asked for once.
pub proof fn lemma_resize_echo_is_skipped(d: DesktopView, id: u32, w: i32, h: i32)
    requires
        d.windows.contains_key(id as u64),
    ensures
        d.native_resize(id, w, h).state.native_resize(id, w, h).actions == Seq::<Action>::empty(),
{
}

} // verus!
