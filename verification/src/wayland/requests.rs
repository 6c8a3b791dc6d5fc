//! What clients ask for: surfaces, roles, windows, bars, cursors and timing.

use super::{
    chain, post, quiet, Emit, IconPixels, LayerSurfaceRec, PopupRec, StateView, Step,
    SubsurfaceRec, SurfaceRec, SurfaceRef, ToplevelRec,
};
use crate::cmd::{ColorDesc, WinCmd};
use crate::input::Display;
use crate::positioner::PositionerState;
use crate::shm::PixelBuf;
use vstd::prelude::*;

verus! {

/// A surface about which nothing was said yet.
pub open spec fn fresh_surface() -> SurfaceRec {
    SurfaceRec {
        pending_buffer: None,
        window_id: None,
        geometry_offset: (0, 0),
        geometry_size: (0, 0),
        viewport_dst: None,
        pending_color: None,
        color: None,
    }
}

/// What a client asks of a toplevel.
#[derive(Debug)]
pub enum ToplevelRequest {
    SetTitle { title: String },
    SetAppId { app_id: String },
    Move,
    Resize { edges: u32 },
    SetMaximized { on: bool },
    SetFullscreen { on: bool },
    SetMinimized,
    SetMinSize { width: i32, height: i32 },
    SetMaxSize { width: i32, height: i32 },
    /// Through the dialog protocol.
    SetModal { modal: bool },
    /// Through the decoration protocol.
    Decorate,
    Destroy,
}

/// What a client asks of a docked bar.
#[derive(Clone, Copy, PartialEq, Eq, Debug, Structural)]
pub enum LayerRequest {
    SetSize { width: u32, height: u32 },
    SetAnchor { anchor: u32 },
    SetMargin { top: i32, right: i32, bottom: i32, left: i32 },
    SetExclusiveZone { zone: i32 },
    SetKeyboardInteractivity { mode: u32 },
}

/// What a client asks of a positioner.
#[derive(Clone, Copy, PartialEq, Eq, Debug, Structural)]
pub enum PositionerRequest {
    SetSize { width: i32, height: i32 },
    SetAnchorRect { x: i32, y: i32, width: i32, height: i32 },
    SetOffset { x: i32, y: i32 },
    SetAnchor { anchor: u32 },
    SetGravity { gravity: u32 },
    SetConstraintAdjustment { adjustment: u32 },
}

/// A positioner after a request.
pub open spec fn positioned(p: PositionerState, req: PositionerRequest) -> PositionerState {
    match req {
        PositionerRequest::SetSize { width, height } => PositionerState {
            size: (width, height),
            ..p
        },
        PositionerRequest::SetAnchorRect { x, y, width, height } => PositionerState {
            anchor_rect: (x, y, width, height),
            ..p
        },
        PositionerRequest::SetOffset { x, y } => PositionerState { offset: (x, y), ..p },
        PositionerRequest::SetAnchor { anchor } => PositionerState { anchor, ..p },
        PositionerRequest::SetGravity { gravity } => PositionerState { gravity, ..p },
        PositionerRequest::SetConstraintAdjustment { adjustment } => PositionerState {
            constraint_adjustment: adjustment,
            ..p
        },
    }
}

/// A positioner about which nothing was said yet.
pub open spec fn blank_positioner() -> PositionerState {
    PositionerState {
        size: (0, 0),
        anchor_rect: (0, 0, 0, 0),
        offset: (0, 0),
        anchor: 0,
        gravity: 0,
        constraint_adjustment: 0,
    }
}

/// A screen edge.
#[derive(Clone, Copy, PartialEq, Eq, Debug, Structural)]
pub enum Edge {
    Top,
    Right,
    Bottom,
    Left,
}

/// The bar is anchored to this edge and not to the opposite one.
pub open spec fn docked_to(anchor: u32, edge: Edge) -> bool {
    match edge {
        Edge::Top => anchor & 1 != 0 && anchor & 2 == 0,
        Edge::Bottom => anchor & 2 != 0 && anchor & 1 == 0,
        Edge::Left => anchor & 4 != 0 && anchor & 8 == 0,
        Edge::Right => anchor & 8 != 0 && anchor & 4 == 0,
    }
}

/// What a bar reserves from an edge.
pub open spec fn zone(l: LayerSurfaceRec, edge: Edge) -> int {
    if l.exclusive > 0 && docked_to(l.anchor, edge) {
        l.exclusive as int
    } else {
        0
    }
}

/// `v` is the largest zone that a bar reserves from an edge, 0 where none does.
pub open spec fn is_reserved(layers: Map<u64, LayerSurfaceRec>, edge: Edge, v: i32) -> bool {
    &&& v >= 0
    &&& forall|k: u64| #[trigger] layers.contains_key(k) ==> zone(layers[k], edge) <= v
    &&& v == 0 || exists|k: u64| #[trigger] layers.contains_key(k) && zone(layers[k], edge) == v
}

/// The largest zone that a bar reserves from an edge, 0 where none does.
pub open spec fn reserved(layers: Map<u64, LayerSurfaceRec>, edge: Edge) -> i32 {
    choose|v: i32| is_reserved(layers, edge, v)
}

/// The largest zone is one number.
pub proof fn lemma_reserved_is_unique(layers: Map<u64, LayerSurfaceRec>, edge: Edge, v: i32)
    requires
        is_reserved(layers, edge, v),
    ensures
        reserved(layers, edge) == v,
{
    let w = reserved(layers, edge);
    assert(is_reserved(layers, edge, w));
}

proof fn lemma_reserved_below(layers: Map<u64, LayerSurfaceRec>, edge: Edge, n: int) -> (v: i32)
    requires
        0 <= n <= i32::MAX,
        forall|k: u64| #[trigger] layers.contains_key(k) ==> zone(layers[k], edge) <= n,
    ensures
        is_reserved(layers, edge, v),
    decreases n,
{
    if n == 0 || exists|k: u64| #[trigger] layers.contains_key(k) && zone(layers[k], edge) == n {
        n as i32
    } else {
        lemma_reserved_below(layers, edge, n - 1)
    }
}

/// What bars reserve from an edge is the largest zone, whatever bars there are.
pub proof fn lemma_reserved_is_largest(layers: Map<u64, LayerSurfaceRec>, edge: Edge)
    ensures
        is_reserved(layers, edge, reserved(layers, edge)),
{
    let v = lemma_reserved_below(layers, edge, i32::MAX as int);
}

/// The insets that all bars together reserve.
pub open spec fn insets_of(layers: Map<u64, LayerSurfaceRec>) -> Emit {
    Emit::SetInsets {
        top: reserved(layers, Edge::Top),
        right: reserved(layers, Edge::Right),
        bottom: reserved(layers, Edge::Bottom),
        left: reserved(layers, Edge::Left),
    }
}

/// The frame callbacks of all surfaces but one.
pub open spec fn not_of(sid: u64) -> spec_fn((u64, u64)) -> bool {
    |c: (u64, u64)| c.0 != sid
}

/// Every waiting frame callback is done.
pub open spec fn all_done(callbacks: Seq<(u64, u64)>, time: u32) -> Seq<Emit> {
    callbacks.map_values(|c: (u64, u64)| Emit::FrameDone { callback: c.1, time })
}

/// Every waiting feedback is told when it was presented, at 60 Hz.
pub open spec fn all_presented(feedbacks: Seq<u64>, sec: u64, nsec: u32) -> Seq<Emit> {
    feedbacks.map_values(
        |f: u64|
            Emit::Presented {
                feedback: f,
                sec_hi: (sec / 0x1_0000_0000) as u32,
                sec_lo: (sec % 0x1_0000_0000) as u32,
                nsec,
                refresh: 16_666_667,
            },
    )
}

impl StateView {
    /// A new surface; clients are asked to render at the display's scale.
    pub open spec fn create_surface(self, sid: u64, version: u32, display: Display) -> Step {
        Step {
            state: StateView { surfaces: self.surfaces.insert(sid, fresh_surface()), ..self },
            out: if version >= 6 {
                seq![Emit::PreferredScale { surface: sid, scale: display.spec_scale() }]
            } else {
                Seq::empty()
            },
        }
    }

    /// A buffer waits for the surface's next commit; none takes a waiting one back.
    pub open spec fn attach(self, sid: u64, buffer: Option<u64>) -> StateView {
        self.with_surface(sid, SurfaceRec { pending_buffer: buffer, ..self.surfaces[sid] })
    }

    /// The content rectangle of a surface's buffer.
    pub open spec fn set_window_geometry(
        self,
        sid: u64,
        x: i32,
        y: i32,
        width: i32,
        height: i32,
    ) -> StateView {
        self.with_surface(
            sid,
            SurfaceRec {
                geometry_offset: (x, y),
                geometry_size: (width, height),
                ..self.surfaces[sid]
            },
        )
    }

    /// The size that a viewport gives a surface; a size that is not positive unsets it.
    pub open spec fn set_destination(self, sid: u64, width: i32, height: i32) -> StateView {
        self.with_surface(
            sid,
            SurfaceRec {
                viewport_dst: if width > 0 && height > 0 {
                    Some((width, height))
                } else {
                    None
                },
                ..self.surfaces[sid]
            },
        )
    }

    /// A color waits for the surface's next commit.
    pub open spec fn stage_color(self, sid: u64, color: Option<ColorDesc>) -> StateView {
        self.with_surface(sid, SurfaceRec { pending_color: Some(color), ..self.surfaces[sid] })
    }

    /// A frame callback waits on a surface that is known.
    pub open spec fn frame(self, sid: u64, callback: u64) -> StateView {
        if self.surfaces.contains_key(sid) {
            StateView { callbacks: self.callbacks.push((sid, callback)), ..self }
        } else {
            self
        }
    }

    /// Presentation feedback waits.
    pub open spec fn feedback(self, feedback: u64) -> StateView {
        StateView { feedbacks: self.feedbacks.push(feedback), ..self }
    }

    /// The screen was refreshed: nothing waits any longer.
    pub open spec fn vblank_tick(self, time: u32, sec: u64, nsec: u32) -> Step {
        Step {
            state: StateView { callbacks: Seq::empty(), feedbacks: Seq::empty(), ..self },
            out: all_done(self.callbacks, time) + all_presented(self.feedbacks, sec, nsec),
        }
    }

    /// A subsurface moves inside its parent.
    pub open spec fn set_subsurface_position(self, sub: u64, x: i32, y: i32) -> StateView {
        if self.subsurfaces.contains_key(sub) {
            StateView {
                subsurfaces: self.subsurfaces.insert(
                    sub,
                    SubsurfaceRec { x, y, ..self.subsurfaces[sub] },
                ),
                ..self
            }
        } else {
            self
        }
    }

    /// A new positioner.
    pub open spec fn create_positioner(self, id: u64) -> StateView {
        StateView { positioners: self.positioners.insert(id, blank_positioner()), ..self }
    }

    /// What a client's request does to a positioner; one that is not known starts blank.
    pub open spec fn positioner_request(self, id: u64, req: PositionerRequest) -> StateView {
        StateView {
            positioners: self.positioners.insert(
                id,
                positioned(
                    if self.positioners.contains_key(id) {
                        self.positioners[id]
                    } else {
                        blank_positioner()
                    },
                    req,
                ),
            ),
            ..self
        }
    }

    /// A popup asks for all pointer input.
    pub open spec fn popup_grab(self, pp: u64) -> Seq<Emit> {
        post_if(
            self.popups.contains_key(pp),
            WinCmd::SetGrab { window: Some(self.popups[pp].window_id) },
        )
    }

    /// A window is to come to the front.
    pub open spec fn activate(self, sid: u64) -> Seq<Emit> {
        match self.window_of(sid) {
            Some(id) => seq![post(WinCmd::Activate { id })],
            None => Seq::empty(),
        }
    }

    /// An icon that waits for its window is taken back.
    pub open spec fn reset_icon(self, tl: u64) -> StateView {
        if self.toplevels.contains_key(tl) {
            StateView { icons: self.icons.remove(tl), ..self }
        } else {
            self
        }
    }

    /// The state with another record for a surface that is known.
    pub open spec fn with_surface(self, sid: u64, rec: SurfaceRec) -> StateView {
        if self.surfaces.contains_key(sid) {
            StateView { surfaces: self.surfaces.insert(sid, rec), ..self }
        } else {
            self
        }
    }

    /// A toplevel goes away, with its window where it had one.
    pub open spec fn reap_toplevel(self, tl: u64) -> Step {
        if !self.toplevels.contains_key(tl) {
            quiet(self)
        } else {
            let t = self.toplevels[tl];
            Step {
                state: StateView {
                    surface_toplevel: self.surface_toplevel.remove(t.surface.id),
                    window_surface: self.window_surface.remove(t.window_id as u64),
                    ..self.without_toplevel(tl)
                },
                out: destroyed_if(t.created_window, t.window_id),
            }
        }
    }

    /// The state without a toplevel's records.
    pub open spec fn without_toplevel(self, tl: u64) -> StateView {
        StateView {
            toplevels: self.toplevels.remove(tl),
            titles: self.titles.remove(tl),
            app_ids: self.app_ids.remove(tl),
            icons: self.icons.remove(tl),
            ..self
        }
    }

    /// A popup goes away. Its window is destroyed even if it never had one: a grab
    /// that it asked for ends with that.
    pub open spec fn reap_popup(self, pp: u64) -> Step {
        if !self.popups.contains_key(pp) {
            quiet(self)
        } else {
            let p = self.popups[pp];
            Step {
                state: StateView {
                    popups: self.popups.remove(pp),
                    surface_popup: self.surface_popup.remove(p.surface.id),
                    window_surface: self.window_surface.remove(p.window_id as u64),
                    ..self
                },
                out: destroyed_if(true, p.window_id),
            }
        }
    }

    /// A docked bar goes away; the insets are worked out anew.
    pub open spec fn reap_layer_surface(self, ls: u64) -> Step {
        if !self.layer_surfaces.contains_key(ls) {
            Step { state: self, out: seq![insets_of(self.layer_surfaces)] }
        } else {
            let l = self.layer_surfaces[ls];
            let state = StateView {
                layer_surfaces: self.layer_surfaces.remove(ls),
                surface_layer: self.surface_layer.remove(l.surface.id),
                window_surface: self.window_surface.remove(l.window_id as u64),
                focus_window: if self.focus_window == Some(l.window_id) {
                    None
                } else {
                    self.focus_window
                },
                ..self
            };
            Step {
                state,
                out: destroyed_if(l.created_window, l.window_id).push(
                    insets_of(state.layer_surfaces),
                ),
            }
        }
    }

    /// A surface's toplevel goes away with the surface.
    pub open spec fn surface_toplevel_gone(self, sid: u64) -> Step {
        if self.surface_toplevel.contains_key(sid) {
            let tl = self.surface_toplevel[sid];
            let t = self.toplevels[tl];
            Step {
                state: StateView {
                    surface_toplevel: self.surface_toplevel.remove(sid),
                    ..self.without_toplevel(tl)
                },
                out: destroyed_if(t.created_window, t.window_id),
            }
        } else {
            quiet(self)
        }
    }

    /// A surface's subsurface role goes away with the surface.
    pub open spec fn surface_subsurface_gone(self, sid: u64) -> Step {
        if self.surface_subsurface.contains_key(sid) {
            self.reap_subsurface(self.surface_subsurface[sid])
        } else {
            quiet(self)
        }
    }

    /// A surface's bar goes away with the surface.
    pub open spec fn surface_layer_gone(self, sid: u64) -> Step {
        if self.surface_layer.contains_key(sid) {
            self.reap_layer_surface(self.surface_layer[sid])
        } else {
            quiet(self)
        }
    }

    /// The surface itself, its callbacks and its use as a cursor are gone.
    pub open spec fn surface_gone(self, sid: u64) -> StateView {
        StateView {
            surfaces: self.surfaces.remove(sid),
            callbacks: self.callbacks.filter(not_of(sid)),
            cursor_surface: if self.cursor_surface == Some(sid) {
                None
            } else {
                self.cursor_surface
            },
            ..self
        }
    }

    /// A surface is destroyed, with the roles that it has.
    pub open spec fn destroy_surface(self, sid: u64) -> Step {
        let a = self.surface_toplevel_gone(sid);
        let b = a.state.surface_subsurface_gone(sid);
        let c = b.state.surface_layer_gone(sid);
        let all = chain(chain(a, b), c);
        Step { state: all.state.surface_gone(sid), out: all.out }
    }

    /// A surface gets a parent; a surface as its own parent is refused.
    pub open spec fn get_subsurface(self, sub: u64, surface: u64, parent: u64) -> Step {
        if surface == parent {
            Step { state: self, out: seq![Emit::BadSurface] }
        } else {
            quiet(
                StateView {
                    next_window_id: (self.next_window_id + 1) as u32,
                    subsurfaces: self.subsurfaces.insert(
                        sub,
                        SubsurfaceRec { surface, parent, x: 0, y: 0, sub_id: self.next_window_id },
                    ),
                    surface_subsurface: self.surface_subsurface.insert(surface, sub),
                    ..self
                },
            )
        }
    }

    /// A surface becomes a toplevel.
    pub open spec fn get_toplevel(
        self,
        tl: u64,
        xdg_surface: u64,
        surface: SurfaceRef,
        version: u32,
    ) -> StateView {
        StateView {
            next_window_id: (self.next_window_id + 1) as u32,
            toplevels: self.toplevels.insert(
                tl,
                ToplevelRec {
                    xdg_surface,
                    surface,
                    version,
                    window_id: self.next_window_id,
                    configured: false,
                    created_window: false,
                    maximized: false,
                    fullscreen: false,
                    wants_ssd: false,
                },
            ),
            titles: self.titles.insert(tl, self.default_title),
            app_ids: self.app_ids.insert(tl, self.no_app_id),
            surface_toplevel: self.surface_toplevel.insert(surface.id, tl),
            window_surface: self.window_surface.insert(self.next_window_id as u64, surface),
            ..self
        }
    }

    /// The placement that a popup is asked for with: a popup without a size is 200 by
    /// 200.
    pub open spec fn placement(self, positioner: u64) -> PositionerState {
        let p = if self.positioners.contains_key(positioner) {
            self.positioners[positioner]
        } else {
            blank_positioner()
        };
        if p.size == (0i32, 0i32) {
            PositionerState { size: (200, 200), ..p }
        } else {
            p
        }
    }

    /// A surface becomes a popup, placed by its positioner relative to its parent.
    pub open spec fn get_popup(
        self,
        pp: u64,
        xdg_surface: u64,
        surface: SurfaceRef,
        parent: Option<u64>,
        positioner: u64,
    ) -> StateView {
        let pos = self.placement(positioner);
        StateView {
            next_window_id: (self.next_window_id + 1) as u32,
            popups: self.popups.insert(
                pp,
                PopupRec {
                    xdg_surface,
                    surface,
                    parent_window: match parent {
                        Some(s) => match self.window_of(s) {
                            Some(w) => w,
                            None => 0,
                        },
                        None => 0,
                    },
                    window_id: self.next_window_id,
                    x: pos.spec_origin_x(false) as i32,
                    y: pos.spec_origin_y(false) as i32,
                    x_flip: pos.spec_origin_x(true) as i32,
                    y_flip: pos.spec_origin_y(true) as i32,
                    constraint: pos.constraint_adjustment,
                    w: pos.size.0,
                    h: pos.size.1,
                    configured: false,
                    created_window: false,
                },
            ),
            surface_popup: self.surface_popup.insert(surface.id, pp),
            window_surface: self.window_surface.insert(self.next_window_id as u64, surface),
            ..self
        }
    }

    /// A surface becomes a docked bar.
    pub open spec fn get_layer_surface(self, ls: u64, surface: SurfaceRef) -> StateView {
        StateView {
            next_window_id: (self.next_window_id + 1) as u32,
            layer_surfaces: self.layer_surfaces.insert(
                ls,
                LayerSurfaceRec {
                    surface,
                    window_id: self.next_window_id,
                    anchor: 0,
                    size: (0, 0),
                    margin: (0, 0, 0, 0),
                    exclusive: 0,
                    keyboard_interactivity: 0,
                    configured: false,
                    created_window: false,
                },
            ),
            surface_layer: self.surface_layer.insert(surface.id, ls),
            window_surface: self.window_surface.insert(self.next_window_id as u64, surface),
            ..self
        }
    }

    /// What a client's request does to a toplevel. Unknown toplevels are ignored.
    pub open spec fn toplevel_request(self, tl: u64, req: ToplevelRequest) -> Step {
        let t = self.toplevels[tl];
        let id = t.window_id;
        if !self.toplevels.contains_key(tl) {
            quiet(self)
        } else {
            match req {
                ToplevelRequest::SetTitle { title } => Step {
                    state: StateView { titles: self.titles.insert(tl, title), ..self },
                    out: post_if(t.created_window, WinCmd::Title { id, title }),
                },
                ToplevelRequest::SetAppId { app_id } => quiet(
                    StateView { app_ids: self.app_ids.insert(tl, app_id), ..self },
                ),
                ToplevelRequest::Move => Step {
                    state: self,
                    out: post_if(t.created_window, WinCmd::StartMove { id }),
                },
                ToplevelRequest::Resize { edges } => Step {
                    state: self,
                    out: post_if(t.created_window, WinCmd::StartResize { id, edges }),
                },
                ToplevelRequest::SetMaximized { on } => Step {
                    state: self.with_toplevel(tl, ToplevelRec { maximized: on, ..t }),
                    out: post_if(true, WinCmd::Maximize { id, on }),
                },
                ToplevelRequest::SetFullscreen { on } => Step {
                    state: self.with_toplevel(tl, ToplevelRec { fullscreen: on, ..t }),
                    out: post_if(true, WinCmd::Fullscreen { id, on }),
                },
                ToplevelRequest::SetMinimized => Step {
                    state: self,
                    out: post_if(true, WinCmd::Minimize { id }),
                },
                ToplevelRequest::SetMinSize { width, height } => Step {
                    state: self,
                    out: post_if(true, WinCmd::SetMinSize { id, width, height }),
                },
                ToplevelRequest::SetMaxSize { width, height } => Step {
                    state: self,
                    out: post_if(true, WinCmd::SetMaxSize { id, width, height }),
                },
                ToplevelRequest::SetModal { modal } => Step {
                    state: self,
                    out: post_if(true, WinCmd::SetModal { id, modal }),
                },
                ToplevelRequest::Decorate => quiet(
                    self.with_toplevel(tl, ToplevelRec { wants_ssd: true, ..t }),
                ),
                ToplevelRequest::Destroy => self.reap_toplevel(tl),
            }
        }
    }

    /// The state with another record for a toplevel.
    pub open spec fn with_toplevel(self, tl: u64, rec: ToplevelRec) -> StateView {
        StateView { toplevels: self.toplevels.insert(tl, rec), ..self }
    }

    /// A bar's record after a request.
    pub open spec fn bar_after(l: LayerSurfaceRec, req: LayerRequest) -> LayerSurfaceRec {
        match req {
            LayerRequest::SetSize { width, height } => LayerSurfaceRec {
                size: (width, height),
                ..l
            },
            LayerRequest::SetAnchor { anchor } => LayerSurfaceRec { anchor, ..l },
            LayerRequest::SetMargin { top, right, bottom, left } => LayerSurfaceRec {
                margin: (top, right, bottom, left),
                ..l
            },
            LayerRequest::SetExclusiveZone { zone } => LayerSurfaceRec { exclusive: zone, ..l },
            LayerRequest::SetKeyboardInteractivity { mode } => LayerSurfaceRec {
                keyboard_interactivity: mode,
                ..l
            },
        }
    }

    /// What a client's request does to a bar: where anchor or zone changes, the insets
    /// are worked out anew.
    pub open spec fn layer_request(self, ls: u64, req: LayerRequest) -> Step {
        if !self.layer_surfaces.contains_key(ls) {
            quiet(self)
        } else {
            let state = StateView {
                layer_surfaces: self.layer_surfaces.insert(
                    ls,
                    StateView::bar_after(self.layer_surfaces[ls], req),
                ),
                ..self
            };
            Step {
                state,
                out: if req is SetAnchor || req is SetExclusiveZone {
                    seq![insets_of(state.layer_surfaces)]
                } else {
                    Seq::empty()
                },
            }
        }
    }

    /// A surface becomes the cursor, or the cursor is hidden. A buffer that is attached
    /// already is used at once; `content` is what could be read out of it.
    pub open spec fn set_cursor(
        self,
        surface: Option<u64>,
        hotspot: (i32, i32),
        content: Option<PixelBuf>,
        display: Display,
    ) -> Step {
        match surface {
            None => Step {
                state: StateView { cursor_surface: None, ..self },
                out: seq![post(WinCmd::HideCursor)],
            },
            Some(sid) => {
                let s = StateView { cursor_surface: Some(sid), cursor_hotspot: hotspot, ..self };
                match s.attached(sid) {
                    None => quiet(s),
                    Some(buffer) => {
                        let shown: Seq<Emit> = match content {
                            Some(pb) => s.present_cursor(pb, display).out,
                            None => Seq::empty(),
                        };
                        Step {
                            state: s.with_surface(
                                sid,
                                SurfaceRec { pending_buffer: None, ..s.surfaces[sid] },
                            ),
                            out: shown.push(Emit::ReleaseBuffer { buffer }),
                        }
                    },
                }
            },
        }
    }

    /// A toplevel's icon: shown at once where the window exists, else kept for later.
    pub open spec fn set_icon(self, tl: u64, icon: PixelBuf) -> Step {
        let t = self.toplevels[tl];
        if !self.toplevels.contains_key(tl) {
            quiet(self)
        } else if t.created_window {
            Step {
                state: self,
                out: seq![
                    post(
                        WinCmd::SetIcon {
                            id: t.window_id,
                            width: icon.width,
                            height: icon.height,
                            stride: icon.stride,
                            pixels: icon.bytes,
                        },
                    ),
                ],
            }
        } else {
            quiet(
                StateView {
                    icons: self.icons.insert(
                        tl,
                        IconPixels {
                            width: icon.width,
                            height: icon.height,
                            stride: icon.stride,
                            pixels: icon.bytes,
                        },
                    ),
                    ..self
                },
            )
        }
    }
}

/// A command where a condition holds.
pub open spec fn post_if(b: bool, cmd: WinCmd) -> Seq<Emit> {
    if b {
        seq![post(cmd)]
    } else {
        Seq::empty()
    }
}

/// The end of a window that exists.
pub open spec fn destroyed_if(b: bool, window_id: u32) -> Seq<Emit> {
    post_if(b, WinCmd::Destroy { id: window_id })
}

} // verus!
