//! The compositor's state and what each client request and each input event does.
//!
//! Protocol objects are known by ids. What is to be sent to clients and to the
//! windowing side comes out as a sequence of `Emit`s.

pub mod bridges;
pub mod clipboard;
pub mod color_management;
pub mod commit;
pub mod commit_laws;
pub mod focus;
pub mod globals;
pub mod handlers;
pub mod input_laws;
pub mod laws;
pub mod mimes;
pub mod names;
pub mod primary_selection;
pub mod request_laws;
pub mod requests;
pub mod subsurface;

use crate::cmd::{ColorDesc, WinCmd};
use crate::idmap::IdMap;
use crate::positioner::PositionerState;
use vstd::prelude::*;
use vstd::string::*;

verus! {

/// A surface and the client that it belongs to.
#[derive(Clone, Copy, PartialEq, Eq, Debug, Structural)]
pub struct SurfaceRef {
    pub id: u64,
    pub client: u64,
}

/// A pointer or a keyboard object of a client.
#[derive(Clone, Copy, PartialEq, Eq, Debug, Structural)]
pub struct Device {
    pub id: u64,
    pub client: u64,
    pub version: u32,
}

/// What is known of a surface.
#[derive(Clone, Copy, Debug)]
pub struct SurfaceRec {
    /// The buffer that was attached since the last commit.
    pub pending_buffer: Option<u64>,
    pub window_id: Option<u32>,
    /// The content rectangle inside the buffer: origin.
    pub geometry_offset: (i32, i32),
    /// The content rectangle inside the buffer: size.
    pub geometry_size: (i32, i32),
    /// Logical size set through a viewport.
    pub viewport_dst: Option<(i32, i32)>,
    /// Color that takes effect with the next commit; `Some(None)` unsets it.
    pub pending_color: Option<Option<ColorDesc>>,
    /// Color in effect; none is ordinary SDR.
    pub color: Option<ColorDesc>,
}

/// A toplevel window.
#[derive(Clone, Copy, Debug)]
pub struct ToplevelRec {
    pub xdg_surface: u64,
    pub surface: SurfaceRef,
    /// Protocol version of the toplevel object.
    pub version: u32,
    pub window_id: u32,
    pub configured: bool,
    pub created_window: bool,
    pub maximized: bool,
    pub fullscreen: bool,
    /// The client wants a native titlebar.
    pub wants_ssd: bool,
}

/// A popup.
#[derive(Clone, Copy, Debug)]
pub struct PopupRec {
    pub xdg_surface: u64,
    pub surface: SurfaceRef,
    /// The parent's window, 0 where there is none.
    pub parent_window: u32,
    pub window_id: u32,
    pub x: i32,
    pub y: i32,
    pub x_flip: i32,
    pub y_flip: i32,
    pub constraint: u32,
    pub w: i32,
    pub h: i32,
    pub configured: bool,
    pub created_window: bool,
}

/// A docked bar or panel.
#[derive(Clone, Copy, Debug)]
pub struct LayerSurfaceRec {
    pub surface: SurfaceRef,
    pub window_id: u32,
    /// Anchor bits: top 1, bottom 2, left 4, right 8.
    pub anchor: u32,
    /// Wanted size; 0 spans the output.
    pub size: (u32, u32),
    /// Margins (top, right, bottom, left).
    pub margin: (i32, i32, i32, i32),
    /// How much the bar reserves from its edge.
    pub exclusive: i32,
    /// 0 where the surface takes no keyboard input.
    pub keyboard_interactivity: u32,
    pub configured: bool,
    pub created_window: bool,
}

/// A surface that is shown inside another one.
#[derive(Clone, Copy, Debug)]
pub struct SubsurfaceRec {
    pub surface: u64,
    pub parent: u64,
    pub x: i32,
    pub y: i32,
    /// The key of its layer on the windowing side.
    pub sub_id: u32,
}

/// Icon pixels of a toplevel.
#[derive(Debug)]
pub struct IconPixels {
    pub width: i32,
    pub height: i32,
    pub stride: i32,
    pub pixels: Vec<u8>,
}

/// An event on a pointer object. Coordinates are in 1/256 of a point.
#[derive(Clone, Copy, PartialEq, Eq, Debug, Structural)]
pub enum PointerEvent {
    Enter { serial: u32, surface: u64, x: i64, y: i64 },
    Leave { serial: u32, surface: u64 },
    Motion { time: u32, x: i64, y: i64 },
    Button { serial: u32, time: u32, button: u32, pressed: bool },
    Axis { time: u32, vertical: bool, value: i64 },
    Frame,
}

/// An event on a keyboard object.
#[derive(Clone, Copy, PartialEq, Eq, Debug, Structural)]
pub enum KeyboardEvent {
    Enter { serial: u32, surface: u64 },
    Leave { serial: u32, surface: u64 },
    Key { serial: u32, time: u32, keycode: u32, pressed: bool },
    Modifiers { serial: u32, depressed: u32, locked: u32 },
}

/// What is to be sent or done.
#[derive(Debug, PartialEq, Eq)]
#[allow(inconsistent_fields)]
pub enum Emit {
    /// A command to the windowing side.
    Post { cmd: WinCmd },
    /// A toplevel's window belongs to this application from now on; the names tell
    /// how the application is called.
    AssignWindow { win_id: u32, app_key: u32, app_id: String, title: String },
    /// A docked bar's window belongs to this application from now on.
    AssignBar { win_id: u32, app_key: u32 },
    /// The insets that docked bars reserve (top, right, bottom, left).
    SetInsets { top: i32, right: i32, bottom: i32, left: i32 },
    Pointer { id: u64, event: PointerEvent },
    Keyboard { id: u64, event: KeyboardEvent },
    /// The window actions that are supported: menu, maximize, fullscreen, minimize.
    WmCapabilities { toplevel: u64 },
    ToplevelConfigure {
        toplevel: u64,
        width: i32,
        height: i32,
        activated: bool,
        maximized: bool,
        fullscreen: bool,
    },
    SurfaceConfigure { xdg_surface: u64, serial: u32 },
    PopupConfigure { popup: u64, x: i32, y: i32, w: i32, h: i32 },
    LayerConfigure { layer: u64, serial: u32, width: u32, height: u32 },
    PopupDone { popup: u64 },
    ReleaseBuffer { buffer: u64 },
    FrameDone { callback: u64, time: u32 },
    Presented { feedback: u64, sec_hi: u32, sec_lo: u32, nsec: u32, refresh: u32 },
    /// Offer the pasteboard to a client.
    AdvertiseClipboard { client: u64 },
    /// The client broke the protocol: a surface as its own parent.
    BadSurface,
    /// An activation token is ready.
    TokenDone { token: u64, serial: u32 },
    PreferredScale { surface: u64, scale: i32 },
}

/// What the compositor knows.
pub struct StateView {
    pub next_window_id: u32,
    pub next_serial: u32,
    /// The application key of each client.
    pub client_app_ids: Map<u64, u32>,
    pub surfaces: Map<u64, SurfaceRec>,
    pub toplevels: Map<u64, ToplevelRec>,
    pub titles: Map<u64, String>,
    pub app_ids: Map<u64, String>,
    /// Icons that arrived before their window existed.
    pub icons: Map<u64, IconPixels>,
    pub surface_toplevel: Map<u64, u64>,
    /// The surface of each window.
    pub window_surface: Map<u64, SurfaceRef>,
    pub positioners: Map<u64, PositionerState>,
    pub popups: Map<u64, PopupRec>,
    pub surface_popup: Map<u64, u64>,
    pub pointers: Seq<Device>,
    pub keyboards: Seq<Device>,
    pub pointer_focus: Option<u32>,
    pub focus_window: Option<u32>,
    /// Frame callbacks that wait, each with its surface.
    pub callbacks: Seq<(u64, u64)>,
    /// Presentation feedback that waits.
    pub feedbacks: Seq<u64>,
    pub cursor_surface: Option<u64>,
    pub cursor_hotspot: (i32, i32),
    pub subsurfaces: Map<u64, SubsurfaceRec>,
    pub surface_subsurface: Map<u64, u64>,
    pub layer_surfaces: Map<u64, LayerSurfaceRec>,
    pub surface_layer: Map<u64, u64>,
    /// The title of a window whose client sets none.
    pub default_title: String,
    /// The application id of a window whose client sets none.
    pub no_app_id: String,
}

/// The state after a request, and what came out.
pub struct Step {
    pub state: StateView,
    pub out: Seq<Emit>,
}

/// Two steps, one behind the other: `second` starts from where `first` ended.
pub open spec fn chain(first: Step, second: Step) -> Step {
    Step { state: second.state, out: first.out + second.out }
}

/// Nothing happens.
pub open spec fn quiet(state: StateView) -> Step {
    Step { state, out: Seq::empty() }
}

/// A command to the windowing side.
pub open spec fn post(cmd: WinCmd) -> Emit {
    Emit::Post { cmd }
}

impl StateView {
    /// Window ids are given out once, and roles lead back to their surfaces.
    pub open spec fn wf(self) -> bool {
        &&& self.roles_wf()
        &&& self.windows_wf()
        &&& self.default_title@ == "Wayland Window"@
        &&& self.no_app_id@ == Seq::<char>::empty()
        &&& self.apps_wf()
    }

    /// What a surface's role points to exists and points back.
    pub open spec fn roles_wf(self) -> bool {
        &&& forall|s: u64| #[trigger]
            self.surface_toplevel.contains_key(s) ==> self.toplevels.contains_key(
                self.surface_toplevel[s],
            ) && self.toplevels[self.surface_toplevel[s]].surface.id == s
        &&& forall|s: u64| #[trigger]
            self.surface_popup.contains_key(s) ==> self.popups.contains_key(self.surface_popup[s])
                && self.popups[self.surface_popup[s]].surface.id == s
        &&& forall|s: u64| #[trigger]
            self.surface_layer.contains_key(s) ==> self.layer_surfaces.contains_key(
                self.surface_layer[s],
            ) && self.layer_surfaces[self.surface_layer[s]].surface.id == s
        &&& forall|s: u64| #[trigger]
            self.surface_subsurface.contains_key(s) ==> self.subsurfaces.contains_key(
                self.surface_subsurface[s],
            ) && self.subsurfaces[self.surface_subsurface[s]].surface == s
        &&& forall|t: u64| #[trigger]
            self.toplevels.contains_key(t) ==> self.titles.contains_key(t)
                && self.app_ids.contains_key(t)
    }

    /// No two windows share an id, and every id was given out.
    pub open spec fn windows_wf(self) -> bool {
        &&& forall|a: u64| #[trigger]
            self.toplevels.contains_key(a) ==> self.toplevels[a].window_id < self.next_window_id
        &&& forall|a: u64| #[trigger]
            self.popups.contains_key(a) ==> self.popups[a].window_id < self.next_window_id
        &&& forall|a: u64| #[trigger]
            self.layer_surfaces.contains_key(a) ==> self.layer_surfaces[a].window_id
                < self.next_window_id
        &&& forall|a: u64, b: u64| #[trigger]
            self.toplevels.contains_key(a) && #[trigger] self.toplevels.contains_key(b)
                && self.toplevels[a].window_id == self.toplevels[b].window_id ==> a == b
        &&& forall|a: u64, b: u64| #[trigger]
            self.popups.contains_key(a) && #[trigger] self.popups.contains_key(b)
                && self.popups[a].window_id == self.popups[b].window_id ==> a == b
        &&& forall|a: u64, b: u64| #[trigger]
            self.layer_surfaces.contains_key(a) && #[trigger] self.layer_surfaces.contains_key(b)
                && self.layer_surfaces[a].window_id == self.layer_surfaces[b].window_id ==> a == b
        &&& forall|a: u64, b: u64| #[trigger]
            self.toplevels.contains_key(a) && #[trigger] self.popups.contains_key(b)
                ==> self.toplevels[a].window_id != self.popups[b].window_id
        &&& forall|a: u64, b: u64| #[trigger]
            self.toplevels.contains_key(a) && #[trigger] self.layer_surfaces.contains_key(b)
                ==> self.toplevels[a].window_id != self.layer_surfaces[b].window_id
        &&& forall|a: u64, b: u64| #[trigger]
            self.popups.contains_key(a) && #[trigger] self.layer_surfaces.contains_key(b)
                ==> self.popups[a].window_id != self.layer_surfaces[b].window_id
    }

    /// Application keys are small and not shared.
    pub open spec fn apps_wf(self) -> bool {
        &&& self.client_app_ids.dom().finite()
        &&& self.client_app_ids.len() <= u32::MAX
        &&& forall|c: u64| #[trigger]
            self.client_app_ids.contains_key(c) ==> self.client_app_ids[c]
                < self.client_app_ids.len()
        &&& forall|a: u64, b: u64| #[trigger]
            self.client_app_ids.contains_key(a) && #[trigger] self.client_app_ids.contains_key(b)
                && self.client_app_ids[a] == self.client_app_ids[b] ==> a == b
    }

    /// The state once a serial was used: `self.next_serial` is the one.
    pub open spec fn serial_used(self) -> StateView {
        StateView { next_serial: self.next_serial.wrapping_add(1), ..self }
    }

    /// The window of a surface that is a toplevel or a popup.
    pub open spec fn window_of(self, sid: u64) -> Option<u32> {
        if self.surface_toplevel.contains_key(sid) {
            Some(self.toplevels[self.surface_toplevel[sid]].window_id)
        } else if self.surface_popup.contains_key(sid) {
            Some(self.popups[self.surface_popup[sid]].window_id)
        } else {
            None
        }
    }
}

/// The compositor's state.
pub struct State {
    next_window_id: u32,
    next_serial: u32,
    client_app_ids: IdMap<u32>,
    surfaces: IdMap<SurfaceRec>,
    toplevels: IdMap<ToplevelRec>,
    titles: IdMap<String>,
    app_ids: IdMap<String>,
    icons: IdMap<IconPixels>,
    surface_toplevel: IdMap<u64>,
    window_surface: IdMap<SurfaceRef>,
    positioners: IdMap<PositionerState>,
    popups: IdMap<PopupRec>,
    surface_popup: IdMap<u64>,
    pointers: Vec<Device>,
    keyboards: Vec<Device>,
    pointer_focus: Option<u32>,
    focus_window: Option<u32>,
    callbacks: Vec<(u64, u64)>,
    feedbacks: Vec<u64>,
    cursor_surface: Option<u64>,
    cursor_hotspot: (i32, i32),
    subsurfaces: IdMap<SubsurfaceRec>,
    surface_subsurface: IdMap<u64>,
    layer_surfaces: IdMap<LayerSurfaceRec>,
    surface_layer: IdMap<u64>,
    default_title: String,
    no_app_id: String,
}

impl View for State {
    type V = StateView;

    closed spec fn view(&self) -> StateView {
        StateView {
            next_window_id: self.next_window_id,
            next_serial: self.next_serial,
            client_app_ids: self.client_app_ids@,
            surfaces: self.surfaces@,
            toplevels: self.toplevels@,
            titles: self.titles@,
            app_ids: self.app_ids@,
            icons: self.icons@,
            surface_toplevel: self.surface_toplevel@,
            window_surface: self.window_surface@,
            positioners: self.positioners@,
            popups: self.popups@,
            surface_popup: self.surface_popup@,
            pointers: self.pointers@,
            keyboards: self.keyboards@,
            pointer_focus: self.pointer_focus,
            focus_window: self.focus_window,
            callbacks: self.callbacks@,
            feedbacks: self.feedbacks@,
            cursor_surface: self.cursor_surface,
            cursor_hotspot: self.cursor_hotspot,
            subsurfaces: self.subsurfaces@,
            surface_subsurface: self.surface_subsurface@,
            layer_surfaces: self.layer_surfaces@,
            surface_layer: self.surface_layer@,
            default_title: self.default_title,
            no_app_id: self.no_app_id,
        }
    }
}

impl State {
    /// The tables are sound and fit together.
    pub closed spec fn wf(&self) -> bool {
        self.tables_wf() && self@.wf()
    }

    /// What `wf` says of the view.
    pub proof fn lemma_wf(&self)
        requires
            self.wf(),
        ensures
            self@.wf(),
    {
    }

    /// The tables are sound.
    pub closed spec fn tables_wf(&self) -> bool {
        &&& self.client_app_ids.wf()
        &&& self.surfaces.wf()
        &&& self.toplevels.wf()
        &&& self.titles.wf()
        &&& self.app_ids.wf()
        &&& self.icons.wf()
        &&& self.surface_toplevel.wf()
        &&& self.window_surface.wf()
        &&& self.positioners.wf()
        &&& self.popups.wf()
        &&& self.surface_popup.wf()
        &&& self.subsurfaces.wf()
        &&& self.surface_subsurface.wf()
        &&& self.layer_surfaces.wf()
        &&& self.surface_layer.wf()
    }

    /// A compositor without clients. Window ids and serials start at 1.
    pub fn new() -> (s: Self)
        ensures
            s.wf(),
            s@ == (StateView {
                next_window_id: 1,
                next_serial: 1,
                client_app_ids: Map::empty(),
                surfaces: Map::empty(),
                toplevels: Map::empty(),
                titles: Map::empty(),
                app_ids: Map::empty(),
                icons: Map::empty(),
                surface_toplevel: Map::empty(),
                window_surface: Map::empty(),
                positioners: Map::empty(),
                popups: Map::empty(),
                surface_popup: Map::empty(),
                pointers: Seq::empty(),
                keyboards: Seq::empty(),
                pointer_focus: None,
                focus_window: None,
                callbacks: Seq::empty(),
                feedbacks: Seq::empty(),
                cursor_surface: None,
                cursor_hotspot: (0, 0),
                subsurfaces: Map::empty(),
                surface_subsurface: Map::empty(),
                layer_surfaces: Map::empty(),
                surface_layer: Map::empty(),
                default_title: s@.default_title,
                no_app_id: s@.no_app_id,
            }),
    {
        State {
            next_window_id: 1,
            next_serial: 1,
            client_app_ids: IdMap::new(),
            surfaces: IdMap::new(),
            toplevels: IdMap::new(),
            titles: IdMap::new(),
            app_ids: IdMap::new(),
            icons: IdMap::new(),
            surface_toplevel: IdMap::new(),
            window_surface: IdMap::new(),
            positioners: IdMap::new(),
            popups: IdMap::new(),
            surface_popup: IdMap::new(),
            pointers: Vec::new(),
            keyboards: Vec::new(),
            pointer_focus: None,
            focus_window: None,
            callbacks: Vec::new(),
            feedbacks: Vec::new(),
            cursor_surface: None,
            cursor_hotspot: (0, 0),
            subsurfaces: IdMap::new(),
            surface_subsurface: IdMap::new(),
            layer_surfaces: IdMap::new(),
            surface_layer: IdMap::new(),
            default_title: String::from_str("Wayland Window"),
            no_app_id: String::new(),
        }
    }

    /// The next serial; serials wrap around.
    fn serial(&mut self) -> (s: u32)
        requires
            old(self).tables_wf(),
        ensures
            final(self).tables_wf(),
            s == old(self)@.next_serial,
            final(self)@ == old(self)@.serial_used(),
    {
        let s: u32 = self.next_serial;
        self.next_serial = s.wrapping_add(1);
        s
    }

    /// Whether window ids and application keys are left to give out.
    pub fn has_room(&self) -> (b: bool)
        requires
            self.wf(),
        ensures
            b == (self@.next_window_id < u32::MAX && self@.client_app_ids.len() < u32::MAX),
    {
        self.next_window_id < 0xffff_ffff && (self.client_app_ids.len() as u64) < 0xffff_ffff
    }

    /// Whether an object id has no role yet.
    pub fn is_fresh(&self, id: u64) -> (b: bool)
        requires
            self.wf(),
        ensures
            b == !(self@.toplevels.contains_key(id) || self@.popups.contains_key(id)
                || self@.layer_surfaces.contains_key(id) || self@.subsurfaces.contains_key(id)),
    {
        !(self.toplevels.contains(id) || self.popups.contains(id) || self.layer_surfaces.contains(
            id,
        ) || self.subsurfaces.contains(id))
    }

    /// The window of a surface, whether it is a toplevel or a popup.
    pub fn window_for_surface(&self, sid: u64) -> (r: Option<u32>)
        requires
            self.wf(),
        ensures
            r == self@.window_of(sid),
    {
        proof {
            assert(self@.roles_wf());
        }
        if let Some(tl) = self.surface_toplevel.get(sid) {
            return match self.toplevels.get(*tl) {
                Some(t) => Some(t.window_id),
                None => None,
            };
        }
        if let Some(pp) = self.surface_popup.get(sid) {
            return match self.popups.get(*pp) {
                Some(p) => Some(p.window_id),
                None => None,
            };
        }
        None
    }

    /// The buffer that was attached to a surface since its last commit.
    pub fn pending_buffer(&self, sid: u64) -> (r: Option<u64>)
        requires
            self.wf(),
        ensures
            r == if self@.surfaces.contains_key(sid) {
                self@.surfaces[sid].pending_buffer
            } else {
                None
            },
    {
        match self.surfaces.get(sid) {
            Some(s) => s.pending_buffer,
            None => None,
        }
    }
}

} // verus!
