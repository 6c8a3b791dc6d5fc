//! What holds of client requests.

use super::handlers::best_icon;
use super::requests::{
    insets_of, not_of, reserved, zone, Edge, LayerRequest, PositionerRequest, ToplevelRequest,
};
use super::{
    quiet, Emit, LayerSurfaceRec, StateView, SurfaceRec, SurfaceRef, ToplevelRec,
};
use crate::cmd::{ColorDesc, PixelFormat, WinCmd};
use crate::input::Display;
use crate::positioner::PositionerState;
use crate::shm::PixelBuf;
use vstd::prelude::*;

verus! {

/// A title is kept and, where there is a window, shown on it.
pub proof fn lemma_title_is_kept_and_shown(s: StateView, tl: u64, title: String)
    requires
        s.toplevels.contains_key(tl),
    ensures
        ({
            let t = s.toplevel_request(tl, ToplevelRequest::SetTitle { title });
            &&& t.state.titles[tl] == title
            &&& forall|k: u64| k != tl ==> #[trigger] t.state.titles[k] == s.titles[k]
            &&& t.state == (StateView { titles: t.state.titles, ..s })
            &&& t.out == if s.toplevels[tl].created_window {
                seq![
                    Emit::Post {
                        cmd: WinCmd::Title { id: s.toplevels[tl].window_id, title },
                    },
                ]
            } else {
                Seq::empty()
            }
        }),
{
}

/// An application id is kept for the window that it belongs to, and shown nowhere yet.
pub proof fn lemma_app_id_is_kept(s: StateView, tl: u64, app_id: String)
    requires
        s.toplevels.contains_key(tl),
    ensures
        ({
            let t = s.toplevel_request(tl, ToplevelRequest::SetAppId { app_id });
            &&& t.state.app_ids[tl] == app_id
            &&& forall|k: u64| k != tl ==> #[trigger] t.state.app_ids[k] == s.app_ids[k]
            &&& t.state == (StateView { app_ids: t.state.app_ids, ..s })
            &&& t.out == Seq::<Emit>::empty()
        }),
{
}

/// What a client asks of its window is asked of that very window: moving and resizing
/// only once it exists, the others at any time.
pub proof fn lemma_window_requests_go_to_the_window(
    s: StateView,
    tl: u64,
    edges: u32,
    on: bool,
    width: i32,
    height: i32,
)
    requires
        s.toplevels.contains_key(tl),
    ensures
        ({
            let r = s.toplevels[tl];
            let id = r.window_id;
            let there = r.created_window;
            let move_out = s.toplevel_request(tl, ToplevelRequest::Move);
            let resize = s.toplevel_request(tl, ToplevelRequest::Resize { edges });
            let small = s.toplevel_request(tl, ToplevelRequest::SetMinSize { width, height });
            let large = s.toplevel_request(tl, ToplevelRequest::SetMaxSize { width, height });
            let minimized = s.toplevel_request(tl, ToplevelRequest::SetMinimized);
            let modal = s.toplevel_request(tl, ToplevelRequest::SetModal { modal: on });
            &&& there ==> move_out.out == seq![Emit::Post { cmd: WinCmd::StartMove { id } }]
            &&& there ==> resize.out == seq![Emit::Post { cmd: WinCmd::StartResize { id, edges } }]
            &&& !there ==> move_out == quiet(s) && resize == quiet(s)
            &&& small.out == seq![Emit::Post { cmd: WinCmd::SetMinSize { id, width, height } }]
            &&& large.out == seq![Emit::Post { cmd: WinCmd::SetMaxSize { id, width, height } }]
            &&& minimized.out == seq![Emit::Post { cmd: WinCmd::Minimize { id } }]
            &&& modal.out == seq![Emit::Post { cmd: WinCmd::SetModal { id, modal: on } }]
            &&& move_out.state == s && resize.state == s && small.state == s && large.state == s
            &&& minimized.state == s && modal.state == s
        }),
{
}

/// A window that is maximized or made fullscreen is so until it is unset: the state is
/// kept with its toplevel, the other state is not touched, and the window is told.
pub proof fn lemma_fill_state_is_kept(s: StateView, tl: u64, on: bool)
    requires
        s.toplevels.contains_key(tl),
    ensures
        ({
            let r = s.toplevels[tl];
            let m = s.toplevel_request(tl, ToplevelRequest::SetMaximized { on });
            let f = s.toplevel_request(tl, ToplevelRequest::SetFullscreen { on });
            &&& m.state.toplevels == s.toplevels.insert(tl, ToplevelRec { maximized: on, ..r })
            &&& m.state == (StateView { toplevels: m.state.toplevels, ..s })
            &&& m.out == seq![Emit::Post { cmd: WinCmd::Maximize { id: r.window_id, on } }]
            &&& f.state.toplevels == s.toplevels.insert(tl, ToplevelRec { fullscreen: on, ..r })
            &&& f.state == (StateView { toplevels: f.state.toplevels, ..s })
            &&& f.out == seq![Emit::Post { cmd: WinCmd::Fullscreen { id: r.window_id, on } }]
        }),
{
}

/// A client that asks for a native titlebar gets one when its window is created.
pub proof fn lemma_decoration_reaches_the_window(s: StateView, tl: u64, sid: u64, pb: PixelBuf)
    requires
        s.wf(),
        s.toplevels.contains_key(tl),
        s.surface_toplevel.contains_key(sid),
        s.surface_toplevel[sid] == tl,
        !s.toplevels[tl].created_window,
    ensures
        ({
            let t = s.toplevel_request(tl, ToplevelRequest::Decorate);
            &&& t.out == Seq::<Emit>::empty()
            &&& t.state.present(sid, pb).out[1] matches Emit::Post {
                cmd: WinCmd::Create { decorated, .. },
            } && decorated
        }),
{
}

/// Requests on a toplevel that is not known do nothing.
pub proof fn lemma_unknown_toplevel_is_ignored(s: StateView, tl: u64, req: ToplevelRequest)
    requires
        !s.toplevels.contains_key(tl),
    ensures
        s.toplevel_request(tl, req) == quiet(s),
{
}

/// A toplevel's end takes its window, where it had one, and all that was kept of it.
pub proof fn lemma_toplevel_ends_with_its_window(s: StateView, tl: u64)
    requires
        s.wf(),
        s.toplevels.contains_key(tl),
    ensures
        ({
            let r = s.toplevels[tl];
            let t = s.toplevel_request(tl, ToplevelRequest::Destroy);
            &&& t == s.reap_toplevel(tl)
            &&& t.out == if r.created_window {
                seq![Emit::Post { cmd: WinCmd::Destroy { id: r.window_id } }]
            } else {
                Seq::empty()
            }
            &&& !t.state.toplevels.contains_key(tl)
            &&& !t.state.titles.contains_key(tl)
            &&& !t.state.app_ids.contains_key(tl)
            &&& !t.state.icons.contains_key(tl)
            &&& !t.state.surface_toplevel.contains_key(r.surface.id)
            &&& !t.state.window_surface.contains_key(r.window_id as u64)
            &&& forall|k: u64|
                k != tl ==> t.state.toplevels.contains_key(k) == #[trigger] s.toplevels.contains_key(
                    k,
                )
            &&& t.state.popups == s.popups && t.state.layer_surfaces == s.layer_surfaces
            &&& t.state.surfaces == s.surfaces
        }),
{
}

/// A new toplevel is the role of its surface, has a window id that no window had, and
/// starts out plain: not configured, not shown, neither maximized nor fullscreen.
pub proof fn lemma_new_toplevel_starts_plain(
    s: StateView,
    tl: u64,
    xdg_surface: u64,
    surface: SurfaceRef,
    version: u32,
)
    requires
        s.wf(),
        s.next_window_id < u32::MAX,
    ensures
        ({
            let t = s.get_toplevel(tl, xdg_surface, surface, version);
            let r = t.toplevels[tl];
            &&& t.surface_toplevel[surface.id] == tl
            &&& t.window_of(surface.id) == Some(s.next_window_id)
            &&& t.window_surface[s.next_window_id as u64] == surface
            &&& t.next_window_id == s.next_window_id + 1
            &&& r.window_id == s.next_window_id
            &&& r.xdg_surface == xdg_surface && r.surface == surface && r.version == version
            &&& !r.configured && !r.created_window && !r.maximized && !r.fullscreen && !r.wants_ssd
            &&& t.titles[tl]@ == "Wayland Window"@
            &&& t.app_ids[tl]@ == Seq::<char>::empty()
            &&& forall|k: u64|
                k != tl ==> #[trigger] t.toplevels.contains_key(k) == s.toplevels.contains_key(k)
        }),
{
}

/// A new popup belongs to its parent's window and is as large as its positioner says, or
/// 200 by 200 where that says nothing. It is not shown yet.
pub proof fn lemma_new_popup_belongs_to_its_parent(
    s: StateView,
    pp: u64,
    xdg_surface: u64,
    surface: SurfaceRef,
    parent: Option<u64>,
    positioner: u64,
)
    requires
        s.next_window_id < u32::MAX,
    ensures
        ({
            let t = s.get_popup(pp, xdg_surface, surface, parent, positioner);
            let r = t.popups[pp];
            let known = s.positioners.contains_key(positioner);
            let pos = s.positioners[positioner];
            &&& t.surface_popup[surface.id] == pp
            &&& t.window_surface[s.next_window_id as u64] == surface
            &&& t.next_window_id == s.next_window_id + 1
            &&& r.window_id == s.next_window_id
            &&& r.xdg_surface == xdg_surface && r.surface == surface
            &&& !r.configured && !r.created_window
            &&& parent is Some && s.window_of(parent->0) is Some ==> r.parent_window == s.window_of(
                parent->0,
            )->0
            &&& parent is None || s.window_of(parent->0) is None ==> r.parent_window == 0
            &&& known && pos.size != (0i32, 0i32) ==> (r.w, r.h) == pos.size
            &&& !known || pos.size == (0i32, 0i32) ==> r.w == 200 && r.h == 200
            &&& known ==> r.constraint == pos.constraint_adjustment
            &&& known && pos.size != (0i32, 0i32) ==> r.x == pos.spec_origin_x(false) as i32 && r.y
                == pos.spec_origin_y(false) as i32 && r.x_flip == pos.spec_origin_x(true) as i32
                && r.y_flip == pos.spec_origin_y(true) as i32
        }),
{
}

/// A new bar is the role of its surface, has a window id that no window had, and starts
/// out at no edge, without a size, a zone or the keyboard.
pub proof fn lemma_new_bar_starts_plain(s: StateView, ls: u64, surface: SurfaceRef)
    requires
        s.next_window_id < u32::MAX,
    ensures
        ({
            let t = s.get_layer_surface(ls, surface);
            let r = t.layer_surfaces[ls];
            &&& t.surface_layer[surface.id] == ls
            &&& t.window_surface[s.next_window_id as u64] == surface
            &&& t.next_window_id == s.next_window_id + 1
            &&& r.window_id == s.next_window_id && r.surface == surface
            &&& r.anchor == 0 && r.size == (0u32, 0u32) && r.margin == (0i32, 0i32, 0i32, 0i32)
            &&& r.exclusive == 0 && r.keyboard_interactivity == 0
            &&& !r.configured && !r.created_window
        }),
{
}

/// What a client asks of its bar is kept as it was asked for, and nothing else of the
/// bar changes.
pub proof fn lemma_bar_requests_are_kept(
    s: StateView,
    ls: u64,
    size: (u32, u32),
    anchor: u32,
    margin: (i32, i32, i32, i32),
    zone: i32,
    mode: u32,
)
    requires
        s.layer_surfaces.contains_key(ls),
    ensures
        ({
            let l = s.layer_surfaces[ls];
            let a = s.layer_request(ls, LayerRequest::SetSize { width: size.0, height: size.1 });
            let b = s.layer_request(ls, LayerRequest::SetAnchor { anchor });
            let c = s.layer_request(
                ls,
                LayerRequest::SetMargin {
                    top: margin.0,
                    right: margin.1,
                    bottom: margin.2,
                    left: margin.3,
                },
            );
            let d = s.layer_request(ls, LayerRequest::SetExclusiveZone { zone });
            let e = s.layer_request(ls, LayerRequest::SetKeyboardInteractivity { mode });
            &&& a.state.layer_surfaces == s.layer_surfaces.insert(ls, LayerSurfaceRec { size, ..l })
            &&& b.state.layer_surfaces == s.layer_surfaces.insert(
                ls,
                LayerSurfaceRec { anchor, ..l },
            )
            &&& c.state.layer_surfaces == s.layer_surfaces.insert(
                ls,
                LayerSurfaceRec { margin, ..l },
            )
            &&& d.state.layer_surfaces == s.layer_surfaces.insert(
                ls,
                LayerSurfaceRec { exclusive: zone, ..l },
            )
            &&& e.state.layer_surfaces == s.layer_surfaces.insert(
                ls,
                LayerSurfaceRec { keyboard_interactivity: mode, ..l },
            )
            &&& a.out == Seq::<Emit>::empty() && c.out == Seq::<Emit>::empty() && e.out
                == Seq::<Emit>::empty()
            &&& b.out == seq![insets_of(b.state.layer_surfaces)]
            &&& d.out == seq![insets_of(d.state.layer_surfaces)]
        }),
{
}

/// A single bar reserves its zone from the edge that it is docked to, and from no other:
/// a bar at the top reserves at the top. Where it is anchored to both edges of an axis,
/// or its zone is not positive, it reserves nothing there. Anchor bits are those of the
/// protocol: top 1, bottom 2, left 4, right 8.
pub proof fn lemma_bar_reserves_at_its_edge(ls: u64, l: LayerSurfaceRec)
    ensures
        ({
            let one = Map::<u64, LayerSurfaceRec>::empty().insert(ls, l);
            let z = l.exclusive;
            let top = l.anchor & 1u32 != 0;
            let bottom = l.anchor & 2u32 != 0;
            let left = l.anchor & 4u32 != 0;
            let right = l.anchor & 8u32 != 0;
            insets_of(one) matches Emit::SetInsets { top: t, right: r, bottom: b, left: f } && t
                == (if z > 0 && top && !bottom {
                z
            } else {
                0
            }) && b == (if z > 0 && bottom && !top {
                z
            } else {
                0
            }) && f == (if z > 0 && left && !right {
                z
            } else {
                0
            }) && r == (if z > 0 && right && !left {
                z
            } else {
                0
            })
        }),
{
    let one = Map::<u64, LayerSurfaceRec>::empty().insert(ls, l);
    assert(one.contains_key(ls));
    super::requests::lemma_reserved_is_largest(one, Edge::Top);
    super::requests::lemma_reserved_is_largest(one, Edge::Bottom);
    super::requests::lemma_reserved_is_largest(one, Edge::Left);
    super::requests::lemma_reserved_is_largest(one, Edge::Right);
}

/// Bars at the same edge do not add up: two sets of bars together reserve what the
/// larger reserves.
pub proof fn lemma_bars_overlap_at_an_edge(
    a: Map<u64, LayerSurfaceRec>,
    ls: u64,
    l: LayerSurfaceRec,
    edge: Edge,
)
    requires
        !a.contains_key(ls),
    ensures
        ({
            let one = Map::<u64, LayerSurfaceRec>::empty().insert(ls, l);
            let both = a.insert(ls, l);
            reserved(both, edge) == if reserved(a, edge) < reserved(one, edge) {
                reserved(one, edge)
            } else {
                reserved(a, edge)
            }
        }),
{
    let one = Map::<u64, LayerSurfaceRec>::empty().insert(ls, l);
    let both = a.insert(ls, l);
    super::requests::lemma_reserved_is_largest(a, edge);
    super::requests::lemma_reserved_is_largest(one, edge);
    super::requests::lemma_reserved_is_largest(both, edge);
    assert(one.contains_key(ls) && both.contains_key(ls));
    let v = reserved(both, edge);
    let ra = reserved(a, edge);
    let ro = reserved(one, edge);
    if ra > 0 {
        let k = choose|k: u64| #[trigger] a.contains_key(k) && zone(a[k], edge) == ra;
        assert(both.contains_key(k));
    }
    if v > 0 {
        let k = choose|k: u64| #[trigger] both.contains_key(k) && zone(both[k], edge) == v;
        assert(k == ls || a.contains_key(k));
    }
}

/// A buffer that is attached is the one that the next commit gives back, and attaching
/// another replaces it; other surfaces keep theirs.
pub proof fn lemma_attached_buffer_is_committed(
    s: StateView,
    sid: u64,
    buffer: u64,
    other: u64,
    content: Option<PixelBuf>,
    display: Display,
)
    requires
        s.surfaces.contains_key(sid),
        other != sid,
    ensures
        ({
            let t = s.attach(sid, Some(buffer));
            let out = t.commit(sid, content, display).out;
            &&& out.last() == (Emit::ReleaseBuffer { buffer })
            &&& t.attach(sid, None).attached(sid) is None
            &&& t.attached(other) == s.attached(other)
            &&& t == (StateView { surfaces: t.surfaces, ..s })
        }),
{
}

/// A viewport's size is the one that the surface's pixels are shown at, a size that is
/// not positive takes it back, and nothing else of the surface changes.
pub proof fn lemma_viewport_sets_the_size(s: StateView, sid: u64, width: i32, height: i32)
    requires
        s.surfaces.contains_key(sid),
    ensures
        ({
            let t = s.set_destination(sid, width, height);
            &&& width > 0 && height > 0 ==> t.look(sid).dst == (width, height)
            &&& width <= 0 || height <= 0 ==> t.look(sid).dst == (0i32, 0i32)
            &&& t.surfaces == s.surfaces.insert(
                sid,
                SurfaceRec { viewport_dst: t.surfaces[sid].viewport_dst, ..s.surfaces[sid] },
            )
            &&& t == (StateView { surfaces: t.surfaces, ..s })
        }),
{
}

/// A content rectangle is kept as it was given.
pub proof fn lemma_geometry_is_kept(
    s: StateView,
    sid: u64,
    x: i32,
    y: i32,
    width: i32,
    height: i32,
)
    requires
        s.surfaces.contains_key(sid),
    ensures
        ({
            let t = s.set_window_geometry(sid, x, y, width, height);
            &&& t.look(sid).offset == (x, y)
            &&& t.look(sid).size == (width, height)
            &&& t.look(sid).dst == s.look(sid).dst && t.look(sid).color == s.look(sid).color
            &&& t.attached(sid) == s.attached(sid)
            &&& t == (StateView { surfaces: t.surfaces, ..s })
        }),
{
}

/// A staged color is what the next commit shows, and stays so for the commits after it.
pub proof fn lemma_staged_color_is_shown(
    s: StateView,
    sid: u64,
    color: Option<ColorDesc>,
    content: Option<PixelBuf>,
    display: Display,
)
    requires
        s.surfaces.contains_key(sid),
        s.surfaces[sid].pending_buffer is None,
    ensures
        ({
            let t = s.stage_color(sid, color);
            let once = t.commit(sid, content, display).state;
            let twice = once.commit(sid, content, display).state;
            &&& t.look(sid).color == s.look(sid).color
            &&& once.look(sid).color == color
            &&& twice.look(sid).color == color
        }),
{
    let t = s.stage_color(sid, color);
    let once = t.commit(sid, content, display).state;
    assert(once.surfaces == t.buffer_taken(sid).surfaces);
    let twice = once.commit(sid, content, display).state;
    assert(twice.surfaces == once.buffer_taken(sid).surfaces);
}

/// A frame callback that waits is done at the next refresh, at that time, in its turn,
/// and just once.
pub proof fn lemma_callback_is_done_at_the_refresh(
    s: StateView,
    sid: u64,
    callback: u64,
    time: u32,
    sec: u64,
    nsec: u32,
)
    requires
        s.surfaces.contains_key(sid),
    ensures
        ({
            let n = s.callbacks.len() as int;
            let t = s.frame(sid, callback).vblank_tick(time, sec, nsec);
            let before = s.vblank_tick(time, sec, nsec);
            &&& t.out[n] == (Emit::FrameDone { callback, time })
            &&& t.out.len() == before.out.len() + 1
            &&& t.out.take(n) == before.out.take(n)
            &&& t.out.skip(n + 1) == before.out.skip(n)
            &&& t.state == before.state
            &&& t.state.vblank_tick(time, sec, nsec) == quiet(t.state)
        }),
{
    let n = s.callbacks.len() as int;
    let t = s.frame(sid, callback).vblank_tick(time, sec, nsec);
    let before = s.vblank_tick(time, sec, nsec);
    assert(t.out.take(n) =~= before.out.take(n));
    assert(t.out.skip(n + 1) =~= before.out.skip(n));
    assert(t.state.vblank_tick(time, sec, nsec).out =~= Seq::<Emit>::empty());
}

/// Presentation feedback that waits is told the time of the next refresh, with all of
/// its seconds, at 60 Hz, after the frame callbacks, and just once.
pub proof fn lemma_feedback_tells_the_time(
    s: StateView,
    feedback: u64,
    time: u32,
    sec: u64,
    nsec: u32,
)
    ensures
        ({
            let t = s.feedback(feedback).vblank_tick(time, sec, nsec);
            let before = s.vblank_tick(time, sec, nsec);
            &&& t.out.len() == before.out.len() + 1
            &&& t.out.drop_last() == before.out
            &&& t.out.last() matches Emit::Presented {
                feedback: f,
                sec_hi,
                sec_lo,
                nsec: n,
                refresh,
            } && f == feedback && sec_hi * 0x1_0000_0000 + sec_lo == sec && n == nsec && 60
                * refresh <= 1_000_000_020 && 60 * refresh >= 999_999_980
            &&& t.state.feedbacks == Seq::<u64>::empty()
        }),
{
    let t = s.feedback(feedback).vblank_tick(time, sec, nsec);
    let before = s.vblank_tick(time, sec, nsec);
    assert(t.out.drop_last() =~= before.out);
}

/// A surface as its own parent is refused and changes nothing. Any other pair makes the
/// one a subsurface of the other, at its origin until it is moved, and it stays where it
/// was moved to.
pub proof fn lemma_subsurface_gets_its_parent(
    s: StateView,
    sub: u64,
    surface: u64,
    parent: u64,
    x: i32,
    y: i32,
)
    requires
        s.next_window_id < u32::MAX,
    ensures
        ({
            let t = s.get_subsurface(sub, surface, parent);
            let r = t.state.subsurfaces[sub];
            let moved = t.state.set_subsurface_position(sub, x, y).subsurfaces[sub];
            &&& surface == parent ==> t.out == seq![Emit::BadSurface] && t.state == s
            &&& surface != parent ==> t.out == Seq::<Emit>::empty() && t.state.surface_subsurface
                == s.surface_subsurface.insert(surface, sub) && r.surface == surface && r.parent
                == parent && r.x == 0 && r.y == 0 && r.sub_id == s.next_window_id
            &&& surface != parent ==> moved.x == x && moved.y == y && moved.surface == surface
                && moved.parent == parent && moved.sub_id == r.sub_id
        }),
{
}

/// A subsurface's end takes its layer out of the window that it was shown in.
pub proof fn lemma_subsurface_ends_with_its_layer(s: StateView, sub: u64)
    requires
        s.subsurfaces.contains_key(sub),
    ensures
        ({
            let r = s.subsurfaces[sub];
            let t = s.reap_subsurface(sub);
            &&& !t.state.subsurfaces.contains_key(sub)
            &&& !t.state.surface_subsurface.contains_key(r.surface)
            &&& match s.resolve_subsurface(r.surface) {
                Some((window, _, _, _)) => t.out == seq![
                    Emit::Post { cmd: WinCmd::SubDestroy { window_id: window, sub_id: r.sub_id } },
                ],
                None => t.out == Seq::<Emit>::empty(),
            }
        }),
{
}

/// What a client says to its positioner is what the positioner holds, whatever it held
/// before, and the rest of it stays.
pub proof fn lemma_positioner_takes_each_word(
    s: StateView,
    id: u64,
    a: i32,
    b: i32,
    c: i32,
    d: i32,
    word: u32,
)
    requires
        s.positioners.contains_key(id),
    ensures
        ({
            let p = s.positioners[id];
            let size = s.positioner_request(id, PositionerRequest::SetSize { width: a, height: b });
            let rect = s.positioner_request(
                id,
                PositionerRequest::SetAnchorRect { x: a, y: b, width: c, height: d },
            );
            let off = s.positioner_request(id, PositionerRequest::SetOffset { x: a, y: b });
            let anchor = s.positioner_request(id, PositionerRequest::SetAnchor { anchor: word });
            let gravity = s.positioner_request(id, PositionerRequest::SetGravity { gravity: word });
            let adjust = s.positioner_request(
                id,
                PositionerRequest::SetConstraintAdjustment { adjustment: word },
            );
            &&& size.positioners[id] == (PositionerState { size: (a, b), ..p })
            &&& rect.positioners[id] == (PositionerState { anchor_rect: (a, b, c, d), ..p })
            &&& off.positioners[id] == (PositionerState { offset: (a, b), ..p })
            &&& anchor.positioners[id] == (PositionerState { anchor: word, ..p })
            &&& gravity.positioners[id] == (PositionerState { gravity: word, ..p })
            &&& adjust.positioners[id] == (PositionerState { constraint_adjustment: word, ..p })
            &&& forall|k: u64| k != id ==> #[trigger] size.positioners[k] == s.positioners[k]
        }),
{
}

/// A grab names the window of the popup that asks for it.
pub proof fn lemma_grab_names_the_popup(s: StateView, pp: u64)
    ensures
        s.popups.contains_key(pp) ==> s.popup_grab(pp) == seq![
            Emit::Post { cmd: WinCmd::SetGrab { window: Some(s.popups[pp].window_id) } },
        ],
        !s.popups.contains_key(pp) ==> s.popup_grab(pp) == Seq::<Emit>::empty(),
{
}

/// Activating a surface activates its own window: a toplevel's or a popup's.
pub proof fn lemma_activation_names_the_window(s: StateView, sid: u64)
    ensures
        s.surface_toplevel.contains_key(sid) ==> s.activate(sid) == seq![
            Emit::Post {
                cmd: WinCmd::Activate { id: s.toplevels[s.surface_toplevel[sid]].window_id },
            },
        ],
        !s.surface_toplevel.contains_key(sid) && s.surface_popup.contains_key(sid) ==> s.activate(
            sid,
        ) == seq![
            Emit::Post { cmd: WinCmd::Activate { id: s.popups[s.surface_popup[sid]].window_id } },
        ],
        !s.surface_toplevel.contains_key(sid) && !s.surface_popup.contains_key(sid) ==> s.activate(
            sid,
        ) == Seq::<Emit>::empty(),
{
}

/// An icon is shown on its window, at once or when the window is created; it can be
/// taken back until then.
pub proof fn lemma_icon_reaches_its_window(s: StateView, tl: u64, icon: PixelBuf)
    requires
        s.toplevels.contains_key(tl),
    ensures
        ({
            let r = s.toplevels[tl];
            let t = s.set_icon(tl, icon);
            &&& r.created_window ==> t.state == s && t.out == seq![
                Emit::Post {
                    cmd: WinCmd::SetIcon {
                        id: r.window_id,
                        width: icon.width,
                        height: icon.height,
                        stride: icon.stride,
                        pixels: icon.bytes,
                    },
                },
            ]
            &&& !r.created_window ==> t.out == Seq::<Emit>::empty() && t.state.icons.contains_key(
                tl,
            ) && t.state.icons[tl].width == icon.width && t.state.icons[tl].height == icon.height
                && t.state.icons[tl].stride == icon.stride && t.state.icons[tl].pixels == icon.bytes
            &&& !t.state.reset_icon(tl).icons.contains_key(tl)
            &&& t.state.reset_icon(tl).toplevels == s.toplevels
        }),
{
}

/// A cursor without a surface is hidden. A surface that becomes the cursor is one from
/// then on, with the hotspot given; what waits on it is shown at once and goes back.
pub proof fn lemma_cursor_is_set_or_hidden(
    s: StateView,
    sid: u64,
    hotspot: (i32, i32),
    pb: PixelBuf,
    display: Display,
)
    ensures
        ({
            let hidden = s.set_cursor(None, hotspot, Some(pb), display);
            let shown = s.set_cursor(Some(sid), hotspot, Some(pb), display);
            &&& hidden.out == seq![Emit::Post { cmd: WinCmd::HideCursor }]
            &&& hidden.state == (StateView { cursor_surface: None, ..s })
            &&& shown.state.cursor_surface == Some(sid)
            &&& shown.state.cursor_hotspot == hotspot
            &&& s.attached(sid) is None ==> shown.out == Seq::<Emit>::empty()
            &&& s.attached(sid) is Some ==> shown.out == seq![
                Emit::Post {
                    cmd: WinCmd::SetCursorImage {
                        width: pb.width,
                        height: pb.height,
                        stride: pb.stride,
                        hotspot_x: hotspot.0,
                        hotspot_y: hotspot.1,
                        scale: display.spec_scale(),
                        pixels: pb.bytes,
                    },
                },
                Emit::ReleaseBuffer { buffer: s.attached(sid)->0 },
            ] && shown.state.attached(sid) is None
        }),
{
    let shown = s.set_cursor(Some(sid), hotspot, Some(pb), display);
    if s.attached(sid) is Some {
        assert(shown.out =~= seq![
            Emit::Post {
                cmd: WinCmd::SetCursorImage {
                    width: pb.width,
                    height: pb.height,
                    stride: pb.stride,
                    hotspot_x: hotspot.0,
                    hotspot_y: hotspot.1,
                    scale: display.spec_scale(),
                    pixels: pb.bytes,
                },
            },
            Emit::ReleaseBuffer { buffer: s.attached(sid)->0 },
        ]);
    }
}

/// The icon that is picked is one of those offered, in plain 8-bit pixels, and none of
/// those is larger; none is picked only where none is plain.
pub proof fn lemma_largest_plain_icon_is_picked(icons: Seq<PixelBuf>)
    ensures
        match best_icon(icons) {
            Some(i) => {
                &&& 0 <= i < icons.len()
                &&& icons[i].format == PixelFormat::Bgra8888
                &&& forall|j: int|
                    0 <= j < icons.len() && (#[trigger] icons[j]).format == PixelFormat::Bgra8888
                        ==> icons[j].width * icons[j].height <= icons[i].width * icons[i].height
            },
            None => forall|j: int|
                0 <= j < icons.len() ==> (#[trigger] icons[j]).format != PixelFormat::Bgra8888,
        },
    decreases icons.len(),
{
    if icons.len() > 0 {
        let rest = icons.drop_last();
        lemma_largest_plain_icon_is_picked(rest);
        assert(forall|j: int| 0 <= j < rest.len() ==> #[trigger] icons[j] == rest[j]);
    }
}

/// A surface's end takes all of its roles but that of a popup, which ends by itself; its
/// callbacks, and its use as the cursor.
pub proof fn lemma_surface_end_leaves_nothing(s: StateView, sid: u64)
    requires
        s.wf(),
    ensures
        ({
            let t = s.destroy_surface(sid).state;
            &&& !t.surfaces.contains_key(sid)
            &&& !t.surface_toplevel.contains_key(sid)
            &&& !t.surface_subsurface.contains_key(sid)
            &&& !t.surface_layer.contains_key(sid)
            &&& t.cursor_surface != Some(sid)
            &&& t.callbacks == s.callbacks.filter(not_of(sid))
            &&& t.popups == s.popups
        }),
{
    let a = s.surface_toplevel_gone(sid).state;
    let b = a.surface_subsurface_gone(sid).state;
    assert(s.roles_wf());
    if a.surface_subsurface.contains_key(sid) {
        assert(a.subsurfaces[a.surface_subsurface[sid]].surface == sid);
    }
    if b.surface_layer.contains_key(sid) {
        assert(b.layer_surfaces[b.surface_layer[sid]].surface.id == sid);
    }
}

/// A surface that ends takes its window along, whether toplevel or bar.
pub proof fn lemma_surface_end_destroys_its_window(s: StateView, sid: u64)
    requires
        s.wf(),
        !s.surface_subsurface.contains_key(sid),
    ensures
        ({
            let out = s.destroy_surface(sid).out;
            let t = s.toplevels[s.surface_toplevel[sid]];
            let l = s.layer_surfaces[s.surface_layer[sid]];
            &&& s.surface_toplevel.contains_key(sid) && t.created_window ==> out.len() > 0 && out[0]
                == (Emit::Post { cmd: WinCmd::Destroy { id: t.window_id } })
            &&& s.surface_layer.contains_key(sid) && l.created_window
                && !s.surface_toplevel.contains_key(sid) ==> out.len() == 2 && out[0]
                == (Emit::Post { cmd: WinCmd::Destroy { id: l.window_id } })
            &&& !s.surface_toplevel.contains_key(sid) && !s.surface_layer.contains_key(sid) ==> out
                == Seq::<Emit>::empty()
        }),
{
    assert(s.roles_wf());
    if !s.surface_toplevel.contains_key(sid) && !s.surface_layer.contains_key(sid) {
        assert(s.destroy_surface(sid).out =~= Seq::<Emit>::empty());
    }
}

/// A new surface is asked to be drawn at the display's scale, where its client can be
/// asked, and nothing is known of it.
pub proof fn lemma_new_surface_is_blank(s: StateView, sid: u64, version: u32, display: Display)
    ensures
        ({
            let t = s.create_surface(sid, version, display);
            let r = t.state.surfaces[sid];
            &&& t.state.surfaces.contains_key(sid)
            &&& r.pending_buffer is None && r.viewport_dst is None && r.pending_color is None
            &&& r.color is None && r.window_id is None
            &&& r.geometry_offset == (0i32, 0i32) && r.geometry_size == (0i32, 0i32)
            &&& version >= 6 ==> t.out == seq![
                Emit::PreferredScale { surface: sid, scale: display.spec_scale() },
            ]
            &&& version < 6 ==> t.out == Seq::<Emit>::empty()
        }),
{
}

} // verus!
