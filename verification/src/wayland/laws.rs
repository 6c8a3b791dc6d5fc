//! What holds of the compositor as a whole.

use super::focus::{to_keyboards, to_pointers};
use super::requests::insets_of;
use super::{post, quiet, Emit, KeyboardEvent, PointerEvent, StateView, SurfaceRec};
use crate::cmd::{ColorDesc, WinCmd};
use crate::input::{Display, InputEvent};
use crate::shm::PixelBuf;
use vstd::prelude::*;

verus! {

/// No client sees motion without an enter: motion over a window that does not have the
/// pointer leaves the old window, enters the new one, and only then moves.
pub proof fn lemma_motion_follows_enter(s: StateView, window_id: u32, x: i64, y: i64, time: u32)
    requires
        s.wf(),
        s.window_surface.contains_key(window_id as u64),
        s.pointer_focus != Some(window_id),
    ensures
        ({
            let t = s.process_input(InputEvent::PointerMotion { window_id, x, y }, time);
            let surface = s.window_surface[window_id as u64];
            &&& t.out == s.pointer_left().out + to_pointers(
                s.pointers,
                surface.client,
                PointerEvent::Enter {
                    serial: s.pointer_left().state.next_serial,
                    surface: surface.id,
                    x,
                    y,
                },
            ) + to_pointers(s.pointers, surface.client, PointerEvent::Motion { time, x, y })
            &&& t.state.pointer_focus == Some(window_id)
        }),
{
}

/// A client that has the pointer gets motion alone: no second enter.
pub proof fn lemma_no_second_enter(s: StateView, window_id: u32, x: i64, y: i64, time: u32)
    requires
        s.wf(),
        s.window_surface.contains_key(window_id as u64),
        s.pointer_focus == Some(window_id),
    ensures
        s.process_input(InputEvent::PointerMotion { window_id, x, y }, time).out == to_pointers(
            s.pointers,
            s.window_surface[window_id as u64].client,
            PointerEvent::Motion { time, x, y },
        ),
        s.process_input(InputEvent::PointerEnter { window_id, x, y }, time) == quiet(s),
{
    let ev = PointerEvent::Motion { time, x, y };
    let client = s.window_surface[window_id as u64].client;
    assert(Seq::<Emit>::empty() + to_pointers(s.pointers, client, ev) =~= to_pointers(
        s.pointers,
        client,
        ev,
    ));
}

/// Keyboard focus that is given twice is sent once, and one that is taken twice is
/// taken once.
pub proof fn lemma_focus_is_sent_once(s: StateView, window_id: u32, focused: bool, time: u32)
    requires
        s.wf(),
    ensures
        ({
            let ev = InputEvent::Focus { window_id, focused };
            let once = s.process_input(ev, time).state;
            once.process_input(ev, time) == quiet(once)
        }),
{
}

/// Keys reach the client of the focused window and nobody else: without a focused
/// window they reach nobody.
pub proof fn lemma_keys_follow_focus(s: StateView, keycode: u32, pressed: bool, time: u32)
    requires
        s.wf(),
    ensures
        ({
            let t = s.process_input(InputEvent::Key { keycode, pressed }, time);
            if s.focus_window is Some && s.window_surface.contains_key(s.focus_window->0 as u64) {
                t.out == to_keyboards(
                    s.keyboards,
                    s.window_surface[s.focus_window->0 as u64].client,
                    KeyboardEvent::Key { serial: s.next_serial, time, keycode, pressed },
                )
            } else {
                t == quiet(s)
            }
        }),
{
}

/// A resize asks the client to repaint before any window grows: nothing goes to the
/// windowing side.
pub proof fn lemma_resize_asks_client_first(
    s: StateView,
    window_id: u32,
    width: i32,
    height: i32,
    time: u32,
)
    requires
        s.wf(),
    ensures
        ({
            let t = s.process_input(InputEvent::Resize { window_id, width, height }, time);
            forall|i: int| 0 <= i < t.out.len() ==> !(#[trigger] t.out[i] is Post)
        }),
{
}

/// A toplevel's window is destroyed once, however often its end is reported.
pub proof fn lemma_toplevel_is_destroyed_once(s: StateView, tl: u64)
    requires
        s.wf(),
    ensures
        ({
            let gone = s.reap_toplevel(tl);
            &&& gone.out.len() <= 1
            &&& gone.state.reap_toplevel(tl) == quiet(gone.state)
        }),
{
}

/// A surface that is destroyed takes its toplevel along; a later destroy of the
/// toplevel finds nothing.
pub proof fn lemma_surface_takes_its_toplevel_along(s: StateView, sid: u64)
    requires
        s.wf(),
        s.surface_toplevel.contains_key(sid),
    ensures
        ({
            let tl = s.surface_toplevel[sid];
            let gone = s.destroy_surface(sid).state;
            gone.reap_toplevel(tl) == quiet(gone)
        }),
{
}

/// A popup's end is always reported to the windowing side, so that a grab ends with it.
pub proof fn lemma_popup_end_is_always_reported(s: StateView, pp: u64)
    requires
        s.wf(),
        s.popups.contains_key(pp),
    ensures
        s.reap_popup(pp).out == seq![post(WinCmd::Destroy { id: s.popups[pp].window_id })],
        s.reap_popup(pp).state.reap_popup(pp) == quiet(s.reap_popup(pp).state),
{
}

/// Every attached buffer is given back exactly once, with the commit that takes it:
/// last of all, and whether or not it could be shown.
pub proof fn lemma_buffer_is_released(
    s: StateView,
    sid: u64,
    content: Option<PixelBuf>,
    display: Display,
)
    requires
        s.wf(),
    ensures
        ({
            let t = s.commit(sid, content, display);
            &&& s.attached(sid) is Some ==> t.out.len() > 0 && t.out.last()
                == (Emit::ReleaseBuffer { buffer: s.attached(sid)->0 })
            &&& t.state.attached(sid) is None
        }),
{
    let s0 = s.buffer_taken(sid);
    let s3 = s0.handshakes(sid, display).state;
    assert(s3.surfaces == s0.surfaces);
}

/// A surface is configured once: after a commit no further commit configures it.
pub proof fn lemma_commit_configures_once(
    s: StateView,
    sid: u64,
    content: Option<PixelBuf>,
    display: Display,
)
    requires
        s.wf(),
    ensures
        ({
            let t = s.commit(sid, content, display).state;
            &&& t.toplevel_handshake(sid) == quiet(t)
            &&& t.popup_handshake(sid) == quiet(t)
            &&& t.layer_handshake(sid, display) == quiet(t)
        }),
{
    let t = s.commit(sid, content, display).state;
    let s0 = s.buffer_taken(sid);
    let s1 = s0.toplevel_handshake(sid).state;
    let s2 = s1.popup_handshake(sid).state;
    let s3 = s2.layer_handshake(sid, display).state;
    if s3.surface_toplevel.contains_key(sid) {
        assert(s3.toplevels[s3.surface_toplevel[sid]].configured);
        assert(t.toplevels[t.surface_toplevel[sid]].configured);
    }
    if s3.surface_popup.contains_key(sid) {
        assert(s3.popups[s3.surface_popup[sid]].configured);
        assert(t.popups[t.surface_popup[sid]].configured);
    }
    if s3.surface_layer.contains_key(sid) {
        assert(s3.layer_surfaces[s3.surface_layer[sid]].configured);
        assert(t.layer_surfaces[t.surface_layer[sid]].configured);
    }
}

/// A toplevel's first commit, without a buffer, is answered with a configure that leaves
/// the size to the client, and with nothing else; a second one is not answered.
pub proof fn lemma_first_commit_only_configures(
    s: StateView,
    sid: u64,
    first: Option<PixelBuf>,
    second: Option<PixelBuf>,
    display: Display,
    later: Display,
)
    requires
        s.wf(),
        s.surface_toplevel.contains_key(sid),
        !s.toplevels[s.surface_toplevel[sid]].configured,
        s.attached(sid) is None,
        !s.surface_popup.contains_key(sid),
        !s.surface_layer.contains_key(sid),
    ensures
        ({
            let tl = s.surface_toplevel[sid];
            let t = s.toplevels[tl];
            let a = s.commit(sid, first, display);
            let configure = seq![
                Emit::ToplevelConfigure {
                    toplevel: tl,
                    width: 0,
                    height: 0,
                    activated: false,
                    maximized: false,
                    fullscreen: false,
                },
                Emit::SurfaceConfigure { xdg_surface: t.xdg_surface, serial: s.next_serial },
            ];
            &&& a.out == if t.version >= 5 {
                seq![Emit::WmCapabilities { toplevel: tl }] + configure
            } else {
                configure
            }
            &&& a.state.next_serial == s.next_serial.wrapping_add(1)
            &&& a.state.callbacks == s.callbacks
            &&& a.state.commit(sid, second, later) == quiet(a.state)
        }),
{
    let tl = s.surface_toplevel[sid];
    let t = s.toplevels[tl];
    let a = s.commit(sid, first, display);
    let configure = seq![
        Emit::ToplevelConfigure {
            toplevel: tl,
            width: 0,
            height: 0,
            activated: false,
            maximized: false,
            fullscreen: false,
        },
        Emit::SurfaceConfigure { xdg_surface: t.xdg_surface, serial: s.next_serial },
    ];
    assert(a.out =~= if t.version >= 5 {
        seq![Emit::WmCapabilities { toplevel: tl }] + configure
    } else {
        configure
    });
    let b = a.state.commit(sid, second, later);
    assert(a.state.buffer_taken(sid).surfaces =~= a.state.surfaces);
    assert(b.out =~= Seq::<Emit>::empty());
    assert(b.state == a.state);
}

/// A toplevel's window is created with its first frame and never again: a second
/// frame comes alone.
pub proof fn lemma_window_is_created_once(s: StateView, sid: u64, first: PixelBuf, second: PixelBuf)
    requires
        s.wf(),
        s.surface_toplevel.contains_key(sid),
    ensures
        ({
            let t = s.present(sid, first).state;
            let again = t.present(sid, second);
            &&& again.out.len() == 1
            &&& again.out[0] matches Emit::Post { cmd: WinCmd::Frame { id, .. } } && id
                == s.toplevels[s.surface_toplevel[sid]].window_id
            &&& again.state == t
        }),
{
    let t = s.present(sid, first).state;
    assert(t.toplevels[t.surface_toplevel[sid]].created_window);
}

/// A color description is double-buffered: staging it changes nothing that is shown,
/// and the next commit of the surface shows it.
pub proof fn lemma_color_takes_effect_with_commit(
    s: StateView,
    sid: u64,
    color: Option<ColorDesc>,
    pb: PixelBuf,
    display: Display,
)
    requires
        s.wf(),
        s.surfaces.contains_key(sid),
    ensures
        ({
            let staged = s.with_surface(
                sid,
                SurfaceRec { pending_color: Some(color), ..s.surfaces[sid] },
            );
            &&& staged.look(sid).color == s.look(sid).color
            &&& staged.buffer_taken(sid).handshakes(sid, display).state.look(sid).color == color
        }),
{
    let staged = s.with_surface(sid, SurfaceRec { pending_color: Some(color), ..s.surfaces[sid] });
    let taken = staged.buffer_taken(sid);
    assert(taken.handshakes(sid, display).state.surfaces == taken.surfaces);
}

/// A viewport's destination is the logical size that a toplevel's frames carry.
pub proof fn lemma_destination_reaches_frames(s: StateView, sid: u64, w: i32, h: i32, pb: PixelBuf)
    requires
        s.wf(),
        s.surfaces.contains_key(sid),
        s.surface_toplevel.contains_key(sid),
        w > 0,
        h > 0,
    ensures
        ({
            let set = s.with_surface(
                sid,
                SurfaceRec { viewport_dst: Some((w, h)), ..s.surfaces[sid] },
            );
            set.present(sid, pb).out.last() matches Emit::Post {
                cmd: WinCmd::Frame { dst_w, dst_h, .. },
            } && dst_w == w && dst_h == h
        }),
{
}

/// No two windows ever share an id: toplevels, popups and bars draw from one row.
pub proof fn lemma_window_ids_are_unique(s: StateView, a: u64, b: u64)
    requires
        s.wf(),
    ensures
        s.toplevels.contains_key(a) && s.toplevels.contains_key(b) && a != b
            ==> s.toplevels[a].window_id != s.toplevels[b].window_id,
        s.popups.contains_key(a) && s.popups.contains_key(b) && a != b ==> s.popups[a].window_id
            != s.popups[b].window_id,
        s.toplevels.contains_key(a) && s.popups.contains_key(b) ==> s.toplevels[a].window_id
            != s.popups[b].window_id,
        s.toplevels.contains_key(a) && s.layer_surfaces.contains_key(b)
            ==> s.toplevels[a].window_id != s.layer_surfaces[b].window_id,
        s.popups.contains_key(a) && s.layer_surfaces.contains_key(b) ==> s.popups[a].window_id
            != s.layer_surfaces[b].window_id,
{
}

/// A bar that goes away reserves nothing any more and loses the keyboard.
pub proof fn lemma_gone_bar_reserves_nothing(s: StateView, ls: u64)
    requires
        s.wf(),
        s.layer_surfaces.contains_key(ls),
    ensures
        s.reap_layer_surface(ls).out.last() == insets_of(s.layer_surfaces.remove(ls)),
        s.reap_layer_surface(ls).state.focus_window != Some(s.layer_surfaces[ls].window_id),
{
}

/// A client's windows all go to one application, and different clients to different
/// ones.
pub proof fn lemma_app_keys_tell_clients_apart(s: StateView, a: u64, b: u64)
    requires
        s.wf(),
        s.client_app_ids.contains_key(a),
        s.client_app_ids.contains_key(b),
    ensures
        (s.client_app_ids[a] == s.client_app_ids[b]) == (a == b),
{
}

} // verus!
