//! Committing a surface: the configure handshakes, and showing the new buffer.

use super::focus::{send_keyboards, to_keyboards};
use super::{
    chain, post, quiet, Emit, KeyboardEvent, LayerSurfaceRec, PopupRec, State, StateView, Step,
    SurfaceRec, ToplevelRec,
};
use crate::cmd::WinCmd;
use crate::geometry::{points, spec_points};
use crate::idmap::IdMap;
use crate::input::{output_size, scale, Display};
use crate::positioner::{wrap32, wrap_i32};
use crate::shm::PixelBuf;
use vstd::prelude::*;

verus! {

/// The key of a client's application: the one it has, or the next free one.
pub open spec fn app_key(known: Map<u64, u32>, client: u64) -> u32 {
    if known.contains_key(client) {
        known[client]
    } else {
        known.len() as u32
    }
}

/// The keys once a client has one.
pub open spec fn with_app_key(known: Map<u64, u32>, client: u64) -> Map<u64, u32> {
    if known.contains_key(client) {
        known
    } else {
        known.insert(client, known.len() as u32)
    }
}

/// The stable small key of a client's application, given out on first sight. Without
/// a client it is 0.
pub fn app_key_for(known: &mut IdMap<u32>, client: Option<u64>) -> (k: u32)
    requires
        old(known).wf(),
        old(known)@.len() <= u32::MAX,
    ensures
        final(known).wf(),
        client is Some ==> k == app_key(old(known)@, client->0) && final(known)@ == with_app_key(
            old(known)@,
            client->0,
        ),
        client is None ==> k == 0 && final(known)@ == old(known)@,
{
    match client {
        Some(c) => match known.get(c) {
            Some(k) => *k,
            None => {
                let k: u32 = known.len() as u32;
                known.insert(c, k);
                k
            },
        },
        None => 0,
    }
}

impl StateView {
    /// A surface's buffer is taken, and its staged color takes effect.
    pub open spec fn buffer_taken(self, sid: u64) -> StateView {
        if self.surfaces.contains_key(sid) {
            let r = self.surfaces[sid];
            StateView {
                surfaces: self.surfaces.insert(
                    sid,
                    SurfaceRec {
                        pending_buffer: None,
                        pending_color: None,
                        color: match r.pending_color {
                            Some(c) => c,
                            None => r.color,
                        },
                        ..r
                    },
                ),
                ..self
            }
        } else {
            self
        }
    }

    /// The first commit of a toplevel is answered with a configure: what the windowing
    /// side can do, and that the client may pick its size.
    pub open spec fn toplevel_handshake(self, sid: u64) -> Step {
        let tl = self.surface_toplevel[sid];
        let t = self.toplevels[tl];
        if !self.surface_toplevel.contains_key(sid) || t.configured {
            quiet(self)
        } else {
            let caps: Seq<Emit> = if t.version >= 5 {
                seq![Emit::WmCapabilities { toplevel: tl }]
            } else {
                Seq::empty()
            };
            Step {
                state: StateView {
                    toplevels: self.toplevels.insert(tl, ToplevelRec { configured: true, ..t }),
                    ..self.serial_used()
                },
                out: caps + seq![
                    Emit::ToplevelConfigure {
                        toplevel: tl,
                        width: 0,
                        height: 0,
                        activated: false,
                        maximized: false,
                        fullscreen: false,
                    },
                    Emit::SurfaceConfigure { xdg_surface: t.xdg_surface, serial: self.next_serial },
                ],
            }
        }
    }

    /// The first commit of a popup is answered with where it goes.
    pub open spec fn popup_handshake(self, sid: u64) -> Step {
        let pp = self.surface_popup[sid];
        let p = self.popups[pp];
        if !self.surface_popup.contains_key(sid) || p.configured {
            quiet(self)
        } else {
            Step {
                state: StateView {
                    popups: self.popups.insert(pp, PopupRec { configured: true, ..p }),
                    ..self.serial_used()
                },
                out: seq![
                    Emit::PopupConfigure { popup: pp, x: p.x, y: p.y, w: p.w, h: p.h },
                    Emit::SurfaceConfigure { xdg_surface: p.xdg_surface, serial: self.next_serial },
                ],
            }
        }
    }

    /// The first commit of a docked bar is answered with its size: what it asked for,
    /// or the output's.
    pub open spec fn layer_handshake(self, sid: u64, display: Display) -> Step {
        let ls = self.surface_layer[sid];
        let l = self.layer_surfaces[ls];
        if !self.surface_layer.contains_key(sid) || l.configured {
            quiet(self)
        } else {
            Step {
                state: StateView {
                    layer_surfaces: self.layer_surfaces.insert(
                        ls,
                        LayerSurfaceRec { configured: true, ..l },
                    ),
                    ..self.serial_used()
                },
                out: seq![
                    Emit::LayerConfigure {
                        layer: ls,
                        serial: self.next_serial,
                        width: bar_side(
                            l.size.0,
                            display.spec_output_size().0,
                            display.spec_scale(),
                        ),
                        height: bar_side(
                            l.size.1,
                            display.spec_output_size().1,
                            display.spec_scale(),
                        ),
                    },
                ],
            }
        }
    }

    /// A cursor surface's pixels become the cursor.
    pub open spec fn present_cursor(self, pb: PixelBuf, display: Display) -> Step {
        Step {
            state: self,
            out: seq![
                post(
                    WinCmd::SetCursorImage {
                        width: pb.width,
                        height: pb.height,
                        stride: pb.stride,
                        hotspot_x: self.cursor_hotspot.0,
                        hotspot_y: self.cursor_hotspot.1,
                        scale: display.spec_scale(),
                        pixels: pb.bytes,
                    },
                ),
            ],
        }
    }

    /// A surface learns its window.
    pub open spec fn window_noted(self, sid: u64, window_id: u32) -> StateView {
        if self.surfaces.contains_key(sid) {
            StateView {
                surfaces: self.surfaces.insert(
                    sid,
                    SurfaceRec { window_id: Some(window_id), ..self.surfaces[sid] },
                ),
                ..self
            }
        } else {
            self
        }
    }

    /// A toplevel's first buffer creates its window, under its client's application,
    /// with the icon that waited for it.
    pub open spec fn toplevel_created(self, sid: u64, width: i32, height: i32) -> Step {
        let tl = self.surface_toplevel[sid];
        let t = self.toplevels[tl];
        if t.created_window {
            quiet(self)
        } else {
            let look = self.look(sid);
            let icon: Seq<Emit> = if self.icons.contains_key(tl) {
                let i = self.icons[tl];
                seq![
                    post(
                        WinCmd::SetIcon {
                            id: t.window_id,
                            width: i.width,
                            height: i.height,
                            stride: i.stride,
                            pixels: i.pixels,
                        },
                    ),
                ]
            } else {
                Seq::empty()
            };
            Step {
                state: (StateView {
                    client_app_ids: with_app_key(self.client_app_ids, t.surface.client),
                    toplevels: self.toplevels.insert(tl, ToplevelRec { created_window: true, ..t }),
                    icons: self.icons.remove(tl),
                    ..self
                }).window_noted(sid, t.window_id),
                out: seq![
                    Emit::AssignWindow {
                        win_id: t.window_id,
                        app_key: app_key(self.client_app_ids, t.surface.client),
                        app_id: self.app_ids[tl],
                        title: self.titles[tl],
                    },
                    post(
                        WinCmd::Create {
                            id: t.window_id,
                            width,
                            height,
                            dst_w: look.dst.0,
                            dst_h: look.dst.1,
                            decorated: t.wants_ssd,
                            title: self.titles[tl],
                            geom: (look.offset.0, look.offset.1, look.size.0, look.size.1),
                        },
                    ),
                ] + icon,
            }
        }
    }

    /// The content origin of the window that a popup belongs to.
    pub open spec fn parent_offset(self, parent_window: u32) -> (i32, i32) {
        if self.window_surface.contains_key(parent_window as u64) {
            self.look(self.window_surface[parent_window as u64].id).offset
        } else {
            (0, 0)
        }
    }

    /// A popup's first buffer creates its window: at the parent's content origin plus
    /// the configured offset, minus the popup's own content origin.
    pub open spec fn popup_created(self, sid: u64, width: i32, height: i32) -> Step {
        let pp = self.surface_popup[sid];
        let p = self.popups[pp];
        if p.created_window {
            quiet(self)
        } else {
            let parent = self.parent_offset(p.parent_window);
            let own = self.look(sid).offset;
            Step {
                state: StateView {
                    popups: self.popups.insert(pp, PopupRec { created_window: true, ..p }),
                    ..self
                },
                out: seq![
                    post(
                        WinCmd::CreatePopup {
                            id: p.window_id,
                            parent_id: p.parent_window,
                            x: wrap32(parent.0 + p.x - own.0) as i32,
                            y: wrap32(parent.1 + p.y - own.1) as i32,
                            x_flip: wrap32(parent.0 + p.x_flip - own.0) as i32,
                            y_flip: wrap32(parent.1 + p.y_flip - own.1) as i32,
                            constraint: p.constraint,
                            width,
                            height,
                        },
                    ),
                ],
            }
        }
    }

    /// A docked bar's first buffer creates its window; a bar that takes the keyboard
    /// gets it at once.
    pub open spec fn layer_created(self, sid: u64, width: i32, height: i32) -> Step {
        let ls = self.surface_layer[sid];
        let l = self.layer_surfaces[ls];
        if l.created_window {
            quiet(self)
        } else {
            let mapped = (StateView {
                client_app_ids: with_app_key(self.client_app_ids, l.surface.client),
                layer_surfaces: self.layer_surfaces.insert(
                    ls,
                    LayerSurfaceRec { created_window: true, ..l },
                ),
                ..self
            }).window_noted(sid, l.window_id);
            let created = seq![
                Emit::AssignBar {
                    win_id: l.window_id,
                    app_key: app_key(self.client_app_ids, l.surface.client),
                },
                post(
                    WinCmd::CreateLayer {
                        id: l.window_id,
                        width,
                        height,
                        anchor: l.anchor,
                        margin_top: l.margin.0,
                        margin_right: l.margin.1,
                        margin_bottom: l.margin.2,
                        margin_left: l.margin.3,
                        keyboard: l.keyboard_interactivity != 0,
                    },
                ),
            ];
            if l.keyboard_interactivity != 0 && self.focus_window != Some(l.window_id) {
                Step {
                    state: StateView {
                        focus_window: Some(l.window_id),
                        ..mapped.serial_used()
                    },
                    out: created + to_keyboards(
                        self.keyboards,
                        l.surface.client,
                        KeyboardEvent::Enter { serial: self.next_serial, surface: l.surface.id },
                    ),
                }
            } else {
                Step { state: mapped, out: created }
            }
        }
    }

    /// A frame for a toplevel or a popup; other surfaces have no window.
    pub open spec fn present(self, sid: u64, pb: PixelBuf) -> Step {
        let look = self.look(sid);
        if self.surface_toplevel.contains_key(sid) {
            let made = self.toplevel_created(sid, pb.width, pb.height);
            Step {
                state: made.state,
                out: made.out.push(
                    post(
                        WinCmd::Frame {
                            id: self.toplevels[self.surface_toplevel[sid]].window_id,
                            width: pb.width,
                            height: pb.height,
                            stride: pb.stride,
                            dst_w: look.dst.0,
                            dst_h: look.dst.1,
                            pixels: pb.bytes,
                            format: pb.format,
                            color: look.color,
                            geom: (look.offset.0, look.offset.1, look.size.0, look.size.1),
                        },
                    ),
                ),
            }
        } else if self.surface_popup.contains_key(sid) {
            let made = self.popup_created(sid, pb.width, pb.height);
            Step {
                state: made.state,
                out: made.out.push(
                    post(
                        WinCmd::Frame {
                            id: self.popups[self.surface_popup[sid]].window_id,
                            width: pb.width,
                            height: pb.height,
                            stride: pb.stride,
                            dst_w: look.dst.0,
                            dst_h: look.dst.1,
                            pixels: pb.bytes,
                            format: pb.format,
                            color: look.color,
                            geom: (0, 0, 0, 0),
                        },
                    ),
                ),
            }
        } else {
            quiet(self)
        }
    }

    /// A frame for a docked bar.
    pub open spec fn present_layer(self, sid: u64, pb: PixelBuf) -> Step {
        let made = self.layer_created(sid, pb.width, pb.height);
        Step {
            state: made.state,
            out: made.out.push(
                post(
                    WinCmd::Frame {
                        id: self.layer_surfaces[self.surface_layer[sid]].window_id,
                        width: pb.width,
                        height: pb.height,
                        stride: pb.stride,
                        dst_w: 0,
                        dst_h: 0,
                        pixels: pb.bytes,
                        format: pb.format,
                        color: self.look(sid).color,
                        geom: (0, 0, 0, 0),
                    },
                ),
            ),
        }
    }

    /// A committed buffer goes to the cursor, to a layer of the root window, to a
    /// docked bar, or to the surface's own window, whichever role the surface has.
    pub open spec fn present_any(self, sid: u64, pb: PixelBuf, display: Display) -> Step {
        if self.cursor_surface == Some(sid) {
            self.present_cursor(pb, display)
        } else if self.surface_subsurface.contains_key(sid) {
            self.present_subsurface(sid, pb)
        } else if self.surface_layer.contains_key(sid) {
            self.present_layer(sid, pb)
        } else {
            self.present(sid, pb)
        }
    }

    /// All handshakes that a commit answers.
    pub open spec fn handshakes(self, sid: u64, display: Display) -> Step {
        let a = self.toplevel_handshake(sid);
        let b = a.state.popup_handshake(sid);
        let c = b.state.layer_handshake(sid, display);
        chain(chain(a, b), c)
    }

    /// The buffer that a commit shows, where one was attached.
    pub open spec fn attached(self, sid: u64) -> Option<u64> {
        if self.surfaces.contains_key(sid) {
            self.surfaces[sid].pending_buffer
        } else {
            None
        }
    }

    /// A commit. `content` is what could be read out of the attached buffer, which is
    /// given back to the client in any case.
    pub open spec fn commit(self, sid: u64, content: Option<PixelBuf>, display: Display) -> Step {
        let shaken = self.buffer_taken(sid).handshakes(sid, display);
        match self.attached(sid) {
            Some(buffer) => {
                let shown = match content {
                    Some(pb) => shaken.state.present_any(sid, pb, display),
                    None => quiet(shaken.state),
                };
                let all = chain(shaken, shown);
                Step { state: all.state, out: all.out.push(Emit::ReleaseBuffer { buffer }) }
            },
            None => shaken,
        }
    }
}

/// A side of a bar: what it asked for, or the output's side in points.
pub open spec fn bar_side(asked: u32, output: i32, scale: i32) -> u32 {
    if asked == 0 {
        spec_points(output, scale) as u32
    } else if asked > i32::MAX {
        1
    } else {
        asked
    }
}

fn layer_side(asked: u32, output: i32, s: i32) -> (r: u32)
    requires
        s >= 1,
        output >= 1,
    ensures
        r == bar_side(asked, output, s),
{
    if asked == 0 {
        points(output, s) as u32
    } else if asked > 0x7fff_ffff {
        1
    } else {
        asked
    }
}

/// The windows and roles are the same but for marks in their records.
pub(super) open spec fn same_windows(a: StateView, b: StateView) -> bool {
    &&& a.next_window_id == b.next_window_id
    &&& a.surface_toplevel == b.surface_toplevel
    &&& a.surface_popup == b.surface_popup
    &&& a.surface_layer == b.surface_layer
    &&& a.surface_subsurface == b.surface_subsurface
    &&& a.subsurfaces == b.subsurfaces
    &&& a.titles == b.titles
    &&& a.app_ids == b.app_ids
    &&& a.default_title == b.default_title
    &&& a.no_app_id == b.no_app_id
    &&& forall|k: u64| #[trigger]
        b.toplevels.contains_key(k) == a.toplevels.contains_key(k) && (a.toplevels.contains_key(k)
            ==> b.toplevels[k].window_id == a.toplevels[k].window_id && b.toplevels[k].surface
            == a.toplevels[k].surface)
    &&& forall|k: u64| #[trigger]
        b.popups.contains_key(k) == a.popups.contains_key(k) && (a.popups.contains_key(k)
            ==> b.popups[k].window_id == a.popups[k].window_id && b.popups[k].surface
            == a.popups[k].surface)
    &&& forall|k: u64| #[trigger]
        b.layer_surfaces.contains_key(k) == a.layer_surfaces.contains_key(k) && (
        a.layer_surfaces.contains_key(k) ==> b.layer_surfaces[k].window_id
            == a.layer_surfaces[k].window_id && b.layer_surfaces[k].surface
            == a.layer_surfaces[k].surface)
}

pub(super) proof fn lemma_same_windows_wf(a: StateView, b: StateView)
    requires
        a.wf(),
        same_windows(a, b),
        b.apps_wf(),
    ensures
        b.wf(),
{
    assert(a.roles_wf() && a.windows_wf());
    assert(b.windows_wf());
    assert forall|s: u64| #[trigger] b.surface_toplevel.contains_key(s) implies b.toplevels.contains_key(
        b.surface_toplevel[s],
    ) && b.toplevels[b.surface_toplevel[s]].surface.id == s by {
        assert(a.surface_toplevel.contains_key(s));
    }
    assert forall|s: u64| #[trigger] b.surface_popup.contains_key(s) implies b.popups.contains_key(
        b.surface_popup[s],
    ) && b.popups[b.surface_popup[s]].surface.id == s by {
        assert(a.surface_popup.contains_key(s));
    }
    assert forall|s: u64| #[trigger]
        b.surface_layer.contains_key(s) implies b.layer_surfaces.contains_key(b.surface_layer[s])
        && b.layer_surfaces[b.surface_layer[s]].surface.id == s by {
        assert(a.surface_layer.contains_key(s));
    }
    assert(b.roles_wf());
}

/// Giving a client an application key keeps the keys small and unshared.
pub proof fn lemma_app_keys_stay_distinct(known: Map<u64, u32>, client: u64)
    requires
        known.dom().finite(),
        known.len() < u32::MAX,
        forall|c: u64| #[trigger] known.contains_key(c) ==> known[c] < known.len(),
        forall|a: u64, b: u64| #[trigger]
            known.contains_key(a) && #[trigger] known.contains_key(b) && known[a] == known[b] ==> a
                == b,
    ensures
        ({
            let after = with_app_key(known, client);
            &&& after.dom().finite()
            &&& after.len() <= u32::MAX
            &&& after.len() <= known.len() + 1
            &&& forall|c: u64| #[trigger] after.contains_key(c) ==> after[c] < after.len()
            &&& forall|a: u64, b: u64| #[trigger]
                after.contains_key(a) && #[trigger] after.contains_key(b) && after[a] == after[b]
                    ==> a == b
            &&& after[client] == app_key(known, client)
        }),
{
    let after = with_app_key(known, client);
    if !known.contains_key(client) {
        assert(after.dom() =~= known.dom().insert(client));
        assert forall|a: u64, b: u64| #[trigger]
            after.contains_key(a) && #[trigger] after.contains_key(b) && after[a]
                == after[b] implies a == b by {
            if a != client {
                assert(known.contains_key(a));
            }
            if b != client {
                assert(known.contains_key(b));
            }
        }
        assert forall|c: u64| #[trigger] after.contains_key(c) implies after[c] < after.len() by {
            if c != client {
                assert(known.contains_key(c));
            }
        }
    }
}

/// A commit keeps the state sound.
pub proof fn lemma_commit_keeps_wf(
    s: StateView,
    sid: u64,
    content: Option<PixelBuf>,
    display: Display,
)
    requires
        s.wf(),
        s.attached(sid) is Some ==> s.client_app_ids.len() < u32::MAX,
    ensures
        s.commit(sid, content, display).state.wf(),
        s.buffer_taken(sid).handshakes(sid, display).state.wf(),
        s.buffer_taken(sid).handshakes(sid, display).state.client_app_ids == s.client_app_ids,
{
    let s0 = s.buffer_taken(sid);
    assert(same_windows(s, s0));
    lemma_same_windows_wf(s, s0);
    let s1 = s0.toplevel_handshake(sid).state;
    assert(same_windows(s0, s1));
    lemma_same_windows_wf(s0, s1);
    let s2 = s1.popup_handshake(sid).state;
    assert(same_windows(s1, s2));
    lemma_same_windows_wf(s1, s2);
    let s3 = s2.layer_handshake(sid, display).state;
    assert(same_windows(s2, s3));
    lemma_same_windows_wf(s2, s3);
    assert(s3 == s0.handshakes(sid, display).state);
    match (s.attached(sid), content) {
        (Some(_), Some(pb)) => {
            let s4 = s3.present_any(sid, pb, display).state;
            if s3.surface_toplevel.contains_key(sid) {
                lemma_app_keys_stay_distinct(
                    s3.client_app_ids,
                    s3.toplevels[s3.surface_toplevel[sid]].surface.client,
                );
            }
            if s3.surface_layer.contains_key(sid) {
                lemma_app_keys_stay_distinct(
                    s3.client_app_ids,
                    s3.layer_surfaces[s3.surface_layer[sid]].surface.client,
                );
            }
            assert(same_windows(s3, s4));
            lemma_same_windows_wf(s3, s4);
        },
        _ => {},
    }
}

impl State {
    fn take_buffer(&mut self, sid: u64) -> (r: Option<u64>)
        requires
            old(self).tables_wf(),
        ensures
            final(self).tables_wf(),
            final(self)@ == old(self)@.buffer_taken(sid),
            r == old(self)@.attached(sid),
    {
        let found: Option<SurfaceRec> = match self.surfaces.get(sid) {
            Some(r) => Some(*r),
            None => None,
        };
        match found {
            Some(r) => {
                self.surfaces.insert(
                    sid,
                    SurfaceRec {
                        pending_buffer: None,
                        pending_color: None,
                        color: match r.pending_color {
                            Some(c) => c,
                            None => r.color,
                        },
                        ..r
                    },
                );
                r.pending_buffer
            },
            None => None,
        }
    }

    fn toplevel_handshake(&mut self, sid: u64, out: &mut Vec<Emit>)
        requires
            old(self).tables_wf(),
            old(self)@.roles_wf(),
        ensures
            final(self).tables_wf(),
            final(self)@ == old(self)@.toplevel_handshake(sid).state,
            final(out)@ == old(out)@ + old(self)@.toplevel_handshake(sid).out,
    {
        let ghost want = self@.toplevel_handshake(sid);
        let tl: u64 = match self.surface_toplevel.get(sid) {
            Some(tl) => *tl,
            None => {
                assert(out@ =~= old(out)@ + want.out);
                return;
            },
        };
        let found: Option<ToplevelRec> = match self.toplevels.get(tl) {
            Some(t) => Some(*t),
            None => None,
        };
        if let Some(t) = found {
            if !t.configured {
                let serial: u32 = self.serial();
                if t.version >= 5 {
                    out.push(Emit::WmCapabilities { toplevel: tl });
                }
                out.push(
                    Emit::ToplevelConfigure {
                        toplevel: tl,
                        width: 0,
                        height: 0,
                        activated: false,
                        maximized: false,
                        fullscreen: false,
                    },
                );
                out.push(Emit::SurfaceConfigure { xdg_surface: t.xdg_surface, serial });
                self.toplevels.insert(tl, ToplevelRec { configured: true, ..t });
            }
        }
        assert(out@ =~= old(out)@ + want.out);
    }

    fn popup_handshake(&mut self, sid: u64, out: &mut Vec<Emit>)
        requires
            old(self).tables_wf(),
            old(self)@.roles_wf(),
        ensures
            final(self).tables_wf(),
            final(self)@ == old(self)@.popup_handshake(sid).state,
            final(out)@ == old(out)@ + old(self)@.popup_handshake(sid).out,
    {
        let ghost want = self@.popup_handshake(sid);
        let pp: u64 = match self.surface_popup.get(sid) {
            Some(pp) => *pp,
            None => {
                assert(out@ =~= old(out)@ + want.out);
                return;
            },
        };
        let found: Option<PopupRec> = match self.popups.get(pp) {
            Some(p) => Some(*p),
            None => None,
        };
        if let Some(p) = found {
            if !p.configured {
                let serial: u32 = self.serial();
                out.push(Emit::PopupConfigure { popup: pp, x: p.x, y: p.y, w: p.w, h: p.h });
                out.push(Emit::SurfaceConfigure { xdg_surface: p.xdg_surface, serial });
                self.popups.insert(pp, PopupRec { configured: true, ..p });
            }
        }
        assert(out@ =~= old(out)@ + want.out);
    }

    fn layer_handshake(&mut self, sid: u64, display: &Display, out: &mut Vec<Emit>)
        requires
            old(self).tables_wf(),
            old(self)@.roles_wf(),
        ensures
            final(self).tables_wf(),
            final(self)@ == old(self)@.layer_handshake(sid, *display).state,
            final(out)@ == old(out)@ + old(self)@.layer_handshake(sid, *display).out,
    {
        let ghost want = self@.layer_handshake(sid, *display);
        let ls: u64 = match self.surface_layer.get(sid) {
            Some(ls) => *ls,
            None => {
                assert(out@ =~= old(out)@ + want.out);
                return;
            },
        };
        let found: Option<LayerSurfaceRec> = match self.layer_surfaces.get(ls) {
            Some(l) => Some(*l),
            None => None,
        };
        if let Some(l) = found {
            if !l.configured {
                let serial: u32 = self.serial();
                let s: i32 = scale(display);
                let (pw, ph) = output_size(display);
                out.push(
                    Emit::LayerConfigure {
                        layer: ls,
                        serial,
                        width: layer_side(l.size.0, pw, s),
                        height: layer_side(l.size.1, ph, s),
                    },
                );
                self.layer_surfaces.insert(ls, LayerSurfaceRec { configured: true, ..l });
            }
        }
        assert(out@ =~= old(out)@ + want.out);
    }

    fn note_window(&mut self, sid: u64, window_id: u32)
        requires
            old(self).tables_wf(),
        ensures
            final(self).tables_wf(),
            final(self)@ == old(self)@.window_noted(sid, window_id),
    {
        let found: Option<SurfaceRec> = match self.surfaces.get(sid) {
            Some(r) => Some(*r),
            None => None,
        };
        if let Some(r) = found {
            self.surfaces.insert(sid, SurfaceRec { window_id: Some(window_id), ..r });
        }
    }

    fn create_toplevel_window(
        &mut self,
        sid: u64,
        tl: u64,
        t: ToplevelRec,
        width: i32,
        height: i32,
        out: &mut Vec<Emit>,
    )
        requires
            old(self).tables_wf(),
            old(self)@.roles_wf(),
            old(self)@.surface_toplevel.contains_key(sid),
            tl == old(self)@.surface_toplevel[sid],
            t == old(self)@.toplevels[tl],
            old(self)@.client_app_ids.len() <= u32::MAX,
        ensures
            final(self).tables_wf(),
            final(self)@ == old(self)@.toplevel_created(sid, width, height).state,
            final(out)@ == old(out)@ + old(self)@.toplevel_created(sid, width, height).out,
    {
        let ghost want = self@.toplevel_created(sid, width, height);
        if t.created_window {
            assert(out@ =~= old(out)@ + want.out);
            return;
        }
        assert(self@.titles.contains_key(tl) && self@.app_ids.contains_key(tl));
        let look = self.surface_look(sid);
        let key: u32 = app_key_for(&mut self.client_app_ids, Some(t.surface.client));
        if let Some(app_id) = self.app_ids.get(tl) {
            if let Some(title) = self.titles.get(tl) {
                out.push(
                    Emit::AssignWindow {
                        win_id: t.window_id,
                        app_key: key,
                        app_id: app_id.clone(),
                        title: title.clone(),
                    },
                );
                out.push(
                    Emit::Post {
                        cmd: WinCmd::Create {
                            id: t.window_id,
                            width,
                            height,
                            dst_w: look.dst.0,
                            dst_h: look.dst.1,
                            decorated: t.wants_ssd,
                            title: title.clone(),
                            geom: (look.offset.0, look.offset.1, look.size.0, look.size.1),
                        },
                    },
                );
            }
        }
        self.toplevels.insert(tl, ToplevelRec { created_window: true, ..t });
        if let Some(i) = self.icons.remove(tl) {
            out.push(
                Emit::Post {
                    cmd: WinCmd::SetIcon {
                        id: t.window_id,
                        width: i.width,
                        height: i.height,
                        stride: i.stride,
                        pixels: i.pixels,
                    },
                },
            );
        }
        self.note_window(sid, t.window_id);
        assert(out@ =~= old(out)@ + want.out);
        assert(self@ == want.state);
    }

    fn create_popup_window(
        &mut self,
        sid: u64,
        pp: u64,
        p: PopupRec,
        width: i32,
        height: i32,
        out: &mut Vec<Emit>,
    )
        requires
            old(self).tables_wf(),
            old(self)@.surface_popup.contains_key(sid),
            pp == old(self)@.surface_popup[sid],
            p == old(self)@.popups[pp],
        ensures
            final(self).tables_wf(),
            final(self)@ == old(self)@.popup_created(sid, width, height).state,
            final(out)@ == old(out)@ + old(self)@.popup_created(sid, width, height).out,
    {
        let ghost want = self@.popup_created(sid, width, height);
        if p.created_window {
            assert(out@ =~= old(out)@ + want.out);
            return;
        }
        let own: (i32, i32) = self.surface_look(sid).offset;
        let parent: (i32, i32) = match self.window_surface.get(p.parent_window as u64) {
            Some(s) => self.surface_look(s.id).offset,
            None => (0, 0),
        };
        out.push(
            Emit::Post {
                cmd: WinCmd::CreatePopup {
                    id: p.window_id,
                    parent_id: p.parent_window,
                    x: wrap_i32(parent.0 as i64 + p.x as i64 - own.0 as i64),
                    y: wrap_i32(parent.1 as i64 + p.y as i64 - own.1 as i64),
                    x_flip: wrap_i32(parent.0 as i64 + p.x_flip as i64 - own.0 as i64),
                    y_flip: wrap_i32(parent.1 as i64 + p.y_flip as i64 - own.1 as i64),
                    constraint: p.constraint,
                    width,
                    height,
                },
            },
        );
        self.popups.insert(pp, PopupRec { created_window: true, ..p });
        assert(out@ =~= old(out)@ + want.out);
        assert(self@ == want.state);
    }

    fn create_layer_window(
        &mut self,
        sid: u64,
        ls: u64,
        l: LayerSurfaceRec,
        width: i32,
        height: i32,
        out: &mut Vec<Emit>,
    )
        requires
            old(self).tables_wf(),
            old(self)@.surface_layer.contains_key(sid),
            ls == old(self)@.surface_layer[sid],
            l == old(self)@.layer_surfaces[ls],
            old(self)@.client_app_ids.len() <= u32::MAX,
        ensures
            final(self).tables_wf(),
            final(self)@ == old(self)@.layer_created(sid, width, height).state,
            final(out)@ == old(out)@ + old(self)@.layer_created(sid, width, height).out,
    {
        let ghost want = self@.layer_created(sid, width, height);
        if l.created_window {
            assert(out@ =~= old(out)@ + want.out);
            return;
        }
        let key: u32 = app_key_for(&mut self.client_app_ids, Some(l.surface.client));
        out.push(Emit::AssignBar { win_id: l.window_id, app_key: key });
        out.push(
            Emit::Post {
                cmd: WinCmd::CreateLayer {
                    id: l.window_id,
                    width,
                    height,
                    anchor: l.anchor,
                    margin_top: l.margin.0,
                    margin_right: l.margin.1,
                    margin_bottom: l.margin.2,
                    margin_left: l.margin.3,
                    keyboard: l.keyboard_interactivity != 0,
                },
            },
        );
        self.layer_surfaces.insert(ls, LayerSurfaceRec { created_window: true, ..l });
        self.note_window(sid, l.window_id);
        let there: bool = match self.focus_window {
            Some(w) => w == l.window_id,
            None => false,
        };
        if l.keyboard_interactivity != 0 && !there {
            let serial: u32 = self.serial();
            send_keyboards(
                &self.keyboards,
                l.surface.client,
                KeyboardEvent::Enter { serial, surface: l.surface.id },
                out,
            );
            self.focus_window = Some(l.window_id);
        }
        assert(out@ =~= old(out)@ + want.out);
        assert(self@ == want.state);
    }

    fn present(&mut self, sid: u64, pb: PixelBuf, out: &mut Vec<Emit>)
        requires
            old(self).tables_wf(),
            old(self)@.roles_wf(),
            old(self)@.client_app_ids.len() <= u32::MAX,
        ensures
            final(self).tables_wf(),
            final(self)@ == old(self)@.present(sid, pb).state,
            final(out)@ == old(out)@ + old(self)@.present(sid, pb).out,
    {
        let ghost want = self@.present(sid, pb);
        let look = self.surface_look(sid);
        let tl: Option<u64> = match self.surface_toplevel.get(sid) {
            Some(tl) => Some(*tl),
            None => None,
        };
        if let Some(tl) = tl {
            let found: Option<ToplevelRec> = match self.toplevels.get(tl) {
                Some(t) => Some(*t),
                None => None,
            };
            if let Some(t) = found {
                self.create_toplevel_window(sid, tl, t, pb.width, pb.height, out);
                out.push(
                    Emit::Post {
                        cmd: WinCmd::Frame {
                            id: t.window_id,
                            width: pb.width,
                            height: pb.height,
                            stride: pb.stride,
                            dst_w: look.dst.0,
                            dst_h: look.dst.1,
                            pixels: pb.bytes,
                            format: pb.format,
                            color: look.color,
                            geom: (look.offset.0, look.offset.1, look.size.0, look.size.1),
                        },
                    },
                );
            }
            assert(out@ =~= old(out)@ + want.out);
            return;
        }
        let pp: Option<u64> = match self.surface_popup.get(sid) {
            Some(pp) => Some(*pp),
            None => None,
        };
        if let Some(pp) = pp {
            let found: Option<PopupRec> = match self.popups.get(pp) {
                Some(p) => Some(*p),
                None => None,
            };
            if let Some(p) = found {
                self.create_popup_window(sid, pp, p, pb.width, pb.height, out);
                out.push(
                    Emit::Post {
                        cmd: WinCmd::Frame {
                            id: p.window_id,
                            width: pb.width,
                            height: pb.height,
                            stride: pb.stride,
                            dst_w: look.dst.0,
                            dst_h: look.dst.1,
                            pixels: pb.bytes,
                            format: pb.format,
                            color: look.color,
                            geom: (0, 0, 0, 0),
                        },
                    },
                );
            }
        }
        assert(out@ =~= old(out)@ + want.out);
    }

    fn present_layer(&mut self, sid: u64, pb: PixelBuf, out: &mut Vec<Emit>)
        requires
            old(self).tables_wf(),
            old(self)@.roles_wf(),
            old(self)@.surface_layer.contains_key(sid),
            old(self)@.client_app_ids.len() <= u32::MAX,
        ensures
            final(self).tables_wf(),
            final(self)@ == old(self)@.present_layer(sid, pb).state,
            final(out)@ == old(out)@ + old(self)@.present_layer(sid, pb).out,
    {
        let ghost want = self@.present_layer(sid, pb);
        let look = self.surface_look(sid);
        let ls: Option<u64> = match self.surface_layer.get(sid) {
            Some(ls) => Some(*ls),
            None => None,
        };
        if let Some(ls) = ls {
            let found: Option<LayerSurfaceRec> = match self.layer_surfaces.get(ls) {
                Some(l) => Some(*l),
                None => None,
            };
            if let Some(l) = found {
                self.create_layer_window(sid, ls, l, pb.width, pb.height, out);
                out.push(
                    Emit::Post {
                        cmd: WinCmd::Frame {
                            id: l.window_id,
                            width: pb.width,
                            height: pb.height,
                            stride: pb.stride,
                            dst_w: 0,
                            dst_h: 0,
                            pixels: pb.bytes,
                            format: pb.format,
                            color: look.color,
                            geom: (0, 0, 0, 0),
                        },
                    },
                );
            }
        }
        assert(out@ =~= old(out)@ + want.out);
    }

    fn present_any(&mut self, sid: u64, pb: PixelBuf, display: &Display, out: &mut Vec<Emit>)
        requires
            old(self).wf(),
        ensures
            final(self).tables_wf(),
            final(self)@ == old(self)@.present_any(sid, pb, *display).state,
            final(out)@ == old(out)@ + old(self)@.present_any(sid, pb, *display).out,
    {
        proof {
            self.lemma_wf();
        }
        let ghost want = self@.present_any(sid, pb, *display);
        let is_cursor: bool = match self.cursor_surface {
            Some(c) => c == sid,
            None => false,
        };
        if is_cursor {
            out.push(
                Emit::Post {
                    cmd: WinCmd::SetCursorImage {
                        width: pb.width,
                        height: pb.height,
                        stride: pb.stride,
                        hotspot_x: self.cursor_hotspot.0,
                        hotspot_y: self.cursor_hotspot.1,
                        scale: scale(display),
                        pixels: pb.bytes,
                    },
                },
            );
            assert(out@ =~= old(out)@ + want.out);
        } else if self.surface_subsurface.contains(sid) {
            self.present_subsurface(sid, pb, out);
        } else if self.surface_layer.contains(sid) {
            self.present_layer(sid, pb, out);
        } else {
            self.present(sid, pb, out);
        }
    }

    /// Commits a surface. `content` is what `buffer_to_pixels` gave for the buffer
    /// that `pending_buffer` names; it is not looked at where there is none.
    pub fn handle_commit(&mut self, sid: u64, content: Option<PixelBuf>, display: &Display) -> (out:
        Vec<Emit>)
        requires
            old(self).wf(),
            old(self)@.attached(sid) is Some ==> old(self)@.client_app_ids.len() < u32::MAX,
        ensures
            final(self).wf(),
            (Step { state: final(self)@, out: out@ }) == old(self)@.commit(sid, content, *display),
    {
        let mut out: Vec<Emit> = Vec::new();
        let ghost want = old(self)@.commit(sid, content, *display);
        let ghost shaken = old(self)@.buffer_taken(sid).handshakes(sid, *display);
        proof {
            lemma_commit_keeps_wf(self@, sid, content, *display);
            let s0 = self@.buffer_taken(sid);
            assert(same_windows(self@, s0));
            lemma_same_windows_wf(self@, s0);
            let s1 = s0.toplevel_handshake(sid).state;
            assert(same_windows(s0, s1));
            lemma_same_windows_wf(s0, s1);
            let s2 = s1.popup_handshake(sid).state;
            assert(same_windows(s1, s2));
            lemma_same_windows_wf(s1, s2);
        }
        let pending: Option<u64> = self.take_buffer(sid);
        self.toplevel_handshake(sid, &mut out);
        self.popup_handshake(sid, &mut out);
        self.layer_handshake(sid, display, &mut out);
        assert(out@ =~= shaken.out);
        assert(self@ == shaken.state);
        if let Some(buffer) = pending {
            if let Some(pb) = content {
                self.present_any(sid, pb, display, &mut out);
            }
            out.push(Emit::ReleaseBuffer { buffer });
        }
        assert(out@ =~= want.out);
        assert(self@ == want.state);
        out
    }
}

} // verus!
