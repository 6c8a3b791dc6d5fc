//! Carrying client requests out.

use super::commit::{lemma_same_windows_wf, same_windows};
use super::requests::{
    all_done, all_presented, blank_positioner, insets_of, is_reserved, lemma_reserved_is_unique,
    not_of, positioned, post_if, reserved, zone, Edge, LayerRequest, PositionerRequest,
    ToplevelRequest,
};
use super::{
    post, Device, Emit, IconPixels, LayerSurfaceRec, PopupRec, State, StateView, Step,
    SubsurfaceRec, SurfaceRec, SurfaceRef, ToplevelRec,
};
use crate::cmd::{ColorDesc, PixelFormat, WinCmd};
use crate::input::{scale, Display};
use crate::positioner::PositionerState;
use crate::shm::PixelBuf;
use vstd::prelude::*;

verus! {

/// A new window's id is the next one, and roles that come with it lead back to it.
proof fn lemma_new_toplevel_wf(
    s: StateView,
    tl: u64,
    xdg_surface: u64,
    surface: SurfaceRef,
    version: u32,
)
    requires
        s.wf(),
        s.next_window_id < u32::MAX,
        !s.toplevels.contains_key(tl),
    ensures
        s.get_toplevel(tl, xdg_surface, surface, version).wf(),
{
    let t = s.get_toplevel(tl, xdg_surface, surface, version);
    assert(t.windows_wf());
    assert forall|q: u64| #[trigger] t.surface_toplevel.contains_key(q) implies t.toplevels.contains_key(
        t.surface_toplevel[q],
    ) && t.toplevels[t.surface_toplevel[q]].surface.id == q by {
        if q != surface.id {
            assert(s.surface_toplevel.contains_key(q));
        }
    }
    assert(t.roles_wf());
}

proof fn lemma_new_popup_wf(
    s: StateView,
    pp: u64,
    xdg_surface: u64,
    surface: SurfaceRef,
    parent: Option<u64>,
    positioner: u64,
)
    requires
        s.wf(),
        s.next_window_id < u32::MAX,
        !s.popups.contains_key(pp),
    ensures
        s.get_popup(pp, xdg_surface, surface, parent, positioner).wf(),
{
    let t = s.get_popup(pp, xdg_surface, surface, parent, positioner);
    assert(t.windows_wf());
    assert forall|q: u64| #[trigger] t.surface_popup.contains_key(q) implies t.popups.contains_key(
        t.surface_popup[q],
    ) && t.popups[t.surface_popup[q]].surface.id == q by {
        if q != surface.id {
            assert(s.surface_popup.contains_key(q));
        }
    }
    assert(t.roles_wf());
}

proof fn lemma_new_layer_wf(s: StateView, ls: u64, surface: SurfaceRef)
    requires
        s.wf(),
        s.next_window_id < u32::MAX,
        !s.layer_surfaces.contains_key(ls),
    ensures
        s.get_layer_surface(ls, surface).wf(),
{
    let t = s.get_layer_surface(ls, surface);
    assert(t.windows_wf());
    assert forall|q: u64| #[trigger]
        t.surface_layer.contains_key(q) implies t.layer_surfaces.contains_key(t.surface_layer[q])
        && t.layer_surfaces[t.surface_layer[q]].surface.id == q by {
        if q != surface.id {
            assert(s.surface_layer.contains_key(q));
        }
    }
    assert(t.roles_wf());
}

proof fn lemma_new_subsurface_wf(s: StateView, sub: u64, surface: u64, parent: u64)
    requires
        s.wf(),
        s.next_window_id < u32::MAX,
        !s.subsurfaces.contains_key(sub),
    ensures
        s.get_subsurface(sub, surface, parent).state.wf(),
{
    let t = s.get_subsurface(sub, surface, parent).state;
    assert(t.windows_wf());
    assert forall|q: u64| #[trigger]
        t.surface_subsurface.contains_key(q) implies t.subsurfaces.contains_key(
        t.surface_subsurface[q],
    ) && t.subsurfaces[t.surface_subsurface[q]].surface == q by {
        assert(q == surface || s.surface_subsurface.contains_key(q));
    }
    assert(t.roles_wf());
}

proof fn lemma_reap_toplevel_wf(s: StateView, tl: u64)
    requires
        s.wf(),
    ensures
        s.reap_toplevel(tl).state.wf(),
{
    let t = s.reap_toplevel(tl).state;
    assert(t.windows_wf());
    assert forall|q: u64| #[trigger] t.surface_toplevel.contains_key(q) implies t.toplevels.contains_key(
        t.surface_toplevel[q],
    ) && t.toplevels[t.surface_toplevel[q]].surface.id == q by {
        assert(s.surface_toplevel.contains_key(q));
    }
    assert(t.roles_wf());
}

proof fn lemma_reap_popup_wf(s: StateView, pp: u64)
    requires
        s.wf(),
    ensures
        s.reap_popup(pp).state.wf(),
{
    let t = s.reap_popup(pp).state;
    assert(t.windows_wf());
    assert forall|q: u64| #[trigger] t.surface_popup.contains_key(q) implies t.popups.contains_key(
        t.surface_popup[q],
    ) && t.popups[t.surface_popup[q]].surface.id == q by {
        assert(s.surface_popup.contains_key(q));
    }
    assert(t.roles_wf());
}

proof fn lemma_reap_layer_wf(s: StateView, ls: u64)
    requires
        s.wf(),
    ensures
        s.reap_layer_surface(ls).state.wf(),
{
    let t = s.reap_layer_surface(ls).state;
    assert(t.windows_wf());
    assert forall|q: u64| #[trigger]
        t.surface_layer.contains_key(q) implies t.layer_surfaces.contains_key(t.surface_layer[q])
        && t.layer_surfaces[t.surface_layer[q]].surface.id == q by {
        assert(s.surface_layer.contains_key(q));
    }
    assert(t.roles_wf());
}

proof fn lemma_surface_toplevel_gone_wf(s: StateView, sid: u64)
    requires
        s.wf(),
    ensures
        s.surface_toplevel_gone(sid).state.wf(),
{
    let t = s.surface_toplevel_gone(sid).state;
    assert(t.windows_wf());
    assert forall|q: u64| #[trigger] t.surface_toplevel.contains_key(q) implies t.toplevels.contains_key(
        t.surface_toplevel[q],
    ) && t.toplevels[t.surface_toplevel[q]].surface.id == q by {
        assert(s.surface_toplevel.contains_key(q));
    }
    assert(t.roles_wf());
}

/// The windows and roles are the same.
proof fn lemma_windows_unchanged_wf(a: StateView, b: StateView)
    requires
        a.wf(),
        a.next_window_id == b.next_window_id,
        a.toplevels == b.toplevels,
        a.popups == b.popups,
        a.layer_surfaces == b.layer_surfaces,
        a.subsurfaces == b.subsurfaces,
        a.surface_toplevel == b.surface_toplevel,
        a.surface_popup == b.surface_popup,
        a.surface_layer == b.surface_layer,
        a.surface_subsurface == b.surface_subsurface,
        a.titles.dom().subset_of(b.titles.dom()),
        a.app_ids.dom().subset_of(b.app_ids.dom()),
        a.default_title == b.default_title,
        a.no_app_id == b.no_app_id,
        a.client_app_ids == b.client_app_ids,
    ensures
        b.wf(),
{
    assert(a.roles_wf() && a.windows_wf() && a.apps_wf());
    assert(b.windows_wf());
    assert forall|t: u64| #[trigger] b.toplevels.contains_key(t) implies b.titles.contains_key(t)
        && b.app_ids.contains_key(t) by {
        assert(a.toplevels.contains_key(t));
        assert(a.titles.dom().contains(t));
        assert(a.app_ids.dom().contains(t));
    }
    assert(b.roles_wf());
    assert(b.apps_wf());
}

impl State {
    /// Registers a new surface.
    pub fn create_surface(&mut self, sid: u64, version: u32, display: &Display) -> (out: Vec<Emit>)
        requires
            old(self).wf(),
        ensures
            final(self).wf(),
            (Step { state: final(self)@, out: out@ }) == old(self)@.create_surface(
                sid,
                version,
                *display,
            ),
    {
        let mut out: Vec<Emit> = Vec::new();
        if version >= 6 {
            out.push(Emit::PreferredScale { surface: sid, scale: scale(display) });
        }
        self.surfaces.insert(
            sid,
            SurfaceRec {
                pending_buffer: None,
                window_id: None,
                geometry_offset: (0, 0),
                geometry_size: (0, 0),
                viewport_dst: None,
                pending_color: None,
                color: None,
            },
        );
        proof {
            lemma_windows_unchanged_wf(old(self)@, self@);
            assert(out@ =~= old(self)@.create_surface(sid, version, *display).out);
        }
        out
    }

    fn put_surface(&mut self, sid: u64, rec: SurfaceRec)
        requires
            old(self).wf(),
        ensures
            final(self).wf(),
            final(self)@ == (StateView {
                surfaces: old(self)@.surfaces.insert(sid, rec),
                ..old(self)@
            }),
    {
        self.surfaces.insert(sid, rec);
        proof {
            lemma_windows_unchanged_wf(old(self)@, self@);
        }
    }

    fn surface_rec(&self, sid: u64) -> (r: Option<SurfaceRec>)
        requires
            self.wf(),
        ensures
            r is Some == self@.surfaces.contains_key(sid),
            r is Some ==> r->0 == self@.surfaces[sid],
    {
        match self.surfaces.get(sid) {
            Some(r) => Some(*r),
            None => None,
        }
    }

    /// Attaches a buffer, or none, to be shown with the next commit.
    pub fn attach(&mut self, sid: u64, buffer: Option<u64>)
        requires
            old(self).wf(),
        ensures
            final(self).wf(),
            final(self)@ == old(self)@.attach(sid, buffer),
    {
        if let Some(r) = self.surface_rec(sid) {
            self.put_surface(sid, SurfaceRec { pending_buffer: buffer, ..r });
        }
    }

    /// Sets the content rectangle inside a surface's buffer.
    pub fn set_window_geometry(&mut self, sid: u64, x: i32, y: i32, width: i32, height: i32)
        requires
            old(self).wf(),
        ensures
            final(self).wf(),
            final(self)@ == old(self)@.set_window_geometry(sid, x, y, width, height),
    {
        if let Some(r) = self.surface_rec(sid) {
            self.put_surface(
                sid,
                SurfaceRec { geometry_offset: (x, y), geometry_size: (width, height), ..r },
            );
        }
    }

    /// Sets a surface's logical size; a side that is not positive unsets it.
    pub fn set_destination(&mut self, sid: u64, width: i32, height: i32)
        requires
            old(self).wf(),
        ensures
            final(self).wf(),
            final(self)@ == old(self)@.set_destination(sid, width, height),
    {
        if let Some(r) = self.surface_rec(sid) {
            self.put_surface(
                sid,
                SurfaceRec {
                    viewport_dst: if width > 0 && height > 0 {
                        Some((width, height))
                    } else {
                        None
                    },
                    ..r
                },
            );
        }
    }

    /// Stages a color description, or its removal, for the next commit.
    pub fn stage_color(&mut self, sid: u64, color: Option<ColorDesc>)
        requires
            old(self).wf(),
        ensures
            final(self).wf(),
            final(self)@ == old(self)@.stage_color(sid, color),
    {
        if let Some(r) = self.surface_rec(sid) {
            self.put_surface(sid, SurfaceRec { pending_color: Some(color), ..r });
        }
    }

    /// Registers a frame callback; it is done at the next tick.
    pub fn frame(&mut self, sid: u64, callback: u64)
        requires
            old(self).wf(),
        ensures
            final(self).wf(),
            final(self)@ == old(self)@.frame(sid, callback),
    {
        if self.surfaces.contains(sid) {
            self.callbacks.push((sid, callback));
        }
        proof {
            lemma_windows_unchanged_wf(old(self)@, self@);
        }
    }

    /// Registers presentation feedback; it is told at the next tick.
    pub fn feedback(&mut self, feedback: u64)
        requires
            old(self).wf(),
        ensures
            final(self).wf(),
            final(self)@ == old(self)@.feedback(feedback),
    {
        self.feedbacks.push(feedback);
        proof {
            lemma_windows_unchanged_wf(old(self)@, self@);
        }
    }

    /// A tick of the emulated vertical blank: every frame callback and every
    /// presentation feedback that waits is answered. `sec` and `nsec` are the monotonic
    /// clock.
    pub fn vblank_tick(&mut self, time: u32, sec: u64, nsec: u32) -> (out: Vec<Emit>)
        requires
            old(self).wf(),
        ensures
            final(self).wf(),
            (Step { state: final(self)@, out: out@ }) == old(self)@.vblank_tick(time, sec, nsec),
    {
        let mut out: Vec<Emit> = Vec::new();
        let ghost cbs = self.callbacks@;
        let ghost fbs = self.feedbacks@;
        let mut i: usize = 0;
        while i < self.callbacks.len()
            invariant
                i <= self.callbacks@.len(),
                cbs == self.callbacks@,
                self@ == old(self)@,
                *self == *old(self),
                out@ =~= all_done(cbs.take(i as int), time),
            decreases self.callbacks@.len() - i,
        {
            let (_, callback) = self.callbacks[i];
            out.push(Emit::FrameDone { callback, time });
            assert(all_done(cbs.take(i + 1), time) =~= all_done(cbs.take(i as int), time).push(
                Emit::FrameDone { callback, time },
            ));
            i = i + 1;
        }
        assert(cbs.take(i as int) =~= cbs);
        let sec_hi: u32 = (sec / 0x1_0000_0000) as u32;
        let sec_lo: u32 = (sec % 0x1_0000_0000) as u32;
        let mut j: usize = 0;
        while j < self.feedbacks.len()
            invariant
                j <= self.feedbacks@.len(),
                fbs == self.feedbacks@,
                sec_hi == sec / 0x1_0000_0000,
                sec_lo == sec % 0x1_0000_0000,
                self@ == old(self)@,
                *self == *old(self),
                out@ =~= all_done(cbs, time) + all_presented(fbs.take(j as int), sec, nsec),
            decreases self.feedbacks@.len() - j,
        {
            let feedback: u64 = self.feedbacks[j];
            out.push(Emit::Presented { feedback, sec_hi, sec_lo, nsec, refresh: 16_666_667 });
            assert(all_presented(fbs.take(j + 1), sec, nsec) =~= all_presented(
                fbs.take(j as int),
                sec,
                nsec,
            ).push(Emit::Presented { feedback, sec_hi, sec_lo, nsec, refresh: 16_666_667 }));
            j = j + 1;
        }
        assert(fbs.take(j as int) =~= fbs);
        self.callbacks = Vec::new();
        self.feedbacks = Vec::new();
        proof {
            assert(self@.callbacks =~= Seq::<(u64, u64)>::empty());
            assert(self@.feedbacks =~= Seq::<u64>::empty());
            lemma_windows_unchanged_wf(old(self)@, self@);
        }
        out
    }

    /// Gives a surface the role of a subsurface. Ids are given out once.
    pub fn get_subsurface(&mut self, sub: u64, surface: u64, parent: u64) -> (out: Vec<Emit>)
        requires
            old(self).wf(),
            old(self)@.next_window_id < u32::MAX,
            !old(self)@.subsurfaces.contains_key(sub),
        ensures
            final(self).wf(),
            (Step { state: final(self)@, out: out@ }) == old(self)@.get_subsurface(
                sub,
                surface,
                parent,
            ),
    {
        let mut out: Vec<Emit> = Vec::new();
        let ghost want = old(self)@.get_subsurface(sub, surface, parent);
        if surface == parent {
            out.push(Emit::BadSurface);
            assert(out@ =~= want.out);
            return out;
        }
        let sub_id: u32 = self.next_window_id;
        self.next_window_id = sub_id + 1;
        self.subsurfaces.insert(sub, SubsurfaceRec { surface, parent, x: 0, y: 0, sub_id });
        self.surface_subsurface.insert(surface, sub);
        proof {
            lemma_new_subsurface_wf(old(self)@, sub, surface, parent);
            assert(self@ == want.state);
            assert(out@ =~= want.out);
        }
        out
    }

    /// Places a subsurface inside its parent.
    pub fn set_subsurface_position(&mut self, sub: u64, x: i32, y: i32)
        requires
            old(self).wf(),
        ensures
            final(self).wf(),
            final(self)@ == old(self)@.set_subsurface_position(sub, x, y),
    {
        let found: Option<SubsurfaceRec> = match self.subsurfaces.get(sub) {
            Some(r) => Some(*r),
            None => None,
        };
        if let Some(r) = found {
            self.subsurfaces.insert(sub, SubsurfaceRec { x, y, ..r });
            proof {
                let a = old(self)@;
                let b = self@;
                assert(a.wf() && a.roles_wf());
                assert forall|s: u64| #[trigger]
                    b.surface_subsurface.contains_key(s) implies b.subsurfaces.contains_key(
                    b.surface_subsurface[s],
                ) && b.subsurfaces[b.surface_subsurface[s]].surface == s by {
                    assert(a.surface_subsurface.contains_key(s));
                }
                assert(b.roles_wf());
                assert(b.windows_wf());
                assert(b.apps_wf());
            }
        }
    }

    /// Registers a positioner.
    pub fn create_positioner(&mut self, id: u64)
        requires
            old(self).wf(),
        ensures
            final(self).wf(),
            final(self)@ == old(self)@.create_positioner(id),
    {
        self.positioners.insert(id, PositionerState::default());
        proof {
            lemma_windows_unchanged_wf(old(self)@, self@);
        }
    }

    /// Changes a positioner; an unknown one starts out blank.
    pub fn positioner_request(&mut self, id: u64, req: PositionerRequest)
        requires
            old(self).wf(),
        ensures
            final(self).wf(),
            final(self)@ == old(self)@.positioner_request(id, req),
    {
        let mut p: PositionerState = match self.positioners.get(id) {
            Some(p) => *p,
            None => PositionerState::default(),
        };
        match req {
            PositionerRequest::SetSize { width, height } => {
                p.size = (width, height);
            },
            PositionerRequest::SetAnchorRect { x, y, width, height } => {
                p.anchor_rect = (x, y, width, height);
            },
            PositionerRequest::SetOffset { x, y } => {
                p.offset = (x, y);
            },
            PositionerRequest::SetAnchor { anchor } => {
                p.anchor = anchor;
            },
            PositionerRequest::SetGravity { gravity } => {
                p.gravity = gravity;
            },
            PositionerRequest::SetConstraintAdjustment { adjustment } => {
                p.constraint_adjustment = adjustment;
            },
        }
        self.positioners.insert(id, p);
        proof {
            lemma_windows_unchanged_wf(old(self)@, self@);
        }
    }

    /// Gives a surface the role of a toplevel. `version` is the object's.
    pub fn get_toplevel(&mut self, tl: u64, xdg_surface: u64, surface: SurfaceRef, version: u32)
        requires
            old(self).wf(),
            old(self)@.next_window_id < u32::MAX,
            !old(self)@.toplevels.contains_key(tl),
        ensures
            final(self).wf(),
            final(self)@ == old(self)@.get_toplevel(tl, xdg_surface, surface, version),
    {
        let window_id: u32 = self.next_window_id;
        self.next_window_id = window_id + 1;
        self.toplevels.insert(
            tl,
            ToplevelRec {
                xdg_surface,
                surface,
                version,
                window_id,
                configured: false,
                created_window: false,
                maximized: false,
                fullscreen: false,
                wants_ssd: false,
            },
        );
        self.titles.insert(tl, self.default_title.clone());
        self.app_ids.insert(tl, self.no_app_id.clone());
        self.surface_toplevel.insert(surface.id, tl);
        self.window_surface.insert(window_id as u64, surface);
        proof {
            lemma_new_toplevel_wf(old(self)@, tl, xdg_surface, surface, version);
            assert(self@ == old(self)@.get_toplevel(tl, xdg_surface, surface, version));
        }
    }

    /// Gives a surface the role of a popup of `parent`'s window.
    pub fn get_popup(
        &mut self,
        pp: u64,
        xdg_surface: u64,
        surface: SurfaceRef,
        parent: Option<u64>,
        positioner: u64,
    )
        requires
            old(self).wf(),
            old(self)@.next_window_id < u32::MAX,
            !old(self)@.popups.contains_key(pp),
        ensures
            final(self).wf(),
            final(self)@ == old(self)@.get_popup(pp, xdg_surface, surface, parent, positioner),
    {
        let mut pos: PositionerState = match self.positioners.get(positioner) {
            Some(p) => *p,
            None => PositionerState::default(),
        };
        if pos.size.0 == 0 && pos.size.1 == 0 {
            pos.size = (200, 200);
        }
        assert(pos == self@.placement(positioner));
        let (x, y) = pos.popup_origin();
        let x_flip: i32 = pos.origin_x(true);
        let y_flip: i32 = pos.origin_y(true);
        let parent_window: u32 = match parent {
            Some(s) => match self.window_for_surface(s) {
                Some(w) => w,
                None => 0,
            },
            None => 0,
        };
        let window_id: u32 = self.next_window_id;
        self.next_window_id = window_id + 1;
        self.popups.insert(
            pp,
            PopupRec {
                xdg_surface,
                surface,
                parent_window,
                window_id,
                x,
                y,
                x_flip,
                y_flip,
                constraint: pos.constraint_adjustment,
                w: pos.size.0,
                h: pos.size.1,
                configured: false,
                created_window: false,
            },
        );
        self.surface_popup.insert(surface.id, pp);
        self.window_surface.insert(window_id as u64, surface);
        proof {
            lemma_new_popup_wf(old(self)@, pp, xdg_surface, surface, parent, positioner);
            assert(self@ == old(self)@.get_popup(pp, xdg_surface, surface, parent, positioner));
        }
    }

    /// Gives a surface the role of a docked bar.
    pub fn get_layer_surface(&mut self, ls: u64, surface: SurfaceRef)
        requires
            old(self).wf(),
            old(self)@.next_window_id < u32::MAX,
            !old(self)@.layer_surfaces.contains_key(ls),
        ensures
            final(self).wf(),
            final(self)@ == old(self)@.get_layer_surface(ls, surface),
    {
        let window_id: u32 = self.next_window_id;
        self.next_window_id = window_id + 1;
        self.layer_surfaces.insert(
            ls,
            LayerSurfaceRec {
                surface,
                window_id,
                anchor: 0,
                size: (0, 0),
                margin: (0, 0, 0, 0),
                exclusive: 0,
                keyboard_interactivity: 0,
                configured: false,
                created_window: false,
            },
        );
        self.surface_layer.insert(surface.id, ls);
        self.window_surface.insert(window_id as u64, surface);
        proof {
            lemma_new_layer_wf(old(self)@, ls, surface);
            assert(self@ == old(self)@.get_layer_surface(ls, surface));
        }
    }

    /// The popup asks for an exclusive pointer grab.
    pub fn popup_grab(&self, pp: u64) -> (out: Vec<Emit>)
        requires
            self.wf(),
        ensures
            out@ == self@.popup_grab(pp),
    {
        let mut out: Vec<Emit> = Vec::new();
        if let Some(p) = self.popups.get(pp) {
            out.push(Emit::Post { cmd: WinCmd::SetGrab { window: Some(p.window_id) } });
        }
        assert(out@ =~= post_if(
            self@.popups.contains_key(pp),
            WinCmd::SetGrab { window: Some(self@.popups[pp].window_id) },
        ));
        out
    }

    /// Forgets a toplevel and destroys its window. Can be called more than once.
    pub fn reap_toplevel(&mut self, tl: u64) -> (out: Vec<Emit>)
        requires
            old(self).wf(),
        ensures
            final(self).wf(),
            (Step { state: final(self)@, out: out@ }) == old(self)@.reap_toplevel(tl),
    {
        let mut out: Vec<Emit> = Vec::new();
        let ghost want = old(self)@.reap_toplevel(tl);
        if let Some(t) = self.toplevels.remove(tl) {
            let _ = self.titles.remove(tl);
            let _ = self.app_ids.remove(tl);
            let _ = self.icons.remove(tl);
            let _ = self.surface_toplevel.remove(t.surface.id);
            let _ = self.window_surface.remove(t.window_id as u64);
            if t.created_window {
                out.push(Emit::Post { cmd: WinCmd::Destroy { id: t.window_id } });
            }
        } else {
            assert(self@.toplevels =~= old(self)@.toplevels);
        }
        proof {
            lemma_reap_toplevel_wf(old(self)@, tl);
            assert(out@ =~= want.out);
            assert(self@ == want.state);
        }
        out
    }

    /// Forgets a popup and destroys its window. Can be called more than once.
    pub fn reap_popup(&mut self, pp: u64) -> (out: Vec<Emit>)
        requires
            old(self).wf(),
        ensures
            final(self).wf(),
            (Step { state: final(self)@, out: out@ }) == old(self)@.reap_popup(pp),
    {
        let mut out: Vec<Emit> = Vec::new();
        let ghost want = old(self)@.reap_popup(pp);
        if let Some(p) = self.popups.remove(pp) {
            let _ = self.surface_popup.remove(p.surface.id);
            let _ = self.window_surface.remove(p.window_id as u64);
            out.push(Emit::Post { cmd: WinCmd::Destroy { id: p.window_id } });
        } else {
            assert(self@.popups =~= old(self)@.popups);
        }
        proof {
            lemma_reap_popup_wf(old(self)@, pp);
            assert(out@ =~= want.out);
            assert(self@ == want.state);
        }
        out
    }

    fn largest_zone(&self, edge: Edge) -> (v: i32)
        requires
            self.tables_wf(),
        ensures
            v == reserved(self@.layer_surfaces, edge),
    {
        let n: usize = self.layer_surfaces.len();
        proof {
            self.layer_surfaces.lemma_ids();
        }
        let ghost layers = self@.layer_surfaces;
        let mut v: i32 = 0;
        let mut i: usize = 0;
        while i < n
            invariant
                self.layer_surfaces.wf(),
                layers == self.layer_surfaces@,
                i <= n == self.layer_surfaces.ids().len(),
                v >= 0,
                forall|j: int|
                    0 <= j < i ==> zone(layers[#[trigger] self.layer_surfaces.ids()[j]], edge) <= v,
                v == 0 || exists|k: u64| #[trigger]
                    layers.contains_key(k) && zone(layers[k], edge) == v,
            decreases n - i,
        {
            let l: LayerSurfaceRec = *self.layer_surfaces.value_at(i);
            let k: u64 = self.layer_surfaces.id_at(i);
            let a: u32 = l.anchor;
            let docked: bool = match edge {
                Edge::Top => a & 1 != 0 && a & 2 == 0,
                Edge::Bottom => a & 2 != 0 && a & 1 == 0,
                Edge::Left => a & 4 != 0 && a & 8 == 0,
                Edge::Right => a & 8 != 0 && a & 4 == 0,
            };
            if l.exclusive > v && docked {
                v = l.exclusive;
                assert(layers.contains_key(k) && zone(layers[k], edge) == v);
            }
            i = i + 1;
        }
        proof {
            assert(is_reserved(layers, edge, v));
            lemma_reserved_is_unique(layers, edge, v);
        }
        v
    }

    fn recompute_reserved(&self) -> (e: Emit)
        requires
            self.tables_wf(),
        ensures
            e == insets_of(self@.layer_surfaces),
    {
        Emit::SetInsets {
            top: self.largest_zone(Edge::Top),
            right: self.largest_zone(Edge::Right),
            bottom: self.largest_zone(Edge::Bottom),
            left: self.largest_zone(Edge::Left),
        }
    }

    /// Forgets a docked bar, destroys its window, and works the insets out anew.
    pub fn reap_layer_surface(&mut self, ls: u64) -> (out: Vec<Emit>)
        requires
            old(self).wf(),
        ensures
            final(self).wf(),
            (Step { state: final(self)@, out: out@ }) == old(self)@.reap_layer_surface(ls),
    {
        let mut out: Vec<Emit> = Vec::new();
        let ghost want = old(self)@.reap_layer_surface(ls);
        if let Some(l) = self.layer_surfaces.remove(ls) {
            let _ = self.surface_layer.remove(l.surface.id);
            let _ = self.window_surface.remove(l.window_id as u64);
            if let Some(w) = self.focus_window {
                if w == l.window_id {
                    self.focus_window = None;
                }
            }
            if l.created_window {
                out.push(Emit::Post { cmd: WinCmd::Destroy { id: l.window_id } });
            }
        } else {
            assert(self@.layer_surfaces =~= old(self)@.layer_surfaces);
        }
        assert(self@ == want.state);
        out.push(self.recompute_reserved());
        proof {
            lemma_reap_layer_wf(old(self)@, ls);
            assert(out@ =~= want.out);
        }
        out
    }

    /// Carries out what a client asks of a docked bar.
    pub fn layer_request(&mut self, ls: u64, req: LayerRequest) -> (out: Vec<Emit>)
        requires
            old(self).wf(),
        ensures
            final(self).wf(),
            (Step { state: final(self)@, out: out@ }) == old(self)@.layer_request(ls, req),
    {
        let mut out: Vec<Emit> = Vec::new();
        let ghost want = old(self)@.layer_request(ls, req);
        let mut l: LayerSurfaceRec = match self.layer_surfaces.get(ls) {
            Some(l) => *l,
            None => {
                assert(out@ =~= want.out);
                return out;
            },
        };
        let mut insets: bool = false;
        match req {
            LayerRequest::SetSize { width, height } => {
                l.size = (width, height);
            },
            LayerRequest::SetAnchor { anchor } => {
                l.anchor = anchor;
                insets = true;
            },
            LayerRequest::SetMargin { top, right, bottom, left } => {
                l.margin = (top, right, bottom, left);
            },
            LayerRequest::SetExclusiveZone { zone } => {
                l.exclusive = zone;
                insets = true;
            },
            LayerRequest::SetKeyboardInteractivity { mode } => {
                l.keyboard_interactivity = mode;
            },
        }
        self.layer_surfaces.insert(ls, l);
        assert(self@ == want.state);
        if insets {
            out.push(self.recompute_reserved());
        }
        proof {
            assert(same_windows(old(self)@, self@));
            lemma_same_windows_wf(old(self)@, self@);
            assert(out@ =~= want.out);
        }
        out
    }

    /// Carries out what a client asks of a toplevel.
    pub fn toplevel_request(&mut self, tl: u64, req: ToplevelRequest) -> (out: Vec<Emit>)
        requires
            old(self).wf(),
        ensures
            final(self).wf(),
            (Step { state: final(self)@, out: out@ }) == old(self)@.toplevel_request(tl, req),
    {
        let mut out: Vec<Emit> = Vec::new();
        let ghost want = old(self)@.toplevel_request(tl, req);
        let t: ToplevelRec = match self.toplevels.get(tl) {
            Some(t) => *t,
            None => {
                assert(out@ =~= want.out);
                return out;
            },
        };
        let id: u32 = t.window_id;
        match req {
            ToplevelRequest::SetTitle { title } => {
                if t.created_window {
                    out.push(Emit::Post { cmd: WinCmd::Title { id, title: title.clone() } });
                }
                self.titles.insert(tl, title);
                proof {
                    lemma_windows_unchanged_wf(old(self)@, self@);
                }
            },
            ToplevelRequest::SetAppId { app_id } => {
                self.app_ids.insert(tl, app_id);
                proof {
                    lemma_windows_unchanged_wf(old(self)@, self@);
                }
            },
            ToplevelRequest::Move => {
                if t.created_window {
                    out.push(Emit::Post { cmd: WinCmd::StartMove { id } });
                }
            },
            ToplevelRequest::Resize { edges } => {
                if t.created_window {
                    out.push(Emit::Post { cmd: WinCmd::StartResize { id, edges } });
                }
            },
            ToplevelRequest::SetMaximized { on } => {
                self.toplevels.insert(tl, ToplevelRec { maximized: on, ..t });
                out.push(Emit::Post { cmd: WinCmd::Maximize { id, on } });
                proof {
                    assert(same_windows(old(self)@, self@));
                    lemma_same_windows_wf(old(self)@, self@);
                }
            },
            ToplevelRequest::SetFullscreen { on } => {
                self.toplevels.insert(tl, ToplevelRec { fullscreen: on, ..t });
                out.push(Emit::Post { cmd: WinCmd::Fullscreen { id, on } });
                proof {
                    assert(same_windows(old(self)@, self@));
                    lemma_same_windows_wf(old(self)@, self@);
                }
            },
            ToplevelRequest::SetMinimized => {
                out.push(Emit::Post { cmd: WinCmd::Minimize { id } });
            },
            ToplevelRequest::SetMinSize { width, height } => {
                out.push(Emit::Post { cmd: WinCmd::SetMinSize { id, width, height } });
            },
            ToplevelRequest::SetMaxSize { width, height } => {
                out.push(Emit::Post { cmd: WinCmd::SetMaxSize { id, width, height } });
            },
            ToplevelRequest::SetModal { modal } => {
                out.push(Emit::Post { cmd: WinCmd::SetModal { id, modal } });
            },
            ToplevelRequest::Decorate => {
                self.toplevels.insert(tl, ToplevelRec { wants_ssd: true, ..t });
                proof {
                    assert(same_windows(old(self)@, self@));
                    lemma_same_windows_wf(old(self)@, self@);
                }
            },
            ToplevelRequest::Destroy => {
                return self.reap_toplevel(tl);
            },
        }
        assert(out@ =~= want.out);
        assert(self@ == want.state);
        out
    }
}

/// Where the best icon stands: among the plain 8-bit images the largest by area, and
/// the last of equal ones.
pub open spec fn best_icon(icons: Seq<PixelBuf>) -> Option<int>
    decreases icons.len(),
{
    if icons.len() == 0 {
        None
    } else {
        let before = best_icon(icons.drop_last());
        if icons.last().format != PixelFormat::Bgra8888 {
            before
        } else if before is Some && icons[before->0].width * icons[before->0].height
            > icons.last().width * icons.last().height {
            before
        } else {
            Some(icons.len() - 1)
        }
    }
}

/// Picks the icon to show: the largest plain 8-bit one, the last of equal ones.
pub fn pick_icon(icons: Vec<PixelBuf>) -> (r: Option<PixelBuf>)
    ensures
        r is Some == best_icon(icons@) is Some,
        r is Some ==> 0 <= best_icon(icons@)->0 < icons@.len() && r->0
            == icons@[best_icon(icons@)->0],
{
    let mut best: Option<usize> = None;
    let mut i: usize = 0;
    assert(icons@.take(0) =~= Seq::<PixelBuf>::empty());
    while i < icons.len()
        invariant
            i <= icons@.len(),
            best is Some == best_icon(icons@.take(i as int)) is Some,
            best is Some ==> best->0 < i && best_icon(icons@.take(i as int))->0 == best->0,
        decreases icons@.len() - i,
    {
        assert(icons@.take(i + 1).drop_last() =~= icons@.take(i as int));
        if icons[i].format == PixelFormat::Bgra8888 {
            let beaten: bool = match best {
                Some(b) => area(icons[b].width, icons[b].height) > area(
                    icons[i].width,
                    icons[i].height,
                ),
                None => false,
            };
            if !beaten {
                best = Some(i);
            }
        }
        i = i + 1;
    }
    assert(icons@.take(i as int) =~= icons@);
    match best {
        Some(b) => {
            let mut rest: Vec<PixelBuf> = icons;
            Some(rest.remove(b))
        },
        None => None,
    }
}

fn area(w: i32, h: i32) -> (a: i64)
    ensures
        a == w * h,
{
    assert(-0x8000_0000 * 0x8000_0000 <= w * h <= 0x8000_0000 * 0x8000_0000) by (nonlinear_arith)
        requires
            -0x8000_0000 <= w <= 0x7fff_ffff,
            -0x8000_0000 <= h <= 0x7fff_ffff,
    ;
    w as i64 * h as i64
}

impl State {
    fn drop_callbacks(&mut self, sid: u64)
        requires
            old(self).tables_wf(),
        ensures
            final(self).tables_wf(),
            final(self)@ == (StateView {
                callbacks: old(self)@.callbacks.filter(not_of(sid)),
                ..old(self)@
            }),
    {
        let mut kept: Vec<(u64, u64)> = Vec::new();
        let ghost all = self.callbacks@;
        let mut i: usize = 0;
        while i < self.callbacks.len()
            invariant
                i <= self.callbacks@.len(),
                *self == *old(self),
                all == self.callbacks@,
                kept@ == all.take(i as int).filter(not_of(sid)),
            decreases self.callbacks@.len() - i,
        {
            let c: (u64, u64) = self.callbacks[i];
            proof {
                assert(all.take(i + 1) =~= all.take(i as int).push(c));
                all.take(i as int).lemma_filter_push(c, not_of(sid));
            }
            if c.0 != sid {
                kept.push(c);
            }
            i = i + 1;
        }
        assert(all.take(i as int) =~= all);
        self.callbacks = kept;
    }

    fn drop_surface_toplevel(&mut self, sid: u64, out: &mut Vec<Emit>)
        requires
            old(self).wf(),
        ensures
            final(self).wf(),
            final(self)@ == old(self)@.surface_toplevel_gone(sid).state,
            final(out)@ == old(out)@ + old(self)@.surface_toplevel_gone(sid).out,
    {
        let ghost want = self@.surface_toplevel_gone(sid);
        proof {
            self.lemma_wf();
            lemma_surface_toplevel_gone_wf(self@, sid);
        }
        if let Some(tl) = self.surface_toplevel.remove(sid) {
            assert(old(self)@.surface_toplevel.contains_key(sid));
            if let Some(t) = self.toplevels.remove(tl) {
                let _ = self.titles.remove(tl);
                let _ = self.app_ids.remove(tl);
                let _ = self.icons.remove(tl);
                if t.created_window {
                    out.push(Emit::Post { cmd: WinCmd::Destroy { id: t.window_id } });
                }
            }
        } else {
            assert(self@.surface_toplevel =~= old(self)@.surface_toplevel);
        }
        assert(self@ == want.state);
        assert(out@ =~= old(out)@ + want.out);
    }

    /// Destroys a surface with the roles that it has.
    pub fn destroy_surface(&mut self, sid: u64) -> (out: Vec<Emit>)
        requires
            old(self).wf(),
        ensures
            final(self).wf(),
            (Step { state: final(self)@, out: out@ }) == old(self)@.destroy_surface(sid),
    {
        let mut out: Vec<Emit> = Vec::new();
        let ghost want = old(self)@.destroy_surface(sid);
        self.drop_surface_toplevel(sid, &mut out);
        let ghost a = self@;
        let ghost out_a = out@;
        let sub: Option<u64> = match self.surface_subsurface.get(sid) {
            Some(sub) => Some(*sub),
            None => None,
        };
        if let Some(sub) = sub {
            let mut more = self.reap_subsurface(sub);
            out.append(&mut more);
        }
        assert(self@ == a.surface_subsurface_gone(sid).state);
        assert(out@ =~= out_a + a.surface_subsurface_gone(sid).out);
        let ghost b = self@;
        let ghost out_b = out@;
        let ls: Option<u64> = match self.surface_layer.get(sid) {
            Some(ls) => Some(*ls),
            None => None,
        };
        if let Some(ls) = ls {
            let mut more = self.reap_layer_surface(ls);
            out.append(&mut more);
        }
        assert(self@ == b.surface_layer_gone(sid).state);
        assert(out@ =~= out_b + b.surface_layer_gone(sid).out);
        let ghost c = self@;
        if let Some(cursor) = self.cursor_surface {
            if cursor == sid {
                self.cursor_surface = None;
            }
        }
        let _ = self.surfaces.remove(sid);
        self.drop_callbacks(sid);
        proof {
            assert(self@ == c.surface_gone(sid));
            lemma_windows_unchanged_wf(c, self@);
            assert(out@ =~= want.out);
            assert(self@ == want.state);
        }
        out
    }

    /// Makes a surface the cursor, or hides the cursor. `content` is what
    /// `buffer_to_pixels` gave for the buffer that `pending_buffer` names.
    pub fn set_cursor(
        &mut self,
        surface: Option<u64>,
        hotspot: (i32, i32),
        content: Option<PixelBuf>,
        display: &Display,
    ) -> (out: Vec<Emit>)
        requires
            old(self).wf(),
        ensures
            final(self).wf(),
            (Step { state: final(self)@, out: out@ }) == old(self)@.set_cursor(
                surface,
                hotspot,
                content,
                *display,
            ),
    {
        let mut out: Vec<Emit> = Vec::new();
        let ghost want = old(self)@.set_cursor(surface, hotspot, content, *display);
        match surface {
            None => {
                self.cursor_surface = None;
                out.push(Emit::Post { cmd: WinCmd::HideCursor });
            },
            Some(sid) => {
                self.cursor_surface = Some(sid);
                self.cursor_hotspot = hotspot;
                let found: Option<SurfaceRec> = match self.surfaces.get(sid) {
                    Some(r) => Some(*r),
                    None => None,
                };
                if let Some(r) = found {
                    if let Some(buffer) = r.pending_buffer {
                        self.surfaces.insert(sid, SurfaceRec { pending_buffer: None, ..r });
                        if let Some(pb) = content {
                            out.push(
                                Emit::Post {
                                    cmd: WinCmd::SetCursorImage {
                                        width: pb.width,
                                        height: pb.height,
                                        stride: pb.stride,
                                        hotspot_x: hotspot.0,
                                        hotspot_y: hotspot.1,
                                        scale: scale(display),
                                        pixels: pb.bytes,
                                    },
                                },
                            );
                        }
                        out.push(Emit::ReleaseBuffer { buffer });
                    }
                }
            },
        }
        proof {
            lemma_windows_unchanged_wf(old(self)@, self@);
            assert(out@ =~= want.out);
            assert(self@ == want.state);
        }
        out
    }

    /// Sets a toplevel's icon.
    pub fn set_icon(&mut self, tl: u64, icon: PixelBuf) -> (out: Vec<Emit>)
        requires
            old(self).wf(),
        ensures
            final(self).wf(),
            (Step { state: final(self)@, out: out@ }) == old(self)@.set_icon(tl, icon),
    {
        let mut out: Vec<Emit> = Vec::new();
        let ghost want = old(self)@.set_icon(tl, icon);
        let found: Option<ToplevelRec> = match self.toplevels.get(tl) {
            Some(t) => Some(*t),
            None => None,
        };
        if let Some(t) = found {
            if t.created_window {
                out.push(
                    Emit::Post {
                        cmd: WinCmd::SetIcon {
                            id: t.window_id,
                            width: icon.width,
                            height: icon.height,
                            stride: icon.stride,
                            pixels: icon.bytes,
                        },
                    },
                );
            } else {
                self.icons.insert(
                    tl,
                    IconPixels {
                        width: icon.width,
                        height: icon.height,
                        stride: icon.stride,
                        pixels: icon.bytes,
                    },
                );
            }
        }
        proof {
            lemma_windows_unchanged_wf(old(self)@, self@);
            assert(out@ =~= want.out);
            assert(self@ == want.state);
        }
        out
    }

    /// Drops an icon that waits for its toplevel's window.
    pub fn reset_icon(&mut self, tl: u64)
        requires
            old(self).wf(),
        ensures
            final(self).wf(),
            final(self)@ == old(self)@.reset_icon(tl),
    {
        if self.toplevels.contains(tl) {
            let _ = self.icons.remove(tl);
        }
        proof {
            lemma_windows_unchanged_wf(old(self)@, self@);
        }
    }

    /// Raises the window of a surface; the token is not looked at.
    pub fn activate(&self, sid: u64) -> (out: Vec<Emit>)
        requires
            self.wf(),
        ensures
            out@ == self@.activate(sid),
    {
        let mut out: Vec<Emit> = Vec::new();
        if let Some(id) = self.window_for_surface(sid) {
            out.push(Emit::Post { cmd: WinCmd::Activate { id } });
        }
        assert(out@ =~= match self@.window_of(sid) {
            Some(id) => seq![post(WinCmd::Activate { id })],
            None => Seq::empty(),
        });
        out
    }

    /// Answers a request for an activation token.
    pub fn commit_token(&mut self, token: u64) -> (e: Emit)
        requires
            old(self).wf(),
        ensures
            final(self).wf(),
            final(self)@ == old(self)@.serial_used(),
            e == (Emit::TokenDone { token, serial: old(self)@.next_serial }),
    {
        let serial: u32 = self.serial();
        proof {
            lemma_windows_unchanged_wf(old(self)@, self@);
        }
        Emit::TokenDone { token, serial }
    }

    /// Registers a client's pointer object.
    pub fn add_pointer(&mut self, d: Device)
        requires
            old(self).wf(),
        ensures
            final(self).wf(),
            final(self)@ == (StateView { pointers: old(self)@.pointers.push(d), ..old(self)@ }),
    {
        self.pointers.push(d);
        proof {
            lemma_windows_unchanged_wf(old(self)@, self@);
        }
    }

    /// Registers a client's keyboard object.
    pub fn add_keyboard(&mut self, d: Device)
        requires
            old(self).wf(),
        ensures
            final(self).wf(),
            final(self)@ == (StateView { keyboards: old(self)@.keyboards.push(d), ..old(self)@ }),
    {
        self.keyboards.push(d);
        proof {
            lemma_windows_unchanged_wf(old(self)@, self@);
        }
    }

    /// Forgets a pointer object that no longer lives.
    pub fn drop_pointer(&mut self, id: u64)
        requires
            old(self).wf(),
        ensures
            final(self).wf(),
            final(self)@ == (StateView {
                pointers: old(self)@.pointers.filter(not_device(id)),
                ..old(self)@
            }),
    {
        self.pointers = without_device(&self.pointers, id);
        proof {
            lemma_windows_unchanged_wf(old(self)@, self@);
        }
    }

    /// Forgets a keyboard object that no longer lives.
    pub fn drop_keyboard(&mut self, id: u64)
        requires
            old(self).wf(),
        ensures
            final(self).wf(),
            final(self)@ == (StateView {
                keyboards: old(self)@.keyboards.filter(not_device(id)),
                ..old(self)@
            }),
    {
        self.keyboards = without_device(&self.keyboards, id);
        proof {
            lemma_windows_unchanged_wf(old(self)@, self@);
        }
    }
}

/// Holds of every device but one.
pub open spec fn not_device(id: u64) -> spec_fn(Device) -> bool {
    |d: Device| d.id != id
}

pub(super) fn without_device(devices: &Vec<Device>, id: u64) -> (kept: Vec<Device>)
    ensures
        kept@ == devices@.filter(not_device(id)),
{
    let mut kept: Vec<Device> = Vec::new();
    let mut i: usize = 0;
    while i < devices.len()
        invariant
            i <= devices@.len(),
            kept@ == devices@.take(i as int).filter(not_device(id)),
        decreases devices@.len() - i,
    {
        let d: Device = devices[i];
        proof {
            assert(devices@.take(i + 1) =~= devices@.take(i as int).push(d));
            devices@.take(i as int).lemma_filter_push(d, not_device(id));
        }
        if d.id != id {
            kept.push(d);
        }
        i = i + 1;
    }
    assert(devices@.take(i as int) =~= devices@);
    kept
}

} // verus!
