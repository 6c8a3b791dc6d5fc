//! Input on its way to the clients: pointer and keyboard focus.

use super::{
    chain, post, quiet, Device, Emit, KeyboardEvent, PointerEvent, State, StateView, Step,
    SurfaceRef,
};
use crate::cmd::WinCmd;
use crate::input::InputEvent;
use vstd::prelude::*;

verus! {

/// An event on a pointer object, closed by a frame event where the object knows it.
pub open spec fn framed(p: Device, event: PointerEvent) -> Seq<Emit> {
    if p.version >= 5 {
        seq![
            Emit::Pointer { id: p.id, event },
            Emit::Pointer { id: p.id, event: PointerEvent::Frame },
        ]
    } else {
        seq![Emit::Pointer { id: p.id, event }]
    }
}

/// An event on every pointer object of a client.
pub open spec fn to_pointers(devices: Seq<Device>, client: u64, event: PointerEvent) -> Seq<Emit>
    decreases devices.len(),
{
    if devices.len() == 0 {
        Seq::empty()
    } else if devices.last().client == client {
        to_pointers(devices.drop_last(), client, event) + framed(devices.last(), event)
    } else {
        to_pointers(devices.drop_last(), client, event)
    }
}

/// An event on every keyboard object of a client.
pub open spec fn to_keyboards(devices: Seq<Device>, client: u64, event: KeyboardEvent) -> Seq<Emit>
    decreases devices.len(),
{
    if devices.len() == 0 {
        Seq::empty()
    } else if devices.last().client == client {
        to_keyboards(devices.drop_last(), client, event).push(
            Emit::Keyboard { id: devices.last().id, event },
        )
    } else {
        to_keyboards(devices.drop_last(), client, event)
    }
}

/// Scrolling on one pointer object: each axis that moved, then a frame.
pub open spec fn scroll(p: Device, time: u32, dx: i64, dy: i64) -> Seq<Emit> {
    let v: Seq<Emit> = if dy != 0 {
        seq![
            Emit::Pointer { id: p.id, event: PointerEvent::Axis { time, vertical: true, value: dy } },
        ]
    } else {
        Seq::empty()
    };
    let h: Seq<Emit> = if dx != 0 {
        seq![
            Emit::Pointer {
                id: p.id,
                event: PointerEvent::Axis { time, vertical: false, value: dx },
            },
        ]
    } else {
        Seq::empty()
    };
    let f: Seq<Emit> = if p.version >= 5 {
        seq![Emit::Pointer { id: p.id, event: PointerEvent::Frame }]
    } else {
        Seq::empty()
    };
    v + h + f
}

/// Scrolling on every pointer object.
pub open spec fn scroll_all(devices: Seq<Device>, time: u32, dx: i64, dy: i64) -> Seq<Emit>
    decreases devices.len(),
{
    if devices.len() == 0 {
        Seq::empty()
    } else {
        scroll_all(devices.drop_last(), time, dx, dy) + scroll(devices.last(), time, dx, dy)
    }
}

fn send_pointers(devices: &Vec<Device>, client: u64, event: PointerEvent, out: &mut Vec<Emit>)
    ensures
        final(out)@ == old(out)@ + to_pointers(devices@, client, event),
{
    let mut i: usize = 0;
    assert(out@ =~= old(out)@ + to_pointers(devices@.take(0), client, event));
    while i < devices.len()
        invariant
            i <= devices@.len(),
            out@ == old(out)@ + to_pointers(devices@.take(i as int), client, event),
        decreases devices@.len() - i,
    {
        let p = devices[i];
        let ghost before = out@;
        assert(devices@.take(i + 1).drop_last() =~= devices@.take(i as int));
        if p.client == client {
            out.push(Emit::Pointer { id: p.id, event });
            if p.version >= 5 {
                out.push(Emit::Pointer { id: p.id, event: PointerEvent::Frame });
            }
            assert(out@ =~= before + framed(p, event));
        }
        i = i + 1;
        assert(out@ =~= old(out)@ + to_pointers(devices@.take(i as int), client, event));
    }
    assert(devices@.take(i as int) =~= devices@);
}

pub(crate) fn send_keyboards(
    devices: &Vec<Device>,
    client: u64,
    event: KeyboardEvent,
    out: &mut Vec<Emit>,
)
    ensures
        final(out)@ == old(out)@ + to_keyboards(devices@, client, event),
{
    let mut i: usize = 0;
    assert(out@ =~= old(out)@ + to_keyboards(devices@.take(0), client, event));
    while i < devices.len()
        invariant
            i <= devices@.len(),
            out@ == old(out)@ + to_keyboards(devices@.take(i as int), client, event),
        decreases devices@.len() - i,
    {
        let k = devices[i];
        assert(devices@.take(i + 1).drop_last() =~= devices@.take(i as int));
        if k.client == client {
            out.push(Emit::Keyboard { id: k.id, event });
        }
        i = i + 1;
        assert(out@ =~= old(out)@ + to_keyboards(devices@.take(i as int), client, event));
    }
    assert(devices@.take(i as int) =~= devices@);
}

fn send_scroll(devices: &Vec<Device>, time: u32, dx: i64, dy: i64, out: &mut Vec<Emit>)
    ensures
        final(out)@ == old(out)@ + scroll_all(devices@, time, dx, dy),
{
    let mut i: usize = 0;
    assert(out@ =~= old(out)@ + scroll_all(devices@.take(0), time, dx, dy));
    while i < devices.len()
        invariant
            i <= devices@.len(),
            out@ == old(out)@ + scroll_all(devices@.take(i as int), time, dx, dy),
        decreases devices@.len() - i,
    {
        let p = devices[i];
        let ghost before = out@;
        assert(devices@.take(i + 1).drop_last() =~= devices@.take(i as int));
        if dy != 0 {
            out.push(
                Emit::Pointer {
                    id: p.id,
                    event: PointerEvent::Axis { time, vertical: true, value: dy },
                },
            );
        }
        if dx != 0 {
            out.push(
                Emit::Pointer {
                    id: p.id,
                    event: PointerEvent::Axis { time, vertical: false, value: dx },
                },
            );
        }
        if p.version >= 5 {
            out.push(Emit::Pointer { id: p.id, event: PointerEvent::Frame });
        }
        assert(out@ =~= before + scroll(p, time, dx, dy));
        i = i + 1;
        assert(out@ =~= old(out)@ + scroll_all(devices@.take(i as int), time, dx, dy));
    }
    assert(devices@.take(i as int) =~= devices@);
}

impl StateView {
    /// The pointer leaves the window that has it.
    pub open spec fn pointer_left(self) -> Step {
        if self.pointer_focus is Some && self.window_surface.contains_key(
            self.pointer_focus->0 as u64,
        ) {
            let prev = self.window_surface[self.pointer_focus->0 as u64];
            Step {
                state: self.serial_used(),
                out: to_pointers(
                    self.pointers,
                    prev.client,
                    PointerEvent::Leave { serial: self.next_serial, surface: prev.id },
                ),
            }
        } else {
            quiet(self)
        }
    }

    /// The pointer enters a window.
    pub open spec fn pointer_entered(self, window_id: u32, x: i64, y: i64) -> Step {
        let surface = self.window_surface[window_id as u64];
        Step {
            state: StateView { pointer_focus: Some(window_id), ..self.serial_used() },
            out: to_pointers(
                self.pointers,
                surface.client,
                PointerEvent::Enter { serial: self.next_serial, surface: surface.id, x, y },
            ),
        }
    }

    /// The pointer moves to a window, unless it is there or the window is unknown:
    /// first the old window is left, then the new one entered.
    pub open spec fn pointer_focused(self, window_id: u32, x: i64, y: i64) -> Step {
        if !self.window_surface.contains_key(window_id as u64) || self.pointer_focus == Some(
            window_id,
        ) {
            quiet(self)
        } else {
            chain(self.pointer_left(), self.pointer_left().state.pointer_entered(window_id, x, y))
        }
    }

    /// An event on the pointers of the client that owns a window.
    pub open spec fn on_pointers(self, window_id: u32, event: PointerEvent) -> Seq<Emit> {
        to_pointers(self.pointers, self.window_surface[window_id as u64].client, event)
    }

    /// An event on the keyboards of the client that owns a window.
    pub open spec fn on_keyboards(self, window_id: u32, event: KeyboardEvent) -> Seq<Emit> {
        to_keyboards(self.keyboards, self.window_surface[window_id as u64].client, event)
    }

    /// Keyboard focus changes. A second enter or a leave without an enter would break
    /// the protocol, so repeated changes are dropped. A newly focused client is
    /// offered the pasteboard.
    pub open spec fn keyboard_focused(self, window_id: u32, focused: bool) -> Step {
        if focused == (self.focus_window == Some(window_id)) || !self.window_surface.contains_key(
            window_id as u64,
        ) {
            quiet(self)
        } else {
            let surface = self.window_surface[window_id as u64];
            let serial = self.next_serial;
            if focused {
                Step {
                    state: StateView { focus_window: Some(window_id), ..self.serial_used() },
                    out: self.on_keyboards(
                        window_id,
                        KeyboardEvent::Enter { serial, surface: surface.id },
                    ).push(Emit::AdvertiseClipboard { client: surface.client }),
                }
            } else {
                Step {
                    state: StateView { focus_window: None, ..self.serial_used() },
                    out: self.on_keyboards(
                        window_id,
                        KeyboardEvent::Leave { serial, surface: surface.id },
                    ),
                }
            }
        }
    }

    /// The toplevel of a window.
    pub open spec fn toplevel_with(self, window_id: u32) -> Option<u64> {
        if exists|t: u64| #[trigger]
            self.toplevels.contains_key(t) && self.toplevels[t].window_id == window_id {
            Some(
                choose|t: u64| #[trigger]
                    self.toplevels.contains_key(t) && self.toplevels[t].window_id == window_id,
            )
        } else {
            None
        }
    }

    /// The popup of a window.
    pub open spec fn popup_with(self, window_id: u32) -> Option<u64> {
        if exists|p: u64| #[trigger]
            self.popups.contains_key(p) && self.popups[p].window_id == window_id {
            Some(
                choose|p: u64| #[trigger]
                    self.popups.contains_key(p) && self.popups[p].window_id == window_id,
            )
        } else {
            None
        }
    }

    /// What an input event does. `time` is the compositor's clock in milliseconds.
    pub open spec fn process_input(self, ev: InputEvent, time: u32) -> Step {
        match ev {
            InputEvent::PointerEnter { window_id, x, y } => self.pointer_focused(window_id, x, y),
            InputEvent::PointerMotion { window_id, x, y } => {
                let s = self.pointer_focused(window_id, x, y);
                if self.window_surface.contains_key(window_id as u64) {
                    Step {
                        state: s.state,
                        out: s.out + self.on_pointers(
                            window_id,
                            PointerEvent::Motion { time, x, y },
                        ),
                    }
                } else {
                    s
                }
            },
            InputEvent::PointerButton { window_id, button, pressed } => {
                let s = self.pointer_focused(window_id, 0, 0);
                if self.window_surface.contains_key(window_id as u64) {
                    Step {
                        state: s.state.serial_used(),
                        out: s.out + self.on_pointers(
                            window_id,
                            PointerEvent::Button {
                                serial: s.state.next_serial,
                                time,
                                button,
                                pressed,
                            },
                        ),
                    }
                } else {
                    s
                }
            },
            InputEvent::PointerAxis { dx, dy } => Step {
                state: self,
                out: scroll_all(self.pointers, time, dx, dy),
            },
            InputEvent::PointerLeave { window_id } => if self.pointer_focus == Some(window_id)
                && self.window_surface.contains_key(window_id as u64) {
                Step {
                    state: StateView { pointer_focus: None, ..self.serial_used() },
                    out: self.pointer_left().out,
                }
            } else {
                quiet(self)
            },
            InputEvent::Key { keycode, pressed } => if self.focus_window is Some
                && self.window_surface.contains_key(self.focus_window->0 as u64) {
                Step {
                    state: self.serial_used(),
                    out: self.on_keyboards(
                        self.focus_window->0,
                        KeyboardEvent::Key { serial: self.next_serial, time, keycode, pressed },
                    ),
                }
            } else {
                quiet(self)
            },
            InputEvent::Modifiers { depressed, locked } => if self.focus_window is Some
                && self.window_surface.contains_key(self.focus_window->0 as u64) {
                Step {
                    state: self.serial_used(),
                    out: self.on_keyboards(
                        self.focus_window->0,
                        KeyboardEvent::Modifiers { serial: self.next_serial, depressed, locked },
                    ),
                }
            } else {
                quiet(self)
            },
            InputEvent::Focus { window_id, focused } => self.keyboard_focused(window_id, focused),
            InputEvent::Resize { window_id, width, height } => match self.toplevel_with(window_id) {
                Some(t) => Step {
                    state: self.serial_used(),
                    out: seq![
                        Emit::ToplevelConfigure {
                            toplevel: t,
                            width: if width < 1 {
                                1
                            } else {
                                width
                            },
                            height: if height < 1 {
                                1
                            } else {
                                height
                            },
                            activated: true,
                            maximized: self.toplevels[t].maximized,
                            fullscreen: self.toplevels[t].fullscreen,
                        },
                        Emit::SurfaceConfigure {
                            xdg_surface: self.toplevels[t].xdg_surface,
                            serial: self.next_serial,
                        },
                    ],
                },
                None => quiet(self),
            },
            InputEvent::PopupDismiss { window_id } => Step {
                state: self,
                out: match self.popup_with(window_id) {
                    Some(p) => seq![
                        Emit::PopupDone { popup: p },
                        post(WinCmd::SetGrab { window: None }),
                    ],
                    None => seq![post(WinCmd::SetGrab { window: None })],
                },
            },
            InputEvent::AppDeactivated { .. } => quiet(self),
            InputEvent::MacClipboard { .. } => quiet(self),
        }
    }
}

/// Input changes focus and serials only.
pub proof fn lemma_input_keeps_wf(s: StateView, ev: InputEvent, time: u32)
    requires
        s.wf(),
    ensures
        s.process_input(ev, time).state.wf(),
        s.process_input(ev, time).state == (StateView {
            next_serial: s.process_input(ev, time).state.next_serial,
            pointer_focus: s.process_input(ev, time).state.pointer_focus,
            focus_window: s.process_input(ev, time).state.focus_window,
            ..s
        }),
{
}

impl State {
    fn surface_of_window(&self, window_id: u32) -> (r: Option<SurfaceRef>)
        requires
            self.tables_wf(),
        ensures
            r is Some == self@.window_surface.contains_key(window_id as u64),
            r is Some ==> r->0 == self@.window_surface[window_id as u64],
    {
        match self.window_surface.get(window_id as u64) {
            Some(s) => Some(*s),
            None => None,
        }
    }

    fn leave_pointer(&mut self, out: &mut Vec<Emit>)
        requires
            old(self).tables_wf(),
        ensures
            final(self).tables_wf(),
            final(self)@ == old(self)@.pointer_left().state,
            final(out)@ == old(out)@ + old(self)@.pointer_left().out,
    {
        if let Some(prev) = self.pointer_focus {
            if let Some(surface) = self.surface_of_window(prev) {
                let serial: u32 = self.serial();
                send_pointers(
                    &self.pointers,
                    surface.client,
                    PointerEvent::Leave { serial, surface: surface.id },
                    out,
                );
                return;
            }
        }
        assert(out@ =~= old(out)@ + old(self)@.pointer_left().out);
    }

    /// Moves the pointer to a window. An enter has to come before any motion: some
    /// clients do not survive motion without one.
    fn ensure_pointer_focus(&mut self, window_id: u32, x: i64, y: i64, out: &mut Vec<Emit>)
        requires
            old(self).tables_wf(),
        ensures
            final(self).tables_wf(),
            final(self)@ == old(self)@.pointer_focused(window_id, x, y).state,
            final(out)@ == old(out)@ + old(self)@.pointer_focused(window_id, x, y).out,
    {
        let ghost want = self@.pointer_focused(window_id, x, y);
        let there: bool = match self.pointer_focus {
            Some(p) => p == window_id,
            None => false,
        };
        if let Some(surface) = self.surface_of_window(window_id) {
            if !there {
                self.leave_pointer(out);
                let serial: u32 = self.serial();
                send_pointers(
                    &self.pointers,
                    surface.client,
                    PointerEvent::Enter { serial, surface: surface.id, x, y },
                    out,
                );
                self.pointer_focus = Some(window_id);
                assert(out@ =~= old(out)@ + want.out);
                return;
            }
        }
        assert(out@ =~= old(out)@ + want.out);
    }

    fn find_toplevel(&self, window_id: u32) -> (r: Option<u64>)
        requires
            self.wf(),
        ensures
            r == self@.toplevel_with(window_id),
    {
        let n: usize = self.toplevels.len();
        proof {
            self.toplevels.lemma_ids();
            assert(self@.windows_wf());
        }
        let mut i: usize = 0;
        while i < n
            invariant
                self.toplevels.wf(),
                self@.windows_wf(),
                i <= n == self.toplevels.ids().len(),
                forall|j: int|
                    0 <= j < i ==> self@.toplevels[#[trigger] self.toplevels.ids()[j]].window_id
                        != window_id,
            decreases n - i,
        {
            if self.toplevels.value_at(i).window_id == window_id {
                let t: u64 = self.toplevels.id_at(i);
                assert(self@.toplevels.contains_key(t));
                return Some(t);
            }
            i = i + 1;
        }
        None
    }

    fn find_popup(&self, window_id: u32) -> (r: Option<u64>)
        requires
            self.wf(),
        ensures
            r == self@.popup_with(window_id),
    {
        let n: usize = self.popups.len();
        proof {
            self.popups.lemma_ids();
            assert(self@.windows_wf());
        }
        let mut i: usize = 0;
        while i < n
            invariant
                self.popups.wf(),
                self@.windows_wf(),
                i <= n == self.popups.ids().len(),
                forall|j: int|
                    0 <= j < i ==> self@.popups[#[trigger] self.popups.ids()[j]].window_id
                        != window_id,
            decreases n - i,
        {
            if self.popups.value_at(i).window_id == window_id {
                let p: u64 = self.popups.id_at(i);
                assert(self@.popups.contains_key(p));
                return Some(p);
            }
            i = i + 1;
        }
        None
    }

    /// Hands an input event to the clients. `time` is the compositor's clock.
    pub fn process_input(&mut self, ev: InputEvent, time: u32) -> (out: Vec<Emit>)
        requires
            old(self).wf(),
        ensures
            final(self).wf(),
            (Step { state: final(self)@, out: out@ }) == old(self)@.process_input(ev, time),
    {
        let mut out: Vec<Emit> = Vec::new();
        let ghost want = old(self)@.process_input(ev, time);
        proof {
            lemma_input_keeps_wf(self@, ev, time);
        }
        match ev {
            InputEvent::PointerEnter { window_id, x, y } => {
                self.ensure_pointer_focus(window_id, x, y, &mut out);
            },
            InputEvent::PointerMotion { window_id, x, y } => {
                self.ensure_pointer_focus(window_id, x, y, &mut out);
                if let Some(surface) = self.surface_of_window(window_id) {
                    send_pointers(
                        &self.pointers,
                        surface.client,
                        PointerEvent::Motion { time, x, y },
                        &mut out,
                    );
                }
            },
            InputEvent::PointerButton { window_id, button, pressed } => {
                self.ensure_pointer_focus(window_id, 0, 0, &mut out);
                if let Some(surface) = self.surface_of_window(window_id) {
                    let serial: u32 = self.serial();
                    send_pointers(
                        &self.pointers,
                        surface.client,
                        PointerEvent::Button { serial, time, button, pressed },
                        &mut out,
                    );
                }
            },
            InputEvent::PointerAxis { dx, dy } => {
                send_scroll(&self.pointers, time, dx, dy, &mut out);
            },
            InputEvent::PointerLeave { window_id } => {
                let there: bool = match self.pointer_focus {
                    Some(p) => p == window_id,
                    None => false,
                };
                if there && self.window_surface.contains(window_id as u64) {
                    self.leave_pointer(&mut out);
                    self.pointer_focus = None;
                }
            },
            InputEvent::Key { keycode, pressed } => {
                if let Some(w) = self.focus_window {
                    if let Some(surface) = self.surface_of_window(w) {
                        let serial: u32 = self.serial();
                        send_keyboards(
                            &self.keyboards,
                            surface.client,
                            KeyboardEvent::Key { serial, time, keycode, pressed },
                            &mut out,
                        );
                    }
                }
            },
            InputEvent::Modifiers { depressed, locked } => {
                if let Some(w) = self.focus_window {
                    if let Some(surface) = self.surface_of_window(w) {
                        let serial: u32 = self.serial();
                        send_keyboards(
                            &self.keyboards,
                            surface.client,
                            KeyboardEvent::Modifiers { serial, depressed, locked },
                            &mut out,
                        );
                    }
                }
            },
            InputEvent::Focus { window_id, focused } => {
                let there: bool = match self.focus_window {
                    Some(w) => w == window_id,
                    None => false,
                };
                if focused != there {
                    if let Some(surface) = self.surface_of_window(window_id) {
                        let serial: u32 = self.serial();
                        if focused {
                            send_keyboards(
                                &self.keyboards,
                                surface.client,
                                KeyboardEvent::Enter { serial, surface: surface.id },
                                &mut out,
                            );
                            self.focus_window = Some(window_id);
                            out.push(Emit::AdvertiseClipboard { client: surface.client });
                        } else {
                            send_keyboards(
                                &self.keyboards,
                                surface.client,
                                KeyboardEvent::Leave { serial, surface: surface.id },
                                &mut out,
                            );
                            self.focus_window = None;
                        }
                    }
                }
            },
            InputEvent::Resize { window_id, width, height } => {
                if let Some(t) = self.find_toplevel(window_id) {
                    if let Some(rec) = self.toplevels.get(t) {
                        let rec = *rec;
                        let serial: u32 = self.serial();
                        out.push(
                            Emit::ToplevelConfigure {
                                toplevel: t,
                                width: if width < 1 { 1 } else { width },
                                height: if height < 1 { 1 } else { height },
                                activated: true,
                                maximized: rec.maximized,
                                fullscreen: rec.fullscreen,
                            },
                        );
                        out.push(
                            Emit::SurfaceConfigure { xdg_surface: rec.xdg_surface, serial },
                        );
                    }
                }
            },
            InputEvent::PopupDismiss { window_id } => {
                if let Some(p) = self.find_popup(window_id) {
                    out.push(Emit::PopupDone { popup: p });
                }
                out.push(Emit::Post { cmd: WinCmd::SetGrab { window: None } });
            },
            InputEvent::AppDeactivated { .. } => {},
            InputEvent::MacClipboard { .. } => {},
        }
        assert(out@ =~= want.out);
        assert(self@ == want.state);
        out
    }
}

} // verus!
