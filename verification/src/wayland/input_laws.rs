//! What holds of input on its way to the clients.

use super::focus::{scroll_all, to_keyboards, to_pointers};
use super::{quiet, Device, Emit, KeyboardEvent, PointerEvent, StateView};
use crate::cmd::WinCmd;
use crate::input::InputEvent;
use vstd::prelude::*;

verus! {

/// An event on pointers reaches each pointer of the client, one after the other, and no
/// other pointer: a pointer of the client hears the event, and then the frame event where
/// it knows that; a pointer of another client hears nothing.
pub proof fn lemma_pointers_hear_in_turn(
    before: Seq<Device>,
    d: Device,
    after: Seq<Device>,
    client: u64,
    event: PointerEvent,
)
    ensures
        to_pointers(before + seq![d] + after, client, event) == to_pointers(before, client, event)
            + (if d.client != client {
            Seq::empty()
        } else if d.version < 5 {
            seq![Emit::Pointer { id: d.id, event }]
        } else {
            seq![
                Emit::Pointer { id: d.id, event },
                Emit::Pointer { id: d.id, event: PointerEvent::Frame },
            ]
        }) + to_pointers(after, client, event),
    decreases after.len(),
{
    let all = before + seq![d] + after;
    if after.len() == 0 {
        assert(all.drop_last() =~= before);
        assert(all.last() == d);
        assert(to_pointers(all, client, event) =~= to_pointers(before, client, event) + (
        if d.client != client {
            Seq::empty()
        } else if d.version < 5 {
            seq![Emit::Pointer { id: d.id, event }]
        } else {
            seq![
                Emit::Pointer { id: d.id, event },
                Emit::Pointer { id: d.id, event: PointerEvent::Frame },
            ]
        }) + to_pointers(after, client, event));
    } else {
        let rest = after.drop_last();
        lemma_pointers_hear_in_turn(before, d, rest, client, event);
        assert(all.drop_last() =~= before + seq![d] + rest);
        assert(all.last() == after.last());
        assert(to_pointers(all, client, event) =~= to_pointers(before, client, event) + (
        if d.client != client {
            Seq::empty()
        } else if d.version < 5 {
            seq![Emit::Pointer { id: d.id, event }]
        } else {
            seq![
                Emit::Pointer { id: d.id, event },
                Emit::Pointer { id: d.id, event: PointerEvent::Frame },
            ]
        }) + to_pointers(after, client, event));
    }
}

/// An event on keyboards reaches each keyboard of the client, one after the other, and no
/// other keyboard.
pub proof fn lemma_keyboards_hear_in_turn(
    before: Seq<Device>,
    d: Device,
    after: Seq<Device>,
    client: u64,
    event: KeyboardEvent,
)
    ensures
        to_keyboards(before + seq![d] + after, client, event) == to_keyboards(before, client, event)
            + (if d.client == client {
            seq![Emit::Keyboard { id: d.id, event }]
        } else {
            Seq::empty()
        }) + to_keyboards(after, client, event),
    decreases after.len(),
{
    let all = before + seq![d] + after;
    let own: Seq<Emit> = if d.client == client {
        seq![Emit::Keyboard { id: d.id, event }]
    } else {
        Seq::empty()
    };
    if after.len() == 0 {
        assert(all.drop_last() =~= before);
        assert(all.last() == d);
    } else {
        let rest = after.drop_last();
        lemma_keyboards_hear_in_turn(before, d, rest, client, event);
        assert(all.drop_last() =~= before + seq![d] + rest);
        assert(all.last() == after.last());
    }
    assert(to_keyboards(all, client, event) =~= to_keyboards(before, client, event) + own
        + to_keyboards(after, client, event));
}

/// Without devices nothing is sent.
pub proof fn lemma_no_device_hears_nothing(
    client: u64,
    p: PointerEvent,
    k: KeyboardEvent,
    time: u32,
    dx: i64,
    dy: i64,
)
    ensures
        to_pointers(Seq::empty(), client, p) == Seq::<Emit>::empty(),
        to_keyboards(Seq::empty(), client, k) == Seq::<Emit>::empty(),
        scroll_all(Seq::empty(), time, dx, dy) == Seq::<Emit>::empty(),
{
}

/// A press is a press and a release a release: a button over a known window reaches
/// every pointer of the client that owns the window, as the same button, in the same
/// state, at the given time and under a fresh serial, after the pointer has come to the
/// window. Over an unknown window it reaches nobody.
pub proof fn lemma_buttons_reach_the_owner(
    s: StateView,
    window_id: u32,
    button: u32,
    pressed: bool,
    time: u32,
)
    ensures
        ({
            let ev = InputEvent::PointerButton { window_id, button, pressed };
            let t = s.process_input(ev, time);
            let come = s.process_input(InputEvent::PointerEnter { window_id, x: 0, y: 0 }, time);
            if s.window_surface.contains_key(window_id as u64) {
                &&& t.out == come.out + to_pointers(
                    s.pointers,
                    s.window_surface[window_id as u64].client,
                    PointerEvent::Button {
                        serial: come.state.next_serial,
                        time,
                        button,
                        pressed,
                    },
                )
                &&& t.state == (StateView {
                    next_serial: come.state.next_serial.wrapping_add(1),
                    ..come.state
                })
                &&& t.state.pointer_focus == Some(window_id)
            } else {
                t == quiet(s)
            }
        }),
{
}

/// A pointer that comes to another window leaves the one that it was in, as far as that
/// is still known, and enters the new one where it is. Only the focus changes.
pub proof fn lemma_pointer_leaves_then_enters(
    s: StateView,
    window_id: u32,
    x: i64,
    y: i64,
    time: u32,
)
    requires
        s.window_surface.contains_key(window_id as u64),
        s.pointer_focus != Some(window_id),
    ensures
        ({
            let t = s.process_input(InputEvent::PointerEnter { window_id, x, y }, time);
            let new = s.window_surface[window_id as u64];
            let n = s.next_serial;
            let was_known = s.pointer_focus is Some && s.window_surface.contains_key(
                s.pointer_focus->0 as u64,
            );
            let old = s.window_surface[s.pointer_focus->0 as u64];
            &&& !was_known ==> t.out == to_pointers(
                s.pointers,
                new.client,
                PointerEvent::Enter { serial: n, surface: new.id, x, y },
            ) && t.state.next_serial == n.wrapping_add(1)
            &&& was_known ==> t.out == to_pointers(
                s.pointers,
                old.client,
                PointerEvent::Leave { serial: n, surface: old.id },
            ) + to_pointers(
                s.pointers,
                new.client,
                PointerEvent::Enter { serial: n.wrapping_add(1), surface: new.id, x, y },
            ) && t.state.next_serial == n.wrapping_add(1).wrapping_add(1)
            &&& t.state == (StateView {
                pointer_focus: Some(window_id),
                next_serial: t.state.next_serial,
                ..s
            })
        }),
{
    let t = s.process_input(InputEvent::PointerEnter { window_id, x, y }, time);
    let new = s.window_surface[window_id as u64];
    let e = PointerEvent::Enter { serial: s.next_serial, surface: new.id, x, y };
    assert(Seq::<Emit>::empty() + to_pointers(s.pointers, new.client, e) =~= to_pointers(
        s.pointers,
        new.client,
        e,
    ));
}

/// A pointer that leaves the window that has it leaves it once; a leave of any other
/// window is stale and changes nothing. A leave undoes the enter before it.
pub proof fn lemma_leave_is_heard_once(s: StateView, window_id: u32, time: u32)
    ensures
        ({
            let ev = InputEvent::PointerLeave { window_id };
            let t = s.process_input(ev, time);
            let surface = s.window_surface[window_id as u64];
            &&& s.pointer_focus != Some(window_id) ==> t == quiet(s)
            &&& s.pointer_focus == Some(window_id) && s.window_surface.contains_key(
                window_id as u64,
            ) ==> t.out == to_pointers(
                s.pointers,
                surface.client,
                PointerEvent::Leave { serial: s.next_serial, surface: surface.id },
            ) && t.state == (StateView {
                pointer_focus: None,
                next_serial: s.next_serial.wrapping_add(1),
                ..s
            })
            &&& t.state.process_input(ev, time) == quiet(t.state)
        }),
{
}

/// Scrolling reaches every pointer in turn: what was scrolled down on the vertical axis,
/// what was scrolled sideways on the horizontal one, an axis that did not move not at
/// all, and then the frame event where the pointer knows it.
pub proof fn lemma_scrolling_reaches_every_pointer(
    s: StateView,
    d: Device,
    dx: i64,
    dy: i64,
    time: u32,
)
    ensures
        ({
            let with_one = StateView { pointers: s.pointers.push(d), ..s };
            let ev = InputEvent::PointerAxis { dx, dy };
            let a = s.process_input(ev, time);
            let b = with_one.process_input(ev, time);
            let down: Seq<Emit> = if dy == 0 {
                Seq::empty()
            } else {
                seq![
                    Emit::Pointer {
                        id: d.id,
                        event: PointerEvent::Axis { time, vertical: true, value: dy },
                    },
                ]
            };
            let sideways: Seq<Emit> = if dx == 0 {
                Seq::empty()
            } else {
                seq![
                    Emit::Pointer {
                        id: d.id,
                        event: PointerEvent::Axis { time, vertical: false, value: dx },
                    },
                ]
            };
            let frame: Seq<Emit> = if d.version < 5 {
                Seq::empty()
            } else {
                seq![Emit::Pointer { id: d.id, event: PointerEvent::Frame }]
            };
            &&& b.out == a.out + (down + sideways + frame)
            &&& a.state == s
        }),
{
    let all = s.pointers.push(d);
    assert(all.drop_last() =~= s.pointers);
    assert(all.last() == d);
}

/// Modifiers reach the client of the focused window and nobody else.
pub proof fn lemma_modifiers_follow_focus(s: StateView, depressed: u32, locked: u32, time: u32)
    ensures
        ({
            let t = s.process_input(InputEvent::Modifiers { depressed, locked }, time);
            if s.focus_window is Some && s.window_surface.contains_key(s.focus_window->0 as u64) {
                &&& t.out == to_keyboards(
                    s.keyboards,
                    s.window_surface[s.focus_window->0 as u64].client,
                    KeyboardEvent::Modifiers { serial: s.next_serial, depressed, locked },
                )
                &&& t.state == (StateView { next_serial: s.next_serial.wrapping_add(1), ..s })
            } else {
                t == quiet(s)
            }
        }),
{
}

/// A window that gains the keyboard is told by an enter on its own surface, and its
/// client is offered the pasteboard; one that loses it is told by a leave. Between the
/// two the window has the keyboard.
pub proof fn lemma_keyboard_enters_and_leaves(s: StateView, window_id: u32, time: u32)
    requires
        s.window_surface.contains_key(window_id as u64),
    ensures
        ({
            let surface = s.window_surface[window_id as u64];
            let gain = InputEvent::Focus { window_id, focused: true };
            let lose = InputEvent::Focus { window_id, focused: false };
            let a = s.process_input(gain, time);
            let b = a.state.process_input(lose, time);
            &&& s.focus_window != Some(window_id) ==> a.out == to_keyboards(
                s.keyboards,
                surface.client,
                KeyboardEvent::Enter { serial: s.next_serial, surface: surface.id },
            ).push(Emit::AdvertiseClipboard { client: surface.client })
            &&& a.state.focus_window == Some(window_id)
            &&& b.out == to_keyboards(
                s.keyboards,
                surface.client,
                KeyboardEvent::Leave { serial: a.state.next_serial, surface: surface.id },
            )
            &&& b.state.focus_window is None
            &&& b.state == (StateView {
                focus_window: None,
                next_serial: b.state.next_serial,
                ..s
            })
        }),
{
}

/// A key is sent under a serial of its own, and changes nothing else.
pub proof fn lemma_key_uses_a_serial(s: StateView, keycode: u32, pressed: bool, time: u32)
    requires
        s.focus_window is Some,
        s.window_surface.contains_key(s.focus_window->0 as u64),
    ensures
        s.process_input(InputEvent::Key { keycode, pressed }, time).state == (StateView {
            next_serial: s.next_serial.wrapping_add(1),
            ..s
        }),
{
}

/// A resize asks the toplevel of that window, and no other, for just that size, never
/// below 1, as an active window in the state that it is in.
pub proof fn lemma_resize_reaches_its_toplevel(
    s: StateView,
    tl: u64,
    width: i32,
    height: i32,
    time: u32,
)
    requires
        s.wf(),
        s.toplevels.contains_key(tl),
    ensures
        ({
            let r = s.toplevels[tl];
            let ev = InputEvent::Resize { window_id: r.window_id, width, height };
            let t = s.process_input(ev, time);
            &&& t.out.len() == 2
            &&& t.out[0] matches Emit::ToplevelConfigure {
                toplevel,
                width: w,
                height: h,
                activated,
                maximized,
                fullscreen,
            } && toplevel == tl && (width >= 1 ==> w == width) && (width < 1 ==> w == 1) && (height
                >= 1 ==> h == height) && (height < 1 ==> h == 1) && activated && maximized
                == r.maximized && fullscreen == r.fullscreen
            &&& t.out[1] == (Emit::SurfaceConfigure {
                xdg_surface: r.xdg_surface,
                serial: s.next_serial,
            })
            &&& t.state == (StateView { next_serial: s.next_serial.wrapping_add(1), ..s })
        }),
{
    let w = s.toplevels[tl].window_id;
    assert(s.toplevel_with(w) is Some);
    let found = s.toplevel_with(w)->0;
    assert(s.toplevels.contains_key(found) && s.toplevels[found].window_id == w);
    assert(s.windows_wf());
    assert(found == tl);
}

/// A click outside a menu tells the menu's client that it is done and ends the grab.
pub proof fn lemma_dismissed_popup_is_told(s: StateView, pp: u64, time: u32)
    requires
        s.wf(),
        s.popups.contains_key(pp),
    ensures
        ({
            let ev = InputEvent::PopupDismiss { window_id: s.popups[pp].window_id };
            let t = s.process_input(ev, time);
            &&& t.out == seq![
                Emit::PopupDone { popup: pp },
                Emit::Post { cmd: WinCmd::SetGrab { window: None } },
            ]
            &&& t.state == s
        }),
{
    let w = s.popups[pp].window_id;
    assert(s.popup_with(w) is Some);
    let found = s.popup_with(w)->0;
    assert(s.popups.contains_key(found) && s.popups[found].window_id == w);
    assert(s.windows_wf());
    assert(found == pp);
}

/// Events of windows that are not known reach no client: a grab ends all the same.
pub proof fn lemma_unknown_windows_are_ignored(s: StateView, window_id: u32, ev: InputEvent, time: u32)
    requires
        !s.window_surface.contains_key(window_id as u64),
        ev is PointerEnter && ev->PointerEnter_window_id == window_id || ev is PointerMotion
            && ev->PointerMotion_window_id == window_id || ev is PointerLeave
            && ev->PointerLeave_window_id == window_id || ev is Focus && ev->Focus_window_id
            == window_id,
    ensures
        s.process_input(ev, time) == quiet(s),
{
}

/// Losing the application's focus changes nothing here, and the pasteboard is not
/// delivered as input.
pub proof fn lemma_other_events_are_not_input(s: StateView, ev: InputEvent, time: u32)
    requires
        ev is AppDeactivated || ev is MacClipboard,
    ensures
        s.process_input(ev, time) == quiet(s),
{
}

} // verus!
