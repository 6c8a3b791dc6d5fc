//! The display's parameters, and the queue of input events on their way to the
//! clients.

use std::collections::VecDeque;
use vstd::prelude::*;

verus! {

/// The larger of a number and a floor.
pub open spec fn at_least(v: i32, floor: int) -> int {
    if v < floor {
        floor
    } else {
        v as int
    }
}

/// Display scale, output size, and the insets that docked bars reserve.
pub struct Display {
    scale: i32,
    out_w: i32,
    out_h: i32,
    insets: (i32, i32, i32, i32),
}

impl Display {
    #[verifier::type_invariant]
    spec fn inv(self) -> bool {
        self.scale >= 1 && self.out_w >= 1 && self.out_h >= 1 && self.insets.0 >= 0 && self.insets.1
            >= 0 && self.insets.2 >= 0 && self.insets.3 >= 0
    }

    /// Buffer pixels per logical point.
    pub closed spec fn spec_scale(self) -> i32 {
        self.scale
    }

    /// Physical output size (width, height).
    pub closed spec fn spec_output_size(self) -> (i32, i32) {
        (self.out_w, self.out_h)
    }

    /// Reserved insets (top, right, bottom, left), in logical points.
    pub closed spec fn spec_insets(self) -> (i32, i32, i32, i32) {
        self.insets
    }

    /// The parameters before anything was set: scale 1, 1920x1080, no insets.
    pub fn new() -> (d: Self)
        ensures
            d.spec_scale() == 1,
            d.spec_output_size() == (1920i32, 1080i32),
            d.spec_insets() == (0i32, 0i32, 0i32, 0i32),
    {
        Display { scale: 1, out_w: 1920, out_h: 1080, insets: (0, 0, 0, 0) }
    }
}

/// Buffer pixels per logical point: 1 or more.
pub fn scale(d: &Display) -> (s: i32)
    ensures
        s == d.spec_scale(),
        s >= 1,
{
    proof {
        use_type_invariant(d);
    }
    d.scale
}

/// Sets the scale; anything below 1 counts as 1.
pub fn set_scale(d: &mut Display, s: i32)
    ensures
        final(d).spec_scale() == at_least(s, 1),
        final(d).spec_output_size() == old(d).spec_output_size(),
        final(d).spec_insets() == old(d).spec_insets(),
{
    proof {
        use_type_invariant(&*d);
    }
    d.scale = if s < 1 { 1 } else { s };
}

/// The output's physical size in pixels, each side 1 or more.
pub fn output_size(d: &Display) -> (r: (i32, i32))
    ensures
        r == d.spec_output_size(),
        r.0 >= 1,
        r.1 >= 1,
{
    proof {
        use_type_invariant(d);
    }
    (d.out_w, d.out_h)
}

/// Sets the output size; a side below 1 counts as 1.
pub fn set_output_size(d: &mut Display, w: i32, h: i32)
    ensures
        final(d).spec_output_size().0 == at_least(w, 1),
        final(d).spec_output_size().1 == at_least(h, 1),
        final(d).spec_scale() == old(d).spec_scale(),
        final(d).spec_insets() == old(d).spec_insets(),
{
    proof {
        use_type_invariant(&*d);
    }
    d.out_w = if w < 1 { 1 } else { w };
    d.out_h = if h < 1 { 1 } else { h };
}

/// The insets (top, right, bottom, left) that docked bars reserve, each 0 or more.
pub fn reserved_insets(d: &Display) -> (r: (i32, i32, i32, i32))
    ensures
        r == d.spec_insets(),
        r.0 >= 0,
        r.1 >= 0,
        r.2 >= 0,
        r.3 >= 0,
{
    proof {
        use_type_invariant(d);
    }
    d.insets
}

/// Sets the insets; a negative one counts as 0.
pub fn set_reserved_insets(d: &mut Display, top: i32, right: i32, bottom: i32, left: i32)
    ensures
        final(d).spec_insets().0 == at_least(top, 0),
        final(d).spec_insets().1 == at_least(right, 0),
        final(d).spec_insets().2 == at_least(bottom, 0),
        final(d).spec_insets().3 == at_least(left, 0),
        final(d).spec_scale() == old(d).spec_scale(),
        final(d).spec_output_size() == old(d).spec_output_size(),
{
    proof {
        use_type_invariant(&*d);
    }
    d.insets =
    (
        if top < 0 { 0 } else { top },
        if right < 0 { 0 } else { right },
        if bottom < 0 { 0 } else { bottom },
        if left < 0 { 0 } else { left },
    );
}

/// An input event in Wayland conventions. Coordinates are surface-local with a
/// top-left origin, and scroll distances likewise, in 1/256 of a point, the
/// precision of the wire. Keycodes are evdev codes, modifiers are xkb masks.
#[derive(Debug, PartialEq, Eq)]
pub enum InputEvent {
    PointerEnter { window_id: u32, x: i64, y: i64 },
    PointerMotion { window_id: u32, x: i64, y: i64 },
    PointerButton { window_id: u32, button: u32, pressed: bool },
    PointerAxis { dx: i64, dy: i64 },
    PointerLeave { window_id: u32 },
    Key { keycode: u32, pressed: bool },
    Modifiers { depressed: u32, locked: u32 },
    /// Keyboard focus gained or lost.
    Focus { window_id: u32, focused: bool },
    /// The user resized the native window: the client is to repaint at this size.
    Resize { window_id: u32, width: i32, height: i32 },
    /// A click landed outside a grabbing popup.
    PopupDismiss { window_id: u32 },
    /// The application lost the key focus.
    AppDeactivated { window_id: u32 },
    /// The pasteboard changed; `None` where it holds no text.
    MacClipboard { text: Option<String> },
}

/// The queue between the windowing side and the Wayland side.
pub struct InputBus {
    queue: VecDeque<InputEvent>,
}

impl View for InputBus {
    type V = Seq<InputEvent>;

    closed spec fn view(&self) -> Seq<InputEvent> {
        self.queue@
    }
}

/// A queue with one event more.
pub open spec fn queued(queue: Seq<InputEvent>, ev: InputEvent) -> Seq<InputEvent> {
    queue.push(ev)
}

/// What a queue hands out.
pub open spec fn handed_out(queue: Seq<InputEvent>) -> Seq<InputEvent> {
    queue
}

impl InputBus {
    /// An empty queue.
    pub fn new() -> (r: Self)
        ensures
            r@ == Seq::<InputEvent>::empty(),
    {
        InputBus { queue: VecDeque::new() }
    }

    /// Adds an event behind the others.
    pub fn push(&mut self, ev: InputEvent)
        ensures
            final(self)@ == queued(old(self)@, ev),
    {
        self.queue.push_back(ev);
    }

    /// Takes all events, oldest first.
    pub fn drain(&mut self) -> (r: Vec<InputEvent>)
        ensures
            r@ == handed_out(old(self)@),
            final(self)@ == Seq::<InputEvent>::empty(),
    {
        let mut r: Vec<InputEvent> = Vec::new();
        while self.queue.len() > 0
            invariant
                r@ + self.queue@ =~= old(self)@,
            decreases self.queue@.len(),
        {
            if let Some(ev) = self.queue.pop_front() {
                r.push(ev);
            }
        }
        assert(r@ =~= old(self)@);
        assert(self@ =~= Seq::<InputEvent>::empty());
        r
    }
}

/// A later event comes out behind everything that was queued before it, and nothing is
/// lost or added.
pub proof fn lemma_later_events_come_out_later(queue: Seq<InputEvent>, ev: InputEvent)
    ensures
        handed_out(queued(queue, ev)) == handed_out(queue) + seq![ev],
        handed_out(Seq::empty()) == Seq::<InputEvent>::empty(),
{
    assert(handed_out(queued(queue, ev)) =~= handed_out(queue) + seq![ev]);
}

/// What is pushed one by one comes out in the order in which it went in.
pub proof fn lemma_bus_is_first_in_first_out(before: Seq<InputEvent>, a: InputEvent, b: InputEvent)
    ensures
        before.push(a).push(b).take(before.len() as int) == before,
        before.push(a).push(b)[before.len() as int] == a,
        before.push(a).push(b).last() == b,
{
    assert(before.push(a).push(b).take(before.len() as int) =~= before);
}

} // verus!
