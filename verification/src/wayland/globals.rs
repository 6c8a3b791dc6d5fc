//! What is announced to clients.

use crate::geometry::{points, spec_points};
use crate::input::{output_size, scale, Display};
use vstd::prelude::*;

verus! {

/// The interfaces that are offered, with their versions.
pub open spec fn offered() -> Seq<(&'static str, u32)> {
    seq![
        ("wl_compositor", 6u32),
        ("wl_shm", 1u32),
        ("xdg_wm_base", 6u32),
        ("wl_output", 4u32),
        ("wl_seat", 5u32),
        ("wl_data_device_manager", 3u32),
        ("wl_subcompositor", 1u32),
        ("zxdg_decoration_manager_v1", 1u32),
        ("wp_cursor_shape_manager_v1", 1u32),
        ("wp_single_pixel_buffer_manager_v1", 1u32),
        ("wp_viewporter", 1u32),
        ("zwp_pointer_constraints_v1", 1u32),
        ("zwp_relative_pointer_manager_v1", 1u32),
        ("wp_presentation", 1u32),
        ("zxdg_output_manager_v1", 3u32),
        ("xdg_activation_v1", 1u32),
        ("wp_fractional_scale_manager_v1", 1u32),
        ("xdg_wm_dialog_v1", 1u32),
        ("zwp_keyboard_shortcuts_inhibit_manager_v1", 1u32),
        ("zwp_primary_selection_device_manager_v1", 1u32),
        ("zwlr_layer_shell_v1", 4u32),
        ("wp_color_manager_v1", 1u32),
        ("xdg_toplevel_icon_manager_v1", 1u32),
    ]
}

/// The interfaces that are offered, with their versions.
pub fn globals() -> (r: Vec<(&'static str, u32)>)
    ensures
        r@ == offered(),
{
    let mut r: Vec<(&'static str, u32)> = Vec::new();
    r.push(("wl_compositor", 6));
    r.push(("wl_shm", 1));
    r.push(("xdg_wm_base", 6));
    r.push(("wl_output", 4));
    r.push(("wl_seat", 5));
    r.push(("wl_data_device_manager", 3));
    r.push(("wl_subcompositor", 1));
    r.push(("zxdg_decoration_manager_v1", 1));
    r.push(("wp_cursor_shape_manager_v1", 1));
    r.push(("wp_single_pixel_buffer_manager_v1", 1));
    r.push(("wp_viewporter", 1));
    r.push(("zwp_pointer_constraints_v1", 1));
    r.push(("zwp_relative_pointer_manager_v1", 1));
    r.push(("wp_presentation", 1));
    r.push(("zxdg_output_manager_v1", 3));
    r.push(("xdg_activation_v1", 1));
    r.push(("wp_fractional_scale_manager_v1", 1));
    r.push(("xdg_wm_dialog_v1", 1));
    r.push(("zwp_keyboard_shortcuts_inhibit_manager_v1", 1));
    r.push(("zwp_primary_selection_device_manager_v1", 1));
    r.push(("zwlr_layer_shell_v1", 4));
    r.push(("wp_color_manager_v1", 1));
    r.push(("xdg_toplevel_icon_manager_v1", 1));
    assert(r@ =~= offered());
    r
}

/// An event on an output object, or on the logical output that belongs to it.
#[derive(Clone, Copy, PartialEq, Eq, Debug)]
pub enum OutputEvent {
    /// Physical size in millimeters.
    Geometry { width_mm: i32, height_mm: i32, make: &'static str, model: &'static str },
    /// The current and preferred mode; the refresh rate is in mHz.
    Mode { width: i32, height: i32, refresh: i32 },
    Scale { factor: i32 },
    Name { name: &'static str },
    Description { text: &'static str },
    Done,
    LogicalPosition { x: i32, y: i32 },
    LogicalSize { width: i32, height: i32 },
    /// `Done` on the physical output.
    OutputDone,
}

/// Events that come where a version knows them.
pub open spec fn since(version: u32, first: u32, events: Seq<OutputEvent>) -> Seq<OutputEvent> {
    if version >= first {
        events
    } else {
        Seq::empty()
    }
}

/// What a client that binds the output is told; `Done` comes last.
pub open spec fn output_events(version: u32, display: Display) -> Seq<OutputEvent> {
    seq![
        OutputEvent::Geometry {
            width_mm: 340,
            height_mm: 190,
            make: "wayland-macos",
            model: "virtual",
        },
        OutputEvent::Mode {
            width: display.spec_output_size().0,
            height: display.spec_output_size().1,
            refresh: 60_000,
        },
    ] + since(version, 2, seq![OutputEvent::Scale { factor: display.spec_scale() }]) + since(
        version,
        4,
        seq![
            OutputEvent::Name { name: "WL-1" },
            OutputEvent::Description { text: "wayland-macos virtual output" },
        ],
    ) + since(version, 2, seq![OutputEvent::Done])
}

/// What a client that binds the output is told.
pub fn announce_output(version: u32, display: &Display) -> (r: Vec<OutputEvent>)
    ensures
        r@ == output_events(version, *display),
{
    let (w, h) = output_size(display);
    let mut r: Vec<OutputEvent> = Vec::new();
    r.push(
        OutputEvent::Geometry {
            width_mm: 340,
            height_mm: 190,
            make: "wayland-macos",
            model: "virtual",
        },
    );
    r.push(OutputEvent::Mode { width: w, height: h, refresh: 60_000 });
    if version >= 2 {
        r.push(OutputEvent::Scale { factor: scale(display) });
    }
    if version >= 4 {
        r.push(OutputEvent::Name { name: "WL-1" });
        r.push(OutputEvent::Description { text: "wayland-macos virtual output" });
    }
    if version >= 2 {
        r.push(OutputEvent::Done);
    }
    assert(r@ =~= output_events(version, *display));
    r
}

/// What a client that asks for the logical output is told. From version 3 on it takes
/// effect with a `Done` on the physical output, which is sent anew.
pub open spec fn xdg_output_events(version: u32, output_version: u32, display: Display) -> Seq<
    OutputEvent,
> {
    seq![
        OutputEvent::LogicalPosition { x: 0, y: 0 },
        OutputEvent::LogicalSize {
            width: spec_points(display.spec_output_size().0, display.spec_scale()) as i32,
            height: spec_points(display.spec_output_size().1, display.spec_scale()) as i32,
        },
    ] + since(
        version,
        2,
        seq![
            OutputEvent::Name { name: "WL-1" },
            OutputEvent::Description { text: "wayland-macos virtual output" },
        ],
    ) + if version < 3 {
        seq![OutputEvent::Done]
    } else {
        since(output_version, 2, seq![OutputEvent::OutputDone])
    }
}

/// What a client that asks for the logical output is told.
pub fn announce_xdg_output(version: u32, output_version: u32, display: &Display) -> (r: Vec<
    OutputEvent,
>)
    ensures
        r@ == xdg_output_events(version, output_version, *display),
{
    let (w, h) = output_size(display);
    let s: i32 = scale(display);
    let mut r: Vec<OutputEvent> = Vec::new();
    r.push(OutputEvent::LogicalPosition { x: 0, y: 0 });
    r.push(OutputEvent::LogicalSize { width: points(w, s), height: points(h, s) });
    if version >= 2 {
        r.push(OutputEvent::Name { name: "WL-1" });
        r.push(OutputEvent::Description { text: "wayland-macos virtual output" });
    }
    if version < 3 {
        r.push(OutputEvent::Done);
    } else if output_version >= 2 {
        r.push(OutputEvent::OutputDone);
    }
    assert(r@ =~= xdg_output_events(version, output_version, *display));
    r
}

/// The preferred scale in 120ths.
pub fn fractional_scale(display: &Display) -> (r: u32)
    requires
        display.spec_scale() <= 0x222_2222,
    ensures
        r == display.spec_scale() * 120,
{
    scale(display) as u32 * 120
}

/// Seat capability bit: a pointer.
pub const CAPABILITY_POINTER: u32 = 1;

/// Seat capability bit: a keyboard.
pub const CAPABILITY_KEYBOARD: u32 = 2;

/// What a client that binds the seat is told: the capabilities, and the name from
/// version 2 on.
pub fn announce_seat(version: u32) -> (r: (u32, Option<&'static str>))
    ensures
        r.0 == 3,
        r.1 == if version >= 2 {
            Some("seat0")
        } else {
            None
        },
{
    (CAPABILITY_POINTER + CAPABILITY_KEYBOARD, if version >= 2 { Some("seat0") } else { None })
}

/// The key repeat that a keyboard is told, from version 4 on: 25 keys per second
/// after 600 ms.
pub fn repeat_info(version: u32) -> (r: Option<(i32, i32)>)
    ensures
        r == if version >= 4 {
            Some((25i32, 600i32))
        } else {
            None
        },
{
    if version >= 4 {
        Some((25, 600))
    } else {
        None
    }
}

/// The icon sizes that clients are told of.
pub fn icon_sizes() -> (r: Vec<i32>)
    ensures
        r@ == seq![64i32, 128i32, 256i32],
{
    let mut r: Vec<i32> = Vec::new();
    r.push(64);
    r.push(128);
    r.push(256);
    assert(r@ =~= seq![64i32, 128i32, 256i32]);
    r
}

/// State word: maximized.
pub const STATE_MAXIMIZED: u32 = 1;

/// State word: fullscreen.
pub const STATE_FULLSCREEN: u32 = 2;

/// State word: activated.
pub const STATE_ACTIVATED: u32 = 4;

/// One word where a state holds.
pub open spec fn word_if(b: bool, word: u32) -> Seq<u32> {
    if b {
        seq![word]
    } else {
        Seq::empty()
    }
}

/// The words of the states that hold.
pub open spec fn state_words(activated: bool, maximized: bool, fullscreen: bool) -> Seq<u32> {
    word_if(activated, STATE_ACTIVATED) + word_if(maximized, STATE_MAXIMIZED) + word_if(
        fullscreen,
        STATE_FULLSCREEN,
    )
}

/// The state words of a toplevel configure.
pub fn toplevel_states(activated: bool, maximized: bool, fullscreen: bool) -> (r: Vec<u32>)
    ensures
        r@ == state_words(activated, maximized, fullscreen),
{
    let mut r: Vec<u32> = Vec::new();
    if activated {
        r.push(STATE_ACTIVATED);
    }
    if maximized {
        r.push(STATE_MAXIMIZED);
    }
    if fullscreen {
        r.push(STATE_FULLSCREEN);
    }
    assert(r@ =~= word_if(activated, STATE_ACTIVATED) + word_if(maximized, STATE_MAXIMIZED)
        + word_if(fullscreen, STATE_FULLSCREEN));
    r
}

/// The window actions that a toplevel is told of: menu, maximize, fullscreen,
/// minimize.
pub fn wm_capabilities() -> (r: Vec<u32>)
    ensures
        r@ == seq![1u32, 2u32, 3u32, 4u32],
{
    let mut r: Vec<u32> = Vec::new();
    r.push(1);
    r.push(2);
    r.push(3);
    r.push(4);
    assert(r@ =~= seq![1u32, 2u32, 3u32, 4u32]);
    r
}

/// A toplevel is told just the states that hold, by the words of the protocol: maximized
/// 1, fullscreen 2, activated 4.
pub proof fn lemma_states_are_told_as_they_are(activated: bool, maximized: bool, fullscreen: bool)
    ensures
        ({
            let words = state_words(activated, maximized, fullscreen);
            &&& words.contains(1u32) == maximized
            &&& words.contains(2u32) == fullscreen
            &&& words.contains(4u32) == activated
            &&& forall|i: int|
                0 <= i < words.len() ==> (#[trigger] words[i]) == 1 || words[i] == 2 || words[i] == 4
        }),
{
    let words = state_words(activated, maximized, fullscreen);
    let a = word_if(activated, STATE_ACTIVATED);
    let m = word_if(maximized, STATE_MAXIMIZED);
    let f = word_if(fullscreen, STATE_FULLSCREEN);
    if activated {
        assert(words[0] == 4);
    }
    if maximized {
        assert(words[a.len() as int] == 1);
    }
    if fullscreen {
        assert(words[(a.len() + m.len()) as int] == 2);
    }
}

/// The output is as large as the display in pixels and as the display in points to those
/// that ask for points; clients that can be told the scale are told it, and the list
/// ends with its end mark where there is one.
pub proof fn lemma_output_is_the_display(version: u32, output_version: u32, display: Display)
    requires
        1 <= display.spec_scale(),
        display.spec_scale() <= display.spec_output_size().0,
        display.spec_scale() <= display.spec_output_size().1,
    ensures
        ({
            let events = output_events(version, display);
            let logical = xdg_output_events(version, output_version, display);
            let s = display.spec_scale();
            let (w, h) = display.spec_output_size();
            &&& events[1] == (OutputEvent::Mode { width: w, height: h, refresh: 60_000 })
            &&& version >= 2 ==> events[2] == (OutputEvent::Scale { factor: s }) && events.last()
                == OutputEvent::Done
            &&& version < 2 ==> events.len() == 2
            &&& logical[0] == (OutputEvent::LogicalPosition { x: 0, y: 0 })
            &&& logical[1] matches OutputEvent::LogicalSize { width, height } && s * width <= w < s
                * (width + 1) && s * height <= h < s * (height + 1)
            &&& version < 3 ==> logical.last() == OutputEvent::Done
            &&& version >= 3 && output_version >= 2 ==> logical.last() == OutputEvent::OutputDone
        }),
{
    let s = display.spec_scale();
    let (w, h) = display.spec_output_size();
    crate::geometry::lemma_points_make_up_the_pixels(w, s);
    crate::geometry::lemma_points_make_up_the_pixels(h, s);
    let pw = spec_points(w, s);
    let ph = spec_points(h, s);
    assert(0 <= pw <= w) by (nonlinear_arith)
        requires
            s >= 1,
            s * pw <= w,
            w < s * (pw + 1),
            w >= 0,
    ;
    assert(0 <= ph <= h) by (nonlinear_arith)
        requires
            s >= 1,
            s * ph <= h,
            h < s * (ph + 1),
            h >= 0,
    ;
}

} // verus!
