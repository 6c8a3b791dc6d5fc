//! Keycodes, buttons, modifiers, cursor shapes and keyboard layouts.

use crate::text::{after_last_dot, begins_with, last_component, same_text, starts_with};
use vstd::prelude::*;

verus! {

/// A cursor of the windowing system.
#[derive(Clone, Copy, PartialEq, Eq, Debug, Structural)]
pub enum NativeCursor {
    Arrow,
    ContextualMenu,
    PointingHand,
    Crosshair,
    IBeam,
    DragCopy,
    OperationNotAllowed,
    OpenHand,
    ClosedHand,
    ResizeLeftRight,
    ResizeUpDown,
    /// A transparent cursor.
    Hidden,
}

/// The native cursor that stands for a shape id of the cursor-shape protocol.
pub open spec fn spec_map_cursor(shape: u32) -> NativeCursor {
    if shape == 2 {
        NativeCursor::ContextualMenu
    } else if shape == 4 {
        NativeCursor::PointingHand
    } else if shape == 8 {
        NativeCursor::Crosshair
    } else if shape == 9 || shape == 10 {
        NativeCursor::IBeam
    } else if shape == 12 {
        NativeCursor::DragCopy
    } else if shape == 14 || shape == 15 {
        NativeCursor::OperationNotAllowed
    } else if shape == 16 {
        NativeCursor::OpenHand
    } else if shape == 17 {
        NativeCursor::ClosedHand
    } else if shape == 18 || shape == 25 || shape == 26 || shape == 30 {
        NativeCursor::ResizeLeftRight
    } else if shape == 19 || shape == 22 || shape == 27 || shape == 31 {
        NativeCursor::ResizeUpDown
    } else {
        NativeCursor::Arrow
    }
}

/// Maps a cursor shape id to the closest native cursor.
pub fn map_cursor(shape: u32) -> (r: NativeCursor)
    ensures
        r == spec_map_cursor(shape),
{
    match shape {
        2 => NativeCursor::ContextualMenu,
        4 => NativeCursor::PointingHand,
        8 => NativeCursor::Crosshair,
        9 | 10 => NativeCursor::IBeam,
        12 => NativeCursor::DragCopy,
        14 | 15 => NativeCursor::OperationNotAllowed,
        16 => NativeCursor::OpenHand,
        17 => NativeCursor::ClosedHand,
        18 | 25 | 26 | 30 => NativeCursor::ResizeLeftRight,
        19 | 22 | 27 | 31 => NativeCursor::ResizeUpDown,
        _ => NativeCursor::Arrow,
    }
}

/// evdev code of the left button; right and middle follow.
pub const BTN_LEFT: u32 = 0x110;

/// A native button number has an evdev code.
pub open spec fn button_has_code(n: isize) -> bool {
    n as u32 <= 0xffff_feef
}

/// The evdev code of a native button number.
pub open spec fn spec_btn_code(n: isize) -> u32 {
    (BTN_LEFT + n as u32) as u32
}

/// The evdev code of a native button number (0 left, 1 right, 2 middle).
pub fn btn_code(n: isize) -> (r: u32)
    requires
        button_has_code(n),
    ensures
        r == spec_btn_code(n),
{
    BTN_LEFT + #[verifier::truncate] (n as u32)
}

/// The xkb masks of held keys: depressed and locked.
pub open spec fn masks(
    shift: bool,
    control: bool,
    option: bool,
    command: bool,
    caps_lock: bool,
) -> (int, int) {
    (
        (if shift {
            1int
        } else {
            0
        }) + (if control {
            4int
        } else {
            0
        }) + (if option {
            8int
        } else {
            0
        }) + (if command {
            64int
        } else {
            0
        }),
        if caps_lock {
            2
        } else {
            0
        },
    )
}

/// Translates held keys to xkb modifier masks: (depressed, locked).
pub fn modifier_masks(shift: bool, control: bool, option: bool, command: bool, caps_lock: bool) -> (r: (u32, u32))
    ensures
        (r.0 as int, r.1 as int) == masks(shift, control, option, command, caps_lock),
        r.0 == (if shift { 1int } else { 0 }) + (if control { 4int } else { 0 }) + (if option {
            8int
        } else {
            0
        }) + (if command { 64int } else { 0 }),
        r.1 == if caps_lock { 2int } else { 0 },
{
    let mut depressed: u32 = 0;
    if shift {
        depressed = depressed + 1;
    }
    if control {
        depressed = depressed + 4;
    }
    if option {
        depressed = depressed + 8;
    }
    if command {
        depressed = depressed + 64;
    }
    (depressed, if caps_lock { 2 } else { 0 })
}

/// The keys that are passed on, as pairs of native keycode and evdev keycode.
pub open spec fn key_table() -> Seq<(u16, u32)> {
    seq![
        (0x00u16, 30u32), (0x01u16, 31u32), (0x02u16, 32u32), (0x03u16, 33u32), (0x04u16,
        35u32), (0x05u16, 34u32), (0x06u16, 44u32), (0x07u16, 45u32), (0x08u16, 46u32),
        (0x09u16, 47u32), (0x0Bu16, 48u32), (0x0Cu16, 16u32), (0x0Du16, 17u32), (0x0Eu16,
        18u32), (0x0Fu16, 19u32), (0x10u16, 21u32), (0x11u16, 20u32), (0x12u16, 2u32), (0x13u16,
        3u32), (0x14u16, 4u32), (0x15u16, 5u32), (0x16u16, 7u32), (0x17u16, 6u32), (0x18u16,
        13u32), (0x19u16, 10u32), (0x1Au16, 8u32), (0x1Bu16, 12u32), (0x1Cu16, 9u32), (0x1Du16,
        11u32), (0x1Eu16, 27u32), (0x1Fu16, 24u32), (0x20u16, 22u32), (0x21u16, 26u32),
        (0x22u16, 23u32), (0x23u16, 25u32), (0x24u16, 28u32), (0x25u16, 38u32), (0x26u16,
        36u32), (0x27u16, 40u32), (0x28u16, 37u32), (0x29u16, 39u32), (0x2Au16, 43u32),
        (0x2Bu16, 51u32), (0x2Cu16, 53u32), (0x2Du16, 49u32), (0x2Eu16, 50u32), (0x2Fu16,
        52u32), (0x30u16, 15u32), (0x31u16, 57u32), (0x32u16, 41u32), (0x33u16, 14u32),
        (0x35u16, 1u32), (0x37u16, 125u32), (0x38u16, 42u32), (0x39u16, 58u32), (0x3Au16,
        56u32), (0x3Bu16, 29u32), (0x3Cu16, 54u32), (0x3Du16, 100u32), (0x3Eu16, 97u32),
        (0x36u16, 126u32), (0x7Bu16, 105u32), (0x7Cu16, 106u32), (0x7Du16, 108u32), (0x7Eu16,
        103u32),
    ]
}

/// The evdev keycode of a native keycode: the one that the table pairs it with.
pub fn macos_to_evdev(kc: u16) -> (r: Option<u32>)
    ensures
        r is Some ==> key_table().contains((kc, r->0)),
        r is None ==> forall|code: u32| !key_table().contains((kc, code)),
        r is Some ==> same_key(kc, r->0),
        r is None ==> forall|code: u32| !same_key(kc, code),
{
    proof {
        assert forall|code: u32| #[trigger] same_key(kc, code) == key_table().contains(
            (kc, code),
        ) by {
            lemma_keys_keep_their_place(kc, code);
        }
    }
    let code: u32 = match kc {
        0x00 => 30,
        0x01 => 31,
        0x02 => 32,
        0x03 => 33,
        0x04 => 35,
        0x05 => 34,
        0x06 => 44,
        0x07 => 45,
        0x08 => 46,
        0x09 => 47,
        0x0B => 48,
        0x0C => 16,
        0x0D => 17,
        0x0E => 18,
        0x0F => 19,
        0x10 => 21,
        0x11 => 20,
        0x12 => 2,
        0x13 => 3,
        0x14 => 4,
        0x15 => 5,
        0x16 => 7,
        0x17 => 6,
        0x18 => 13,
        0x19 => 10,
        0x1A => 8,
        0x1B => 12,
        0x1C => 9,
        0x1D => 11,
        0x1E => 27,
        0x1F => 24,
        0x20 => 22,
        0x21 => 26,
        0x22 => 23,
        0x23 => 25,
        0x24 => 28,
        0x25 => 38,
        0x26 => 36,
        0x27 => 40,
        0x28 => 37,
        0x29 => 39,
        0x2A => 43,
        0x2B => 51,
        0x2C => 53,
        0x2D => 49,
        0x2E => 50,
        0x2F => 52,
        0x30 => 15,
        0x31 => 57,
        0x32 => 41,
        0x33 => 14,
        0x35 => 1,
        0x37 => 125,
        0x38 => 42,
        0x39 => 58,
        0x3A => 56,
        0x3B => 29,
        0x3C => 54,
        0x3D => 100,
        0x3E => 97,
        0x36 => 126,
        0x7B => 105,
        0x7C => 106,
        0x7D => 108,
        0x7E => 103,
        _ => {
            return None;
        },
    };
    Some(code)
}

/// No two native keys share an evdev keycode, and no native key has two.
pub proof fn lemma_keys_are_distinct(a: (u16, u32), b: (u16, u32))
    requires
        key_table().contains(a),
        key_table().contains(b),
        a.0 == b.0 || a.1 == b.1,
    ensures
        a == b,
{
}

/// The xkb layout that stands for a native layout name.
pub open spec fn layout_for(name: Seq<char>) -> Option<Seq<char>> {
    if begins_with(name, "German"@) {
        Some("de"@)
    } else if begins_with(name, "US"@) || name == "ABC"@ {
        Some("us"@)
    } else if begins_with(name, "British"@) {
        Some("gb"@)
    } else if begins_with(name, "French"@) {
        Some("fr"@)
    } else if begins_with(name, "Spanish"@) {
        Some("es"@)
    } else if begins_with(name, "Italian"@) {
        Some("it"@)
    } else if begins_with(name, "Swiss"@) {
        Some("ch"@)
    } else if begins_with(name, "Dutch"@) {
        Some("nl"@)
    } else if begins_with(name, "Portuguese"@) {
        Some("pt"@)
    } else if begins_with(name, "Danish"@) {
        Some("dk"@)
    } else if begins_with(name, "Norwegian"@) {
        Some("no"@)
    } else if begins_with(name, "Swedish"@) {
        Some("se"@)
    } else {
        None
    }
}

/// The xkb layout for the id of the current keyboard input source; none for a
/// layout that is not known.
pub fn macos_keyboard_layout(id: &str) -> (r: Option<&'static str>)
    ensures
        r is Some == layout_for(after_last_dot(id@)) is Some,
        r is Some ==> r->0@ == layout_for(after_last_dot(id@))->0,
{
    let name = last_component(id);
    if starts_with(name, "German") {
        Some("de")
    } else if starts_with(name, "US") || same_text(name, "ABC") {
        Some("us")
    } else if starts_with(name, "British") {
        Some("gb")
    } else if starts_with(name, "French") {
        Some("fr")
    } else if starts_with(name, "Spanish") {
        Some("es")
    } else if starts_with(name, "Italian") {
        Some("it")
    } else if starts_with(name, "Swiss") {
        Some("ch")
    } else if starts_with(name, "Dutch") {
        Some("nl")
    } else if starts_with(name, "Portuguese") {
        Some("pt")
    } else if starts_with(name, "Danish") {
        Some("dk")
    } else if starts_with(name, "Norwegian") {
        Some("no")
    } else if starts_with(name, "Swedish") {
        Some("se")
    } else {
        None
    }
}

/// What the pasteboard watcher remembers: the change count that it saw last and the
/// one that its own write made.
#[derive(Clone, Copy, PartialEq, Eq, Debug, Structural)]
pub struct PasteboardState {
    pub last_seen: isize,
    pub self_wrote: isize,
}

impl PasteboardState {
    /// A change count that is to be reported.
    pub open spec fn is_news(self, count: isize) -> bool {
        count != self.last_seen && count != self.self_wrote
    }

    /// The state after a look.
    pub open spec fn after_look(self, count: isize) -> PasteboardState {
        PasteboardState { last_seen: count, ..self }
    }

    /// The state after the watcher's own write.
    pub open spec fn after_write(self, count: isize) -> PasteboardState {
        PasteboardState { last_seen: count, self_wrote: count }
    }

    /// Nothing seen yet, so that the first look reports what is there.
    pub fn new() -> (s: Self)
        ensures
            s.last_seen == -1,
            s.self_wrote == -1,
    {
        PasteboardState { last_seen: -1, self_wrote: -1 }
    }

    /// The watcher's own write produced this change count.
    pub fn wrote(&mut self, count: isize)
        ensures
            *final(self) == old(self).after_write(count),
    {
        self.last_seen = count;
        self.self_wrote = count;
    }

    /// A look at the change count. True where the contents are to be reported: they
    /// changed, and not by the watcher's own write.
    pub fn clipboard_tick(&mut self, count: isize) -> (report: bool)
        ensures
            report == old(self).is_news(count),
            *final(self) == old(self).after_look(count),
    {
        if count == self.last_seen {
            return false;
        }
        self.last_seen = count;
        count != self.self_wrote
    }
}

/// The keys of a row from left to right, by native keycode. evdev numbers the keys of
/// a row one after the other.
pub open spec fn digit_row() -> Seq<u16> {
    seq![
        0x12u16, 0x13u16, 0x14u16, 0x15u16, 0x17u16, 0x16u16, 0x1Au16, 0x1Cu16, 0x19u16, 0x1Du16,
        0x1Bu16, 0x18u16, 0x33u16,
    ]
}

/// Tab, then Q to P, then the brackets, Return and left Control.
pub open spec fn upper_row() -> Seq<u16> {
    seq![
        0x30u16, 0x0Cu16, 0x0Du16, 0x0Eu16, 0x0Fu16, 0x11u16, 0x10u16, 0x20u16, 0x22u16, 0x1Fu16,
        0x23u16, 0x21u16, 0x1Eu16, 0x24u16, 0x3Bu16,
    ]
}

/// A to L, then semicolon and quote.
pub open spec fn home_row() -> Seq<u16> {
    seq![
        0x00u16, 0x01u16, 0x02u16, 0x03u16, 0x05u16, 0x04u16, 0x26u16, 0x28u16, 0x25u16, 0x29u16,
        0x27u16,
    ]
}

/// Grave, left Shift, backslash, then Z to M, comma, period, slash and right Shift.
pub open spec fn lower_row() -> Seq<u16> {
    seq![
        0x32u16, 0x38u16, 0x2Au16, 0x06u16, 0x07u16, 0x08u16, 0x09u16, 0x0Bu16, 0x2Du16, 0x2Eu16,
        0x2Bu16, 0x2Fu16, 0x2Cu16, 0x3Cu16,
    ]
}

/// `kc` is the key of `row` that evdev numbers `code`, where `first` is the number of
/// the leftmost key.
pub open spec fn in_row(row: Seq<u16>, first: int, kc: u16, code: u32) -> bool {
    first <= code < first + row.len() && row[code - first] == kc
}

/// A key stands alone: Escape, Option, Space, Caps Lock, the right-hand modifiers, the
/// arrows (up, left, right, down), and the two Command keys.
pub open spec fn lone_key(kc: u16, code: u32) -> bool {
    ||| kc == 0x35 && code == 1
    ||| kc == 0x3A && code == 56
    ||| kc == 0x31 && code == 57
    ||| kc == 0x39 && code == 58
    ||| kc == 0x3E && code == 97
    ||| kc == 0x3D && code == 100
    ||| kc == 0x7E && code == 103
    ||| kc == 0x7B && code == 105
    ||| kc == 0x7C && code == 106
    ||| kc == 0x7D && code == 108
    ||| kc == 0x37 && code == 125
    ||| kc == 0x36 && code == 126
}

/// A native keycode and an evdev keycode name the same key of the keyboard.
pub open spec fn same_key(kc: u16, code: u32) -> bool {
    ||| in_row(digit_row(), 2, kc, code)
    ||| in_row(upper_row(), 15, kc, code)
    ||| in_row(home_row(), 30, kc, code)
    ||| in_row(lower_row(), 41, kc, code)
    ||| lone_key(kc, code)
}

/// A key keeps its place on the keyboard: what it is translated to is the key in the
/// same row at the same place, and every such key is translated.
pub proof fn lemma_keys_keep_their_place(kc: u16, code: u32)
    ensures
        key_table().contains((kc, code)) == same_key(kc, code),
{
    if key_table().contains((kc, code)) {
        let i = key_table().index_of((kc, code));
        assert(key_table()[i] == (kc, code));
    }
    if same_key(kc, code) {
        lemma_named_keys_are_listed(kc, code);
    }
}

proof fn lemma_named_keys_are_listed(kc: u16, code: u32)
    requires
        same_key(kc, code),
    ensures
        key_table().contains((kc, code)),
{
    let t = key_table();
    if in_row(digit_row(), 2, kc, code) {
        assert(t[17] == (kc, code) || t[18] == (kc, code) || t[19] == (kc, code) || t[20] == (
            kc,
            code,
        ) || t[22] == (kc, code) || t[21] == (kc, code) || t[25] == (kc, code) || t[27] == (
            kc,
            code,
        ) || t[24] == (kc, code) || t[28] == (kc, code) || t[26] == (kc, code) || t[23] == (
            kc,
            code,
        ) || t[50] == (kc, code));
    }
    if in_row(upper_row(), 15, kc, code) {
        assert(t[47] == (kc, code) || t[11] == (kc, code) || t[12] == (kc, code) || t[13] == (
            kc,
            code,
        ) || t[14] == (kc, code) || t[16] == (kc, code) || t[15] == (kc, code) || t[31] == (
            kc,
            code,
        ) || t[33] == (kc, code) || t[30] == (kc, code) || t[34] == (kc, code) || t[32] == (
            kc,
            code,
        ) || t[29] == (kc, code) || t[35] == (kc, code) || t[56] == (kc, code));
    }
    if in_row(home_row(), 30, kc, code) {
        assert(t[0] == (kc, code) || t[1] == (kc, code) || t[2] == (kc, code) || t[3] == (kc, code)
            || t[5] == (kc, code) || t[4] == (kc, code) || t[37] == (kc, code) || t[39] == (
            kc,
            code,
        ) || t[36] == (kc, code) || t[40] == (kc, code) || t[38] == (kc, code));
    }
    if in_row(lower_row(), 41, kc, code) {
        assert(t[49] == (kc, code) || t[53] == (kc, code) || t[41] == (kc, code) || t[6] == (
            kc,
            code,
        ) || t[7] == (kc, code) || t[8] == (kc, code) || t[9] == (kc, code) || t[10] == (kc, code)
            || t[44] == (kc, code) || t[45] == (kc, code) || t[42] == (kc, code) || t[46] == (
            kc,
            code,
        ) || t[43] == (kc, code) || t[57] == (kc, code));
    }
    if lone_key(kc, code) {
        assert(t[51] == (kc, code) || t[55] == (kc, code) || t[48] == (kc, code) || t[54] == (
            kc,
            code,
        ) || t[59] == (kc, code) || t[58] == (kc, code) || t[64] == (kc, code) || t[61] == (
            kc,
            code,
        ) || t[62] == (kc, code) || t[63] == (kc, code) || t[52] == (kc, code) || t[60] == (
            kc,
            code,
        ));
    }
}

/// The shapes of the cursor-shape protocol, in the order of their ids from 1 on.
#[derive(Clone, Copy, PartialEq, Eq, Debug, Structural)]
pub enum CursorShape {
    Default,
    ContextMenu,
    Help,
    Pointer,
    Progress,
    Wait,
    Cell,
    Crosshair,
    Text,
    VerticalText,
    Alias,
    Copy,
    Move,
    NoDrop,
    NotAllowed,
    Grab,
    Grabbing,
    EResize,
    NResize,
    NeResize,
    NwResize,
    SResize,
    SeResize,
    SwResize,
    WResize,
    EwResize,
    NsResize,
    NeswResize,
    NwseResize,
    ColResize,
    RowResize,
    AllScroll,
    ZoomIn,
    ZoomOut,
}

/// The id of a shape: its place in the protocol's list.
pub open spec fn shape_id(shape: CursorShape) -> u32 {
    match shape {
        CursorShape::Default => 1,
        CursorShape::ContextMenu => 2,
        CursorShape::Help => 3,
        CursorShape::Pointer => 4,
        CursorShape::Progress => 5,
        CursorShape::Wait => 6,
        CursorShape::Cell => 7,
        CursorShape::Crosshair => 8,
        CursorShape::Text => 9,
        CursorShape::VerticalText => 10,
        CursorShape::Alias => 11,
        CursorShape::Copy => 12,
        CursorShape::Move => 13,
        CursorShape::NoDrop => 14,
        CursorShape::NotAllowed => 15,
        CursorShape::Grab => 16,
        CursorShape::Grabbing => 17,
        CursorShape::EResize => 18,
        CursorShape::NResize => 19,
        CursorShape::NeResize => 20,
        CursorShape::NwResize => 21,
        CursorShape::SResize => 22,
        CursorShape::SeResize => 23,
        CursorShape::SwResize => 24,
        CursorShape::WResize => 25,
        CursorShape::EwResize => 26,
        CursorShape::NsResize => 27,
        CursorShape::NeswResize => 28,
        CursorShape::NwseResize => 29,
        CursorShape::ColResize => 30,
        CursorShape::RowResize => 31,
        CursorShape::AllScroll => 32,
        CursorShape::ZoomIn => 33,
        CursorShape::ZoomOut => 34,
    }
}

/// A shape resizes along the x axis.
pub open spec fn resizes_sideways(shape: CursorShape) -> bool {
    shape == CursorShape::EResize || shape == CursorShape::WResize || shape
        == CursorShape::EwResize || shape == CursorShape::ColResize
}

/// A shape resizes along the y axis.
pub open spec fn resizes_upright(shape: CursorShape) -> bool {
    shape == CursorShape::NResize || shape == CursorShape::SResize || shape
        == CursorShape::NsResize || shape == CursorShape::RowResize
}

/// Each native cursor stands for the shapes that it looks like, and for no others; a
/// shape without a likeness is an arrow.
pub proof fn lemma_cursor_looks_like_its_shape(shape: CursorShape)
    ensures
        ({
            let c = spec_map_cursor(shape_id(shape));
            &&& (c == NativeCursor::ContextualMenu) == (shape == CursorShape::ContextMenu)
            &&& (c == NativeCursor::PointingHand) == (shape == CursorShape::Pointer)
            &&& (c == NativeCursor::Crosshair) == (shape == CursorShape::Crosshair)
            &&& (c == NativeCursor::IBeam) == (shape == CursorShape::Text || shape
                == CursorShape::VerticalText)
            &&& (c == NativeCursor::DragCopy) == (shape == CursorShape::Copy)
            &&& (c == NativeCursor::OperationNotAllowed) == (shape == CursorShape::NoDrop || shape
                == CursorShape::NotAllowed)
            &&& (c == NativeCursor::OpenHand) == (shape == CursorShape::Grab)
            &&& (c == NativeCursor::ClosedHand) == (shape == CursorShape::Grabbing)
            &&& (c == NativeCursor::ResizeLeftRight) == resizes_sideways(shape)
            &&& (c == NativeCursor::ResizeUpDown) == resizes_upright(shape)
            &&& c != NativeCursor::Hidden
        }),
{
}

/// An id that names no shape gives an arrow.
pub proof fn lemma_unknown_shape_is_an_arrow(id: u32)
    requires
        id == 0 || id > shape_id(CursorShape::ZoomOut),
    ensures
        spec_map_cursor(id) == NativeCursor::Arrow,
{
}

/// Buttons keep apart and in order: the left button is evdev's first mouse button, and
/// each further native number is the next evdev code.
pub proof fn lemma_buttons_keep_their_order(n: isize)
    requires
        0 <= n < 0x1000,
    ensures
        spec_btn_code(0) == 0x110,
        spec_btn_code((n + 1) as isize) == spec_btn_code(n) + 1,
{
}

/// A layout of a language keeps its xkb name, whatever variant the native name goes on
/// to tell.
pub proof fn lemma_layout_goes_by_language(variant: Seq<char>)
    ensures
        layout_for("German"@ + variant) == Some("de"@),
        layout_for("US"@ + variant) == Some("us"@),
        layout_for("British"@ + variant) == Some("gb"@),
        layout_for("French"@ + variant) == Some("fr"@),
        layout_for("Spanish"@ + variant) == Some("es"@),
        layout_for("Italian"@ + variant) == Some("it"@),
        layout_for("Swiss"@ + variant) == Some("ch"@),
        layout_for("Dutch"@ + variant) == Some("nl"@),
        layout_for("Portuguese"@ + variant) == Some("pt"@),
        layout_for("Danish"@ + variant) == Some("dk"@),
        layout_for("Norwegian"@ + variant) == Some("no"@),
        layout_for("Swedish"@ + variant) == Some("se"@),
{
    reveal_strlit("German");
    reveal_strlit("US");
    reveal_strlit("ABC");
    reveal_strlit("British");
    reveal_strlit("French");
    reveal_strlit("Spanish");
    reveal_strlit("Italian");
    reveal_strlit("Swiss");
    reveal_strlit("Dutch");
    reveal_strlit("Portuguese");
    reveal_strlit("Danish");
    reveal_strlit("Norwegian");
    reveal_strlit("Swedish");
    assert forall|s: Seq<char>, p: Seq<char>, i: int| #[trigger]
        begins_with(s, p) && 0 <= i < p.len() implies s[i] == #[trigger] p[i] by {
        assert(s.take(p.len() as int)[i] == p[i]);
    }
    assert forall|p: Seq<char>| #[trigger] begins_with(p + variant, p) by {
        assert((p + variant).take(p.len() as int) =~= p);
    }
    let us = "US"@ + variant;
    assert(begins_with(us, "US"@));
    assert(us[0] == 'U');
    assert("German"@[0] == 'G');
    let gb = "British"@ + variant;
    assert(gb[0] == 'B' && gb[1] == 'r');
    assert("US"@[0] == 'U' && "ABC"@[0] == 'A');
    let fr = "French"@ + variant;
    assert(fr[0] == 'F');
    assert("British"@[0] == 'B');
    let es = "Spanish"@ + variant;
    assert(es[0] == 'S');
    assert("French"@[0] == 'F');
    let it = "Italian"@ + variant;
    assert(it[0] == 'I');
    assert("Spanish"@[0] == 'S' && "Spanish"@[1] == 'p');
    let ch = "Swiss"@ + variant;
    assert(ch[0] == 'S' && ch[1] == 'w');
    assert("Italian"@[0] == 'I');
    let nl = "Dutch"@ + variant;
    assert(nl[0] == 'D');
    assert("Swiss"@[0] == 'S' && "Swiss"@[2] == 'i');
    let pt = "Portuguese"@ + variant;
    assert(pt[0] == 'P');
    assert("Dutch"@[0] == 'D' && "Dutch"@[1] == 'u');
    let dk = "Danish"@ + variant;
    assert(dk[0] == 'D' && dk[1] == 'a');
    assert("Portuguese"@[0] == 'P');
    let no = "Norwegian"@ + variant;
    assert(no[0] == 'N');
    assert("Danish"@[0] == 'D');
    let se = "Swedish"@ + variant;
    assert(se[0] == 'S' && se[1] == 'w' && se[2] == 'e');
    assert("Norwegian"@[0] == 'N');
}

/// Each held key sets the bit of its xkb modifier and no other: Shift the first, Control
/// the third, Option as Alt the fourth, Command as Super the seventh; Caps Lock locks the
/// second.
pub proof fn lemma_modifiers_set_their_bits(
    shift: bool,
    control: bool,
    option: bool,
    command: bool,
    caps_lock: bool,
)
    ensures
        ({
            let (depressed, locked) = masks(shift, control, option, command, caps_lock);
            &&& (depressed % 2 == 1) == shift
            &&& (depressed / 4 % 2 == 1) == control
            &&& (depressed / 8 % 2 == 1) == option
            &&& (depressed / 64 % 2 == 1) == command
            &&& depressed / 2 % 2 == 0 && depressed / 16 % 4 == 0 && depressed / 128 == 0
            &&& locked == if caps_lock {
                2int
            } else {
                0
            }
        }),
{
}

/// A change of the pasteboard is reported once, and the watcher's own writes never are.
pub proof fn lemma_news_is_told_once(s: PasteboardState, count: isize, later: isize)
    requires
        later != count,
    ensures
        !s.after_look(count).is_news(count),
        !s.after_write(count).is_news(count),
        s.after_write(count).is_news(later),
        later != s.self_wrote ==> s.after_look(count).is_news(later),
        count != s.last_seen && count != s.self_wrote ==> s.is_news(count),
{
}

} // verus!
