//! What holds of commits: whose pixels are shown where.

use super::commit::{app_key, with_app_key};
use super::focus::to_keyboards;
use super::subsurface::lemma_root_is_unique;
use super::{Emit, KeyboardEvent, StateView, SurfaceRec};
use crate::cmd::{ColorDesc, WinCmd};
use crate::input::Display;
use crate::shm::PixelBuf;
use vstd::prelude::*;

verus! {

/// The color that a surface's next commit shows.
pub open spec fn next_color(r: SurfaceRec) -> Option<ColorDesc> {
    if r.pending_color is Some {
        r.pending_color->0
    } else {
        r.color
    }
}

/// A command shows exactly these pixels in a window, at the viewport's size where one is
/// set, and with this content rectangle.
pub open spec fn shows(
    cmd: WinCmd,
    window_id: u32,
    pb: PixelBuf,
    dst: Option<(i32, i32)>,
    color: Option<ColorDesc>,
    geom: (i32, i32, i32, i32),
) -> bool {
    cmd matches WinCmd::Frame {
        id,
        width,
        height,
        stride,
        dst_w,
        dst_h,
        pixels,
        format,
        color: c,
        geom: g,
    } && id == window_id && width == pb.width && height == pb.height && stride == pb.stride
        && pixels == pb.bytes && format == pb.format && c == color && g == geom && (dst is Some
        ==> (dst_w, dst_h) == dst->0) && (dst is None ==> dst_w == 0 && dst_h == 0)
}

/// A surface has one role at most, and is not the cursor.
pub open spec fn sole_role(s: StateView, sid: u64) -> bool {
    &&& s.cursor_surface != Some(sid)
    &&& !s.surface_subsurface.contains_key(sid)
    &&& !(s.surface_toplevel.contains_key(sid) && s.surface_popup.contains_key(sid))
    &&& !(s.surface_toplevel.contains_key(sid) && s.surface_layer.contains_key(sid))
    &&& !(s.surface_popup.contains_key(sid) && s.surface_layer.contains_key(sid))
}

/// The pixels of a toplevel's surface are shown in that toplevel's window: as they were
/// read, in the staged color, with the surface's own content rectangle. The buffer goes
/// back right after.
pub proof fn lemma_toplevel_shows_its_pixels(
    s: StateView,
    sid: u64,
    buffer: u64,
    pb: PixelBuf,
    display: Display,
)
    requires
        s.wf(),
        sole_role(s, sid),
        s.surface_toplevel.contains_key(sid),
        s.surfaces.contains_key(sid),
        s.surfaces[sid].pending_buffer == Some(buffer),
    ensures
        ({
            let out = s.commit(sid, Some(pb), display).out;
            let r = s.surfaces[sid];
            let window = s.toplevels[s.surface_toplevel[sid]].window_id;
            &&& out.len() >= 2
            &&& out[out.len() - 2] matches Emit::Post { cmd } && shows(
                cmd,
                window,
                pb,
                r.viewport_dst,
                next_color(r),
                (r.geometry_offset.0, r.geometry_offset.1, r.geometry_size.0, r.geometry_size.1),
            )
            &&& out[out.len() - 1] == (Emit::ReleaseBuffer { buffer })
        }),
{
    let s0 = s.buffer_taken(sid);
    let s3 = s0.handshakes(sid, display).state;
    assert(s3.surfaces == s0.surfaces);
    assert(s.roles_wf());
}

/// The pixels of a popup's surface are shown in that popup's window, never in its
/// parent's.
pub proof fn lemma_popup_shows_its_pixels(
    s: StateView,
    sid: u64,
    buffer: u64,
    pb: PixelBuf,
    display: Display,
)
    requires
        s.wf(),
        sole_role(s, sid),
        s.surface_popup.contains_key(sid),
        s.surfaces.contains_key(sid),
        s.surfaces[sid].pending_buffer == Some(buffer),
    ensures
        ({
            let out = s.commit(sid, Some(pb), display).out;
            let r = s.surfaces[sid];
            let window = s.popups[s.surface_popup[sid]].window_id;
            &&& out.len() >= 2
            &&& out[out.len() - 2] matches Emit::Post { cmd } && shows(
                cmd,
                window,
                pb,
                r.viewport_dst,
                next_color(r),
                (0, 0, 0, 0),
            )
            &&& out[out.len() - 1] == (Emit::ReleaseBuffer { buffer })
        }),
{
    let s0 = s.buffer_taken(sid);
    let s3 = s0.handshakes(sid, display).state;
    assert(s3.surfaces == s0.surfaces);
    assert(s.roles_wf());
}

/// The pixels of a bar's surface are shown in that bar's window, at the buffer's own
/// size.
pub proof fn lemma_bar_shows_its_pixels(
    s: StateView,
    sid: u64,
    buffer: u64,
    pb: PixelBuf,
    display: Display,
)
    requires
        s.wf(),
        sole_role(s, sid),
        s.surface_layer.contains_key(sid),
        s.surfaces.contains_key(sid),
        s.surfaces[sid].pending_buffer == Some(buffer),
    ensures
        ({
            let out = s.commit(sid, Some(pb), display).out;
            let r = s.surfaces[sid];
            let window = s.layer_surfaces[s.surface_layer[sid]].window_id;
            &&& out.len() >= 2
            &&& out[out.len() - 2] matches Emit::Post { cmd } && shows(
                cmd,
                window,
                pb,
                None,
                next_color(r),
                (0, 0, 0, 0),
            )
            &&& out[out.len() - 1] == (Emit::ReleaseBuffer { buffer })
        }),
{
    let s0 = s.buffer_taken(sid);
    let s3 = s0.handshakes(sid, display).state;
    assert(s3.surfaces == s0.surfaces);
    assert(s.roles_wf());
}

/// A surface without a role shows nothing, and neither does a buffer that cannot be
/// read: no command goes out for it, but the buffer goes back.
pub proof fn lemma_nothing_to_show(
    s: StateView,
    sid: u64,
    buffer: u64,
    content: Option<PixelBuf>,
    display: Display,
)
    requires
        s.wf(),
        s.surfaces.contains_key(sid),
        s.surfaces[sid].pending_buffer == Some(buffer),
        content is None || (s.cursor_surface != Some(sid) && !s.surface_subsurface.contains_key(sid)
            && !s.surface_toplevel.contains_key(sid) && !s.surface_popup.contains_key(sid)
            && !s.surface_layer.contains_key(sid)),
    ensures
        ({
            let out = s.commit(sid, content, display).out;
            &&& forall|i: int| 0 <= i < out.len() ==> !(#[trigger] out[i] is Post)
            &&& out.last() == (Emit::ReleaseBuffer { buffer })
        }),
{
}

/// A toplevel's first pixels create its window: in its client's application, with its
/// title, with a native titlebar where it asked for one, and with the icon that waited.
/// The window is created before anything is shown in it.
pub proof fn lemma_first_pixels_create_the_window(s: StateView, sid: u64, pb: PixelBuf)
    requires
        s.wf(),
        s.surface_toplevel.contains_key(sid),
        s.surfaces.contains_key(sid),
        !s.toplevels[s.surface_toplevel[sid]].created_window,
    ensures
        ({
            let tl = s.surface_toplevel[sid];
            let t = s.toplevels[tl];
            let r = s.surfaces[sid];
            let step = s.present(sid, pb);
            let out = step.out;
            let known = s.client_app_ids.contains_key(t.surface.client);
            &&& out.len() == (if s.icons.contains_key(tl) {
                4int
            } else {
                3
            })
            &&& out[0] matches Emit::AssignWindow { win_id, app_key, app_id, title } && win_id
                == t.window_id && app_id == s.app_ids[tl] && title == s.titles[tl] && (known
                ==> app_key == s.client_app_ids[t.surface.client])
            &&& out[1] matches Emit::Post {
                cmd: WinCmd::Create { id, width, height, dst_w, dst_h, decorated, title, geom },
            } && id == t.window_id && width == pb.width && height == pb.height && decorated
                == t.wants_ssd && title == s.titles[tl] && geom == (
                r.geometry_offset.0,
                r.geometry_offset.1,
                r.geometry_size.0,
                r.geometry_size.1,
            ) && (r.viewport_dst is Some ==> (dst_w, dst_h) == r.viewport_dst->0) && (r.viewport_dst
                is None ==> dst_w == 0 && dst_h == 0)
            &&& s.icons.contains_key(tl) ==> (out[2] matches Emit::Post {
                cmd: WinCmd::SetIcon { id, width, height, stride, pixels },
            } && id == t.window_id && width == s.icons[tl].width && height == s.icons[tl].height
                && stride == s.icons[tl].stride && pixels == s.icons[tl].pixels)
            &&& out.last() is Post
            &&& step.state.toplevels[tl].created_window
            &&& step.state.client_app_ids.contains_key(t.surface.client)
            &&& !step.state.icons.contains_key(tl)
        }),
{
    assert(s.roles_wf());
}

/// A popup's first pixels create its window, as a child of its parent's window, as far
/// from the parent's content as the popup was configured to be: what the shadows of
/// either take up does not count.
pub proof fn lemma_popup_opens_at_its_parent(s: StateView, sid: u64, pb: PixelBuf, parent: u64)
    requires
        s.wf(),
        s.surface_popup.contains_key(sid),
        !s.surface_toplevel.contains_key(sid),
        !s.popups[s.surface_popup[sid]].created_window,
        s.surfaces.contains_key(sid),
        s.window_surface.contains_key(s.popups[s.surface_popup[sid]].parent_window as u64),
        s.window_surface[s.popups[s.surface_popup[sid]].parent_window as u64].id == parent,
        s.surfaces.contains_key(parent),
    ensures
        ({
            let p = s.popups[s.surface_popup[sid]];
            let around = s.surfaces[parent].geometry_offset;
            let own = s.surfaces[sid].geometry_offset;
            let out = s.present(sid, pb).out;
            &&& out.len() == 2
            &&& out[0] matches Emit::Post {
                cmd: WinCmd::CreatePopup {
                    id,
                    parent_id,
                    x,
                    y,
                    x_flip,
                    y_flip,
                    constraint,
                    width,
                    height,
                },
            } && id == p.window_id && parent_id == p.parent_window && constraint == p.constraint
                && width == pb.width && height == pb.height && (i32::MIN <= around.0 + p.x - own.0
                <= i32::MAX ==> x + own.0 == around.0 + p.x) && (i32::MIN <= around.1 + p.y - own.1
                <= i32::MAX ==> y + own.1 == around.1 + p.y) && (i32::MIN <= around.0 + p.x_flip
                - own.0 <= i32::MAX ==> x_flip + own.0 == around.0 + p.x_flip) && (i32::MIN
                <= around.1 + p.y_flip - own.1 <= i32::MAX ==> y_flip + own.1 == around.1
                + p.y_flip)
            &&& s.present(sid, pb).state.popups[s.surface_popup[sid]].created_window
        }),
{
    assert(s.roles_wf());
}

/// A bar's first pixels create its window with the anchor and the margins that it asked
/// for. One that takes the keyboard has it from then on.
pub proof fn lemma_bar_opens_as_asked(s: StateView, sid: u64, pb: PixelBuf)
    requires
        s.wf(),
        s.surface_layer.contains_key(sid),
        !s.layer_surfaces[s.surface_layer[sid]].created_window,
    ensures
        ({
            let l = s.layer_surfaces[s.surface_layer[sid]];
            let step = s.present_layer(sid, pb);
            let out = step.out;
            let takes = l.keyboard_interactivity != 0;
            &&& out.len() >= 3
            &&& out[0] matches Emit::AssignBar { win_id, app_key } && win_id == l.window_id
            &&& out[1] matches Emit::Post {
                cmd: WinCmd::CreateLayer {
                    id,
                    width,
                    height,
                    anchor,
                    margin_top,
                    margin_right,
                    margin_bottom,
                    margin_left,
                    keyboard,
                },
            } && id == l.window_id && width == pb.width && height == pb.height && anchor == l.anchor
                && margin_top == l.margin.0 && margin_right == l.margin.1 && margin_bottom
                == l.margin.2 && margin_left == l.margin.3 && keyboard == takes
            &&& takes ==> step.state.focus_window == Some(l.window_id)
            &&& !takes ==> step.state.focus_window == s.focus_window && out.len() == 3
            &&& takes && s.focus_window != Some(l.window_id) ==> out.subrange(2, out.len() - 1)
                == to_keyboards(
                s.keyboards,
                l.surface.client,
                KeyboardEvent::Enter { serial: s.next_serial, surface: l.surface.id },
            )
        }),
{
    assert(s.roles_wf());
    let l = s.layer_surfaces[s.surface_layer[sid]];
    let out = s.present_layer(sid, pb).out;
    let enter = to_keyboards(
        s.keyboards,
        l.surface.client,
        KeyboardEvent::Enter { serial: s.next_serial, surface: l.surface.id },
    );
    if l.keyboard_interactivity != 0 && s.focus_window != Some(l.window_id) {
        assert(out.subrange(2, out.len() - 1) =~= enter);
    }
}

/// The key of an application that is new is one that no application has.
pub proof fn lemma_new_key_is_free(known: Map<u64, u32>, client: u64)
    requires
        known.dom().finite(),
        known.len() < u32::MAX,
        forall|c: u64| #[trigger] known.contains_key(c) ==> known[c] < known.len(),
        !known.contains_key(client),
    ensures
        forall|c: u64| #[trigger] known.contains_key(c) ==> known[c] != app_key(known, client),
        with_app_key(known, client)[client] == app_key(known, client),
        forall|c: u64| #[trigger]
            known.contains_key(c) ==> with_app_key(known, client).contains_key(c) && with_app_key(
                known,
                client,
            )[c] == known[c],
{
}

/// The surface that is the cursor shows its pixels as the cursor and in no window, with
/// the hotspot that was set and at the display's scale, whatever role it has besides.
pub proof fn lemma_cursor_surface_becomes_the_cursor(
    s: StateView,
    sid: u64,
    buffer: u64,
    pb: PixelBuf,
    display: Display,
)
    requires
        s.wf(),
        s.cursor_surface == Some(sid),
        s.surfaces.contains_key(sid),
        s.surfaces[sid].pending_buffer == Some(buffer),
    ensures
        ({
            let out = s.commit(sid, Some(pb), display).out;
            &&& out.len() >= 2
            &&& out[out.len() - 2] matches Emit::Post {
                cmd: WinCmd::SetCursorImage {
                    width,
                    height,
                    stride,
                    hotspot_x,
                    hotspot_y,
                    scale,
                    pixels,
                },
            } && width == pb.width && height == pb.height && stride == pb.stride && pixels
                == pb.bytes && hotspot_x == s.cursor_hotspot.0 && hotspot_y == s.cursor_hotspot.1
                && scale == display.spec_scale()
            &&& forall|i: int|
                0 <= i < out.len() - 2 ==> !(#[trigger] out[i] is Post)
        }),
{
    let shaken = s.buffer_taken(sid).handshakes(sid, display);
    let out = s.commit(sid, Some(pb), display).out;
    assert(out.len() == shaken.out.len() + 2);
    assert forall|i: int| 0 <= i < out.len() - 2 implies !(#[trigger] out[i] is Post) by {
        assert(out[i] == shaken.out[i]);
    }
}

/// A subsurface right inside a window is where it was put, in a layer of its own.
pub proof fn lemma_subsurface_of_a_window(s: StateView, sid: u64, window: u32)
    requires
        s.surface_subsurface.contains_key(sid),
        s.window_of(s.subsurfaces[s.surface_subsurface[sid]].parent) == Some(window),
    ensures
        ({
            let r = s.subsurfaces[s.surface_subsurface[sid]];
            s.resolve_subsurface(sid) == Some((window, r.x, r.y, r.sub_id))
        }),
{
    assert(s.ancestor(sid, 0) == sid);
    assert(s.root_at(sid, 0)) by {
        assert forall|i: nat| i <= 0 implies s.surface_subsurface.contains_key(
            #[trigger] s.ancestor(sid, i),
        ) by {
            assert(i == 0);
        }
    }
    let n = choose|n: nat| s.root_at(sid, n);
    lemma_root_is_unique(s, sid, 0, n);
}

/// A subsurface of a subsurface is in the same window, as much further on as it was put
/// inside its parent, in a layer of its own.
pub proof fn lemma_nested_subsurface_adds_its_offset(s: StateView, sid: u64)
    requires
        s.surface_subsurface.contains_key(sid),
        s.window_of(s.subsurfaces[s.surface_subsurface[sid]].parent) is None,
        s.resolve_subsurface(s.subsurfaces[s.surface_subsurface[sid]].parent) is Some,
    ensures
        ({
            let r = s.subsurfaces[s.surface_subsurface[sid]];
            let up = s.resolve_subsurface(r.parent)->0;
            let at = s.resolve_subsurface(sid)->0;
            &&& s.resolve_subsurface(sid) is Some
            &&& at.0 == up.0
            &&& at.3 == r.sub_id
            &&& at.1 == up.1.wrapping_add(r.x)
            &&& at.2 == up.2.wrapping_add(r.y)
            &&& i32::MIN <= up.1 + r.x <= i32::MAX ==> at.1 == up.1 + r.x
            &&& i32::MIN <= up.2 + r.y <= i32::MAX ==> at.2 == up.2 + r.y
        }),
{
    let r = s.sub_rec(sid);
    let n = choose|n: nat| s.root_at(r.parent, n);
    assert(s.root_at(r.parent, n));
    lemma_chain_goes_on(s, sid, n);
    assert forall|i: nat| i <= n + 1 implies s.surface_subsurface.contains_key(
        #[trigger] s.ancestor(sid, i),
    ) by {
        if i == 0 {
            assert(s.ancestor(sid, 0) == sid);
        } else {
            let j = (i - 1) as nat;
            lemma_chain_goes_on(s, sid, j);
            assert(s.surface_subsurface.contains_key(s.ancestor(r.parent, j)));
        }
    }
    assert forall|i: nat| i < n + 1 implies s.window_of(
        s.sub_rec(#[trigger] s.ancestor(sid, i)).parent,
    ) is None by {
        if i == 0 {
            assert(s.ancestor(sid, 0) == sid);
        } else {
            let j = (i - 1) as nat;
            lemma_chain_goes_on(s, sid, j);
            assert(s.window_of(s.sub_rec(s.ancestor(r.parent, j)).parent) is None);
        }
    }
    assert(s.root_at(sid, n + 1));
    let m = choose|m: nat| s.root_at(sid, m);
    lemma_root_is_unique(s, sid, n + 1, m);
}

/// The chain from a surface goes on as the chain from its parent, and so do the offsets.
proof fn lemma_chain_goes_on(s: StateView, sid: u64, n: nat)
    ensures
        s.ancestor(sid, n + 1) == s.ancestor(s.sub_rec(sid).parent, n),
        s.offset_to(sid, n + 1).0 == s.offset_to(s.sub_rec(sid).parent, n).0.wrapping_add(
            s.sub_rec(sid).x,
        ),
        s.offset_to(sid, n + 1).1 == s.offset_to(s.sub_rec(sid).parent, n).1.wrapping_add(
            s.sub_rec(sid).y,
        ),
    decreases n,
{
    let p = s.sub_rec(sid).parent;
    assert(s.ancestor(sid, 0) == sid);
    assert(s.ancestor(p, 0) == p);
    if n == 0 {
        assert(s.ancestor(sid, 1) == p);
        assert(s.offset_to(sid, 0) == (s.sub_rec(sid).x, s.sub_rec(sid).y));
    } else {
        lemma_chain_goes_on(s, sid, (n - 1) as nat);
    }
}

/// A subsurface's pixels go to its own layer in its window, where it is.
pub proof fn lemma_subsurface_shows_its_pixels(
    s: StateView,
    sid: u64,
    buffer: u64,
    pb: PixelBuf,
    display: Display,
)
    requires
        s.wf(),
        s.cursor_surface != Some(sid),
        s.surface_subsurface.contains_key(sid),
        s.surfaces.contains_key(sid),
        s.surfaces[sid].pending_buffer == Some(buffer),
        !s.surface_toplevel.contains_key(sid),
        !s.surface_popup.contains_key(sid),
        !s.surface_layer.contains_key(sid),
    ensures
        ({
            let out = s.commit(sid, Some(pb), display).out;
            let r = s.surfaces[sid];
            match s.resolve_subsurface(sid) {
                Some((window, ox, oy, key)) => {
                    &&& out.len() == 2
                    &&& out[0] matches Emit::Post {
                        cmd: WinCmd::SubFrame {
                            window_id,
                            sub_id,
                            x,
                            y,
                            width,
                            height,
                            stride,
                            dst_w,
                            dst_h,
                            pixels,
                            format,
                            color,
                        },
                    } && window_id == window && sub_id == key && x == ox && y == oy && width
                        == pb.width && height == pb.height && stride == pb.stride && pixels
                        == pb.bytes && format == pb.format && color == next_color(r) && (
                    r.viewport_dst is Some ==> (dst_w, dst_h) == r.viewport_dst->0) && (
                    r.viewport_dst is None ==> dst_w == 0 && dst_h == 0)
                },
                None => out == seq![Emit::ReleaseBuffer { buffer }],
            }
        }),
{
    let s0 = s.buffer_taken(sid);
    let s3 = s0.handshakes(sid, display).state;
    assert(s3 == s0);
    lemma_chain_is_the_same(s, s0, sid);
    if s.resolve_subsurface(sid) is None {
        assert(s.commit(sid, Some(pb), display).out =~= seq![Emit::ReleaseBuffer { buffer }]);
    }
}

/// What waits on a surface has no part in where it is shown.
proof fn lemma_chain_is_the_same(a: StateView, b: StateView, sid: u64)
    requires
        b == (StateView { surfaces: b.surfaces, ..a }),
    ensures
        a.resolve_subsurface(sid) == b.resolve_subsurface(sid),
{
    assert forall|n: nat| #[trigger] a.ancestor(sid, n) == b.ancestor(sid, n) by {
        lemma_same_ancestor(a, b, sid, n);
    }
    assert forall|n: nat| #[trigger] a.root_at(sid, n) == b.root_at(sid, n) by {
        if a.root_at(sid, n) {
            assert forall|i: nat| i <= n implies b.surface_subsurface.contains_key(
                #[trigger] b.ancestor(sid, i),
            ) by {
                assert(a.surface_subsurface.contains_key(a.ancestor(sid, i)));
            }
            assert forall|i: nat| i < n implies b.window_of(
                b.sub_rec(#[trigger] b.ancestor(sid, i)).parent,
            ) is None by {
                assert(a.window_of(a.sub_rec(a.ancestor(sid, i)).parent) is None);
            }
        }
        if b.root_at(sid, n) {
            assert forall|i: nat| i <= n implies a.surface_subsurface.contains_key(
                #[trigger] a.ancestor(sid, i),
            ) by {
                assert(b.surface_subsurface.contains_key(b.ancestor(sid, i)));
            }
            assert forall|i: nat| i < n implies a.window_of(
                a.sub_rec(#[trigger] a.ancestor(sid, i)).parent,
            ) is None by {
                assert(b.window_of(b.sub_rec(b.ancestor(sid, i)).parent) is None);
            }
        }
    }
    if a.resolve_subsurface(sid) is Some {
        let n = choose|n: nat| a.root_at(sid, n);
        assert(b.root_at(sid, n));
        let m = choose|m: nat| b.root_at(sid, m);
        lemma_root_is_unique(b, sid, n, m);
        lemma_same_ancestor(a, b, sid, n);
    }
    if b.resolve_subsurface(sid) is Some {
        let m = choose|m: nat| b.root_at(sid, m);
        assert(a.root_at(sid, m));
    }
}

proof fn lemma_same_ancestor(a: StateView, b: StateView, sid: u64, n: nat)
    requires
        b == (StateView { surfaces: b.surfaces, ..a }),
    ensures
        a.ancestor(sid, n) == b.ancestor(sid, n),
        a.offset_to(sid, n) == b.offset_to(sid, n),
    decreases n,
{
    if n > 0 {
        lemma_same_ancestor(a, b, sid, (n - 1) as nat);
    }
}

/// A popup's first commit is answered with where its positioner put it and how large, a
/// bar's with the size that it asked for, or on an axis without one with the display's in
/// points; a second commit is not answered.
pub proof fn lemma_popups_and_bars_are_configured(
    s: StateView,
    sid: u64,
    content: Option<PixelBuf>,
    display: Display,
)
    requires
        s.wf(),
        s.surfaces.contains_key(sid),
        s.surfaces[sid].pending_buffer is None,
        sole_role(s, sid),
        display.spec_scale() >= 1,
    ensures
        ({
            let a = s.commit(sid, content, display);
            let p = s.popups[s.surface_popup[sid]];
            let l = s.layer_surfaces[s.surface_layer[sid]];
            let (ow, oh) = display.spec_output_size();
            let scale = display.spec_scale();
            &&& s.surface_popup.contains_key(sid) && !p.configured ==> a.out == seq![
                Emit::PopupConfigure {
                    popup: s.surface_popup[sid],
                    x: p.x,
                    y: p.y,
                    w: p.w,
                    h: p.h,
                },
                Emit::SurfaceConfigure { xdg_surface: p.xdg_surface, serial: s.next_serial },
            ]
            &&& s.surface_layer.contains_key(sid) && !l.configured ==> a.out.len() == 1 && (
            a.out[0] matches Emit::LayerConfigure { layer, serial, width, height } && layer
                == s.surface_layer[sid] && serial == s.next_serial && (0 < l.size.0 <= i32::MAX
                ==> width == l.size.0) && (0 < l.size.1 <= i32::MAX ==> height == l.size.1) && (
            l.size.0 == 0 && ow >= scale ==> width == ow as int / scale as int) && (l.size.1 == 0
                && oh >= scale ==> height == oh as int / scale as int))
            &&& a.state.commit(sid, content, display).out == Seq::<Emit>::empty()
        }),
{
    assert(s.roles_wf());
    let a = s.commit(sid, content, display);
    let p = s.popups[s.surface_popup[sid]];
    let l = s.layer_surfaces[s.surface_layer[sid]];
    let (ow, oh) = display.spec_output_size();
    let scale = display.spec_scale();
    if s.surface_popup.contains_key(sid) && !p.configured {
        assert(a.out =~= seq![
            Emit::PopupConfigure { popup: s.surface_popup[sid], x: p.x, y: p.y, w: p.w, h: p.h },
            Emit::SurfaceConfigure { xdg_surface: p.xdg_surface, serial: s.next_serial },
        ]);
    }
    if s.surface_layer.contains_key(sid) && !l.configured {
        assert(a.out.len() == 1);
        if ow >= scale {
            assert(0 <= ow as int / scale as int <= ow) by (nonlinear_arith)
                requires
                    1 <= scale <= ow,
            ;
        }
        if oh >= scale {
            assert(0 <= oh as int / scale as int <= oh) by (nonlinear_arith)
                requires
                    1 <= scale <= oh,
            ;
        }
    }
    assert(a.state.commit(sid, content, display).out =~= Seq::<Emit>::empty());
}

/// Showing a buffer adds to a commit just what showing it takes, between what the commit
/// sends in any case and the return of the buffer.
pub proof fn lemma_showing_comes_before_the_return(
    s: StateView,
    sid: u64,
    buffer: u64,
    pb: PixelBuf,
    display: Display,
)
    requires
        s.wf(),
        s.surfaces.contains_key(sid),
        s.surfaces[sid].pending_buffer == Some(buffer),
        s.cursor_surface != Some(sid),
        !s.surface_subsurface.contains_key(sid),
    ensures
        ({
            let blind = s.commit(sid, None, display);
            let seeing = s.commit(sid, Some(pb), display);
            let shown = if s.surface_layer.contains_key(sid) {
                blind.state.present_layer(sid, pb)
            } else {
                blind.state.present(sid, pb)
            };
            &&& seeing.out == blind.out.drop_last() + shown.out + seq![
                Emit::ReleaseBuffer { buffer },
            ]
            &&& seeing.state == shown.state
            &&& blind.out.last() == (Emit::ReleaseBuffer { buffer })
        }),
{
    let blind = s.commit(sid, None, display);
    let seeing = s.commit(sid, Some(pb), display);
    let shown = if s.surface_layer.contains_key(sid) {
        blind.state.present_layer(sid, pb)
    } else {
        blind.state.present(sid, pb)
    };
    assert(seeing.out =~= blind.out.drop_last() + shown.out + seq![Emit::ReleaseBuffer { buffer }]);
}

} // verus!
