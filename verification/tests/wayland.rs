//! What client requests and input events do, from the client's request to what
//! reaches the windowing side.

use wayland_macos::cmd::{ColorDesc, PixelFormat, Primaries, TransferFn, WinCmd};
use wayland_macos::input::{set_output_size, set_scale, Display, InputEvent};
use wayland_macos::positioner::PositionerState;
use wayland_macos::shm::{
    advertised_formats, buffer_to_pixels, shm_pixel_format, single_pixel_buffer, BufferKind,
    PixelBuf, PoolMem,
};
use wayland_macos::wayland::color_management::{
    announce_color, map_primaries, map_tf, ColorManager, ColorOffer, ParamRequest,
};
use wayland_macos::wayland::globals::{
    announce_output, announce_seat, announce_xdg_output, fractional_scale, globals, icon_sizes,
    repeat_info, toplevel_states, wm_capabilities, OutputEvent,
};
use wayland_macos::wayland::handlers::pick_icon;
use wayland_macos::wayland::names::{activation_token, app_display_name, display_name_with};
use wayland_macos::wayland::requests::{LayerRequest, PositionerRequest, ToplevelRequest};
use wayland_macos::wayland::{
    Device, Emit, KeyboardEvent, PointerEvent, State, SurfaceRef,
};
use wayland_protocols::wp::color_management::v1::server::wp_color_manager_v1;
use wayland_protocols::wp::color_management::v1::server::wp_color_manager_v1::{
    Feature, Primaries as WpPrimaries, RenderIntent, TransferFunction,
};
use wayland_server::protocol::{wl_seat, wl_shm};

const CLIENT: u64 = 77;

/// A compositor with one client. Ids count up; buffers live in pools of bytes.
struct Harness {
    state: State,
    display: Display,
    next: u64,
    buffers: Vec<(u64, BufferKind, Vec<u8>)>,
    emitted: Vec<Emit>,
}

impl Harness {
    fn new() -> Self {
        Harness {
            state: State::new(),
            display: Display::new(),
            next: 100,
            buffers: Vec::new(),
            emitted: Vec::new(),
        }
    }

    fn id(&mut self) -> u64 {
        self.next += 1;
        self.next
    }

    fn surface(&mut self) -> u64 {
        let s = self.id();
        let out = self.state.create_surface(s, 6, &self.display);
        self.emitted.extend(out);
        s
    }

    /// A configured toplevel: (surface, toplevel).
    fn make_toplevel(&mut self) -> (u64, u64) {
        let s = self.surface();
        let xdg = self.id();
        let tl = self.id();
        self.state.get_toplevel(tl, xdg, SurfaceRef { id: s, client: CLIENT }, 6);
        self.commit(s);
        (s, tl)
    }

    /// A buffer in a pool that is made with one size and perhaps grown to another.
    fn shm_buffer(&mut self, pool: i32, grown: Option<i32>, offset: i32, w: i32, h: i32) -> u64 {
        let mut mem = PoolMem::map_pool(pool, true);
        if let Some(size) = grown {
            mem.resize(size, true);
        }
        let kind = BufferKind::Shm {
            offset,
            width: w,
            height: h,
            stride: w * 4,
            format: wl_shm::Format::Xrgb8888 as u32,
        };
        self.buffer(kind, vec![0u8; mem.len.unwrap_or(0)])
    }

    fn buffer(&mut self, kind: BufferKind, pool: Vec<u8>) -> u64 {
        let b = self.id();
        self.buffers.push((b, kind, pool));
        b
    }

    fn pixels(&self, sid: u64) -> Option<PixelBuf> {
        let b = self.state.pending_buffer(sid)?;
        let (_, kind, pool) = self.buffers.iter().find(|x| x.0 == b)?;
        buffer_to_pixels(kind, Some(pool.as_slice()))
    }

    fn commit(&mut self, sid: u64) {
        let content = self.pixels(sid);
        let out = self.state.handle_commit(sid, content, &self.display);
        self.emitted.extend(out);
    }

    fn show(&mut self, sid: u64, buffer: u64) {
        self.state.attach(sid, Some(buffer));
        self.commit(sid);
    }

    fn input(&mut self, ev: InputEvent) -> Vec<Emit> {
        self.state.process_input(ev, 1234)
    }

    fn take(&mut self) -> Vec<Emit> {
        std::mem::take(&mut self.emitted)
    }

    fn cmds(&mut self) -> Vec<WinCmd> {
        cmds_of(self.take())
    }
}

fn cmds_of(out: Vec<Emit>) -> Vec<WinCmd> {
    out.into_iter()
        .filter_map(|e| match e {
            Emit::Post { cmd } => Some(cmd),
            _ => None,
        })
        .collect()
}

fn count(cmds: &[WinCmd], f: impl Fn(&WinCmd) -> bool) -> usize {
    cmds.iter().filter(|c| f(c)).count()
}

#[test]
fn shm_pool_maps_and_resizes() {
    let mut pool = PoolMem::map_pool(4096, true);
    assert_eq!(pool.len, Some(4096), "initial mapping matches create size");
    pool.resize(8192, true);
    assert_eq!(pool.len, Some(8192), "resize remaps to the grown size");
    pool.resize(0, true);
    assert_eq!(pool.len, Some(8192), "resize(0) leaves the mapping intact");
}

#[test]
fn pools_that_cannot_be_mapped() {
    assert_eq!(PoolMem::map_pool(4096, false).len, None);
    assert_eq!(PoolMem::map_pool(-1, true).len, None);
    let mut pool = PoolMem::map_pool(64, true);
    pool.resize(128, false);
    assert_eq!(pool.len, Some(64));
}

#[test]
fn app_display_name_prefers_app_id_then_title() {
    assert_eq!(app_display_name("org.gnome.Console", "Terminal"), "Console");
    assert_eq!(app_display_name("org.mozilla.firefox", "Mozilla Firefox"), "Firefox");
    assert_eq!(app_display_name("kgx", ""), "Kgx");
    assert_eq!(app_display_name("", "My Editor"), "My Editor");
    assert_eq!(app_display_name("", "Wayland Window"), "wayland-macos");
    assert_eq!(app_display_name("", ""), "wayland-macos");
    assert!(!app_display_name("com.foo/bar", "").contains('/'));
    assert_eq!(app_display_name("a/b:c", ""), "A-b-c");
}

#[test]
fn names_are_trimmed_cut_and_never_empty() {
    assert_eq!(app_display_name("org.example.", ""), "org.example.");
    assert_eq!(app_display_name("", "   "), "wayland-macos");
    assert_eq!(app_display_name("", "\u{2003} Notes \t"), "Notes");
    assert_eq!(app_display_name("", &"x".repeat(100)).len(), 64);
    assert_eq!(app_display_name("\u{df}eta", ""), "SSeta", "one character can become two");
    assert_eq!(display_name_with("org.gnome.console", "", "K"), "Konsole");
}

#[test]
fn positioner_anchor_gravity_resolves_popup_origin() {
    let mut p = PositionerState {
        size: (100, 50),
        anchor_rect: (0, 0, 200, 30),
        anchor: 6,
        gravity: 8,
        ..Default::default()
    };
    assert_eq!(p.popup_origin(), (0, 30), "bottom-left/bottom-right -> below the rect");
    p.anchor = 1;
    p.gravity = 1;
    assert_eq!(p.popup_origin(), (50, -50), "top/top -> above the rect");
    p.offset = (5, 7);
    assert_eq!(p.popup_origin(), (55, -43), "offset shifts the origin");
}

#[test]
fn flipped_popups_mirror_the_anchor() {
    let p = PositionerState {
        size: (100, 50),
        anchor_rect: (10, 0, 20, 30),
        anchor: 8,
        gravity: 8,
        ..Default::default()
    };
    assert_eq!(p.popup_origin(), (30, 30));
    assert_eq!((p.origin_x(true), p.origin_y(true)), (-90, -50));
    // Halves are rounded toward zero.
    let odd = PositionerState { anchor_rect: (0, 0, -3, 5), size: (3, 0), ..Default::default() };
    assert_eq!(odd.popup_origin(), (-2, 2));
}

#[test]
fn shm_format_maps_to_pixel_format() {
    assert_eq!(
        shm_pixel_format(wl_shm::Format::Xrgb8888 as u32),
        (PixelFormat::Bgra8888, 4)
    );
    assert_eq!(
        shm_pixel_format(wl_shm::Format::Xrgb2101010 as u32),
        (PixelFormat::Rgb2101010, 4)
    );
    assert_eq!(
        shm_pixel_format(wl_shm::Format::Argb2101010 as u32),
        (PixelFormat::Rgb2101010, 4)
    );
    assert_eq!(
        shm_pixel_format(wl_shm::Format::Abgr16161616f as u32),
        (PixelFormat::Rgba16F, 8)
    );
    assert_eq!(shm_pixel_format(0xDEAD_BEEF), (PixelFormat::Bgra8888, 4));
}

#[test]
fn shm_pool_resize_accepts_buffer_in_grown_region() {
    let mut h = Harness::new();
    let (surface, _tl) = h.make_toplevel();
    let buf = h.shm_buffer(256, Some(8192), 4096, 16, 16);
    h.show(surface, buf);
    let cmds = h.cmds();
    assert_eq!(
        count(&cmds, |c| matches!(c, WinCmd::Create { .. })),
        1,
        "the grown buffer creates the window"
    );
    let frame = cmds
        .iter()
        .find_map(|c| match c {
            WinCmd::Frame { width, height, .. } => Some((*width, *height)),
            _ => None,
        })
        .expect("a Frame was emitted for the grown buffer");
    assert_eq!(frame, (16, 16), "frame carries the buffer's dimensions");
}

#[test]
fn shm_buffer_beyond_pool_size_is_rejected() {
    let mut h = Harness::new();
    let (surface, _tl) = h.make_toplevel();
    let buf = h.shm_buffer(256, None, 0, 32, 32);
    h.show(surface, buf);
    let cmds = h.cmds();
    assert_eq!(
        count(&cmds, |c| matches!(c, WinCmd::Create { .. } | WinCmd::Frame { .. })),
        0,
        "an out-of-bounds buffer produces no window and no frame"
    );
}

#[test]
fn shm_buffer_negative_offset_does_not_crash() {
    let mut h = Harness::new();
    let (surface, _tl) = h.make_toplevel();
    let buf = h.shm_buffer(4096, None, -4, 16, 16);
    h.show(surface, buf);
    let cmds = h.cmds();
    assert_eq!(
        count(&cmds, |c| matches!(c, WinCmd::Create { .. } | WinCmd::Frame { .. })),
        0,
        "a negative-offset buffer is rejected and never presented"
    );
}

#[test]
fn unreadable_buffers_are_released_all_the_same() {
    let mut h = Harness::new();
    let (surface, _tl) = h.make_toplevel();
    h.take();
    let buf = h.shm_buffer(256, None, 0, 32, 32);
    h.show(surface, buf);
    assert_eq!(h.take(), vec![Emit::ReleaseBuffer { buffer: buf }]);
    h.commit(surface);
    assert_eq!(h.take(), vec![], "and only once");
}

#[test]
fn single_pixel_buffer_emits_bgra_frame() {
    let mut h = Harness::new();
    let (surface, _tl) = h.make_toplevel();
    let buf = h.buffer(single_pixel_buffer(u32::MAX, 0, 0, u32::MAX), vec![]);
    h.show(surface, buf);
    let cmds = h.cmds();
    let (w, hgt, pixels) = cmds
        .iter()
        .find_map(|c| match c {
            WinCmd::Frame { width, height, pixels, .. } => Some((*width, *height, pixels.clone())),
            _ => None,
        })
        .expect("a Frame was emitted for the single-pixel buffer");
    assert_eq!((w, hgt), (1, 1), "single-pixel buffer is 1x1");
    assert_eq!(pixels, vec![0, 0, 255, 255], "opaque red as BGRA bytes");
}

#[test]
fn shm_buffer_frame_pixels_snapshot() {
    let mut h = Harness::new();
    let (surface, _tl) = h.make_toplevel();
    let px = |b, g, r| [b, g, r, 0u8];
    let mut bytes = Vec::new();
    bytes.extend_from_slice(&px(0, 0, 255)); // top-left: red
    bytes.extend_from_slice(&px(0, 255, 0)); // top-right: green
    bytes.extend_from_slice(&px(255, 0, 0)); // bottom-left: blue
    bytes.extend_from_slice(&px(255, 255, 255)); // bottom-right: white
    let kind = BufferKind::Shm {
        offset: 0,
        width: 2,
        height: 2,
        stride: 8,
        format: wl_shm::Format::Xrgb8888 as u32,
    };
    let buf = h.buffer(kind, bytes.clone());
    h.show(surface, buf);
    let cmds = h.cmds();
    let (w, hgt, stride, pixels) = cmds
        .iter()
        .find_map(|c| match c {
            WinCmd::Frame { width, height, stride, pixels, .. } => {
                Some((*width, *height, *stride, pixels.clone()))
            }
            _ => None,
        })
        .expect("a Frame was emitted");
    assert_eq!((w, hgt, stride), (2, 2, 8), "Frame carries the buffer geometry");
    assert_eq!(
        pixels, bytes,
        "output pixels match the client's rendered buffer byte-for-byte"
    );
}

#[test]
fn viewport_destination_sets_logical_size() {
    let mut h = Harness::new();
    let (surface, _tl) = h.make_toplevel();
    h.state.set_destination(surface, 1280, 800);
    let buf = h.shm_buffer(64, None, 0, 2, 2);
    h.show(surface, buf);
    let cmds = h.cmds();
    let create = cmds
        .iter()
        .find_map(|c| match c {
            WinCmd::Create { dst_w, dst_h, .. } => Some((*dst_w, *dst_h)),
            _ => None,
        })
        .expect("Create emitted");
    assert_eq!(create, (1280, 800), "Create carries the viewport destination");
    let frame = cmds
        .iter()
        .find_map(|c| match c {
            WinCmd::Frame { dst_w, dst_h, .. } => Some((*dst_w, *dst_h)),
            _ => None,
        })
        .expect("Frame emitted");
    assert_eq!(frame, (1280, 800), "Frame carries the viewport destination");
}

#[test]
fn subsurface_commit_emits_subframe_to_parent() {
    let mut h = Harness::new();
    let (parent, _tl) = h.make_toplevel();
    let parent_window = h.state.window_for_surface(parent).unwrap();
    let child = h.surface();
    let sub = h.id();
    assert_eq!(h.state.get_subsurface(sub, child, parent), vec![]);
    h.state.set_subsurface_position(sub, 10, 20);
    let buf = h.shm_buffer(4096, None, 0, 8, 8);
    h.show(child, buf);
    let cmds = h.cmds();
    let sub = cmds
        .iter()
        .find_map(|c| match c {
            WinCmd::SubFrame { window_id, x, y, width, height, .. } => {
                Some((*window_id, *x, *y, *width, *height))
            }
            _ => None,
        })
        .expect("a SubFrame was emitted");
    assert_eq!(sub.0, parent_window, "SubFrame routes to the parent window");
    assert_eq!((sub.1, sub.2), (10, 20), "SubFrame carries the subsurface offset");
    assert_eq!((sub.3, sub.4), (8, 8), "SubFrame carries the child's size");
}

#[test]
fn nested_subsurfaces_add_their_offsets_up() {
    let mut h = Harness::new();
    let (parent, _tl) = h.make_toplevel();
    let (a, b) = (h.surface(), h.surface());
    let (sa, sb) = (h.id(), h.id());
    h.state.get_subsurface(sa, a, parent);
    h.state.get_subsurface(sb, b, a);
    h.state.set_subsurface_position(sa, 10, 20);
    h.state.set_subsurface_position(sb, 1, -2);
    let window = h.state.window_for_surface(parent).unwrap();
    let (w, x, y, key) = h.state.resolve_subsurface(b).unwrap();
    assert_eq!((w, x, y), (window, 11, 18));
    assert_ne!(key, h.state.resolve_subsurface(a).unwrap().3);
    assert_eq!(h.state.resolve_subsurface(parent), None);
}

#[test]
fn surface_as_its_own_parent_is_refused() {
    let mut h = Harness::new();
    let s = h.surface();
    let sub = h.id();
    assert_eq!(h.state.get_subsurface(sub, s, s), vec![Emit::BadSurface]);
    assert_eq!(h.state.resolve_subsurface(s), None);
}

#[test]
fn subsurface_destroy_emits_subdestroy() {
    let mut h = Harness::new();
    let (parent, _tl) = h.make_toplevel();
    let parent_window = h.state.window_for_surface(parent).unwrap();
    let child = h.surface();
    let sub = h.id();
    h.state.get_subsurface(sub, child, parent);
    let buf = h.shm_buffer(4096, None, 0, 8, 8);
    h.show(child, buf);
    h.take();
    let out = h.state.reap_subsurface(sub);
    let destroyed = cmds_of(out).iter().any(|c| {
        matches!(c, WinCmd::SubDestroy { window_id, .. } if *window_id == parent_window)
    });
    assert!(destroyed, "subsurface destroy emits SubDestroy for the parent");
    assert_eq!(h.state.reap_subsurface(sub), vec![]);
}

#[test]
fn subsurface_cycle_does_not_hang() {
    let mut h = Harness::new();
    let (a, b) = (h.surface(), h.surface());
    let (sub_ab, sub_ba) = (h.id(), h.id());
    h.state.get_subsurface(sub_ab, a, b);
    h.state.get_subsurface(sub_ba, b, a);
    let buf = h.shm_buffer(4096, None, 0, 8, 8);
    h.show(a, buf);
    let cmds = h.cmds();
    assert_eq!(
        count(&cmds, |c| matches!(c, WinCmd::SubFrame { .. })),
        0,
        "a cyclic subsurface resolves to no window and presents nothing"
    );
}

#[derive(Debug, PartialEq)]
enum PtrEv {
    Enter,
    Motion,
    Leave,
    Button,
}

fn pointer_events(out: &[Emit]) -> Vec<PtrEv> {
    out.iter()
        .filter_map(|e| match e {
            Emit::Pointer { event: PointerEvent::Enter { .. }, .. } => Some(PtrEv::Enter),
            Emit::Pointer { event: PointerEvent::Motion { .. }, .. } => Some(PtrEv::Motion),
            Emit::Pointer { event: PointerEvent::Leave { .. }, .. } => Some(PtrEv::Leave),
            Emit::Pointer { event: PointerEvent::Button { .. }, .. } => Some(PtrEv::Button),
            _ => None,
        })
        .collect()
}

#[test]
fn pointer_motion_without_enter_sends_enter_first() {
    let mut h = Harness::new();
    let (surface, _tl) = h.make_toplevel();
    h.state.add_pointer(Device { id: 900, client: CLIENT, version: 5 });
    let window_id = h.state.window_for_surface(surface).unwrap();
    let out = h.input(InputEvent::PointerMotion { window_id, x: 5 * 256, y: 6 * 256 });
    assert_eq!(
        pointer_events(&out),
        vec![PtrEv::Enter, PtrEv::Motion],
        "client receives enter before motion"
    );
    // The motion established the focus: no second enter.
    let out = h.input(InputEvent::PointerMotion { window_id, x: 7 * 256, y: 6 * 256 });
    assert_eq!(pointer_events(&out), vec![PtrEv::Motion]);
}

#[test]
fn pointer_moves_from_window_to_window() {
    let mut h = Harness::new();
    let (a, _) = h.make_toplevel();
    let (b, _) = h.make_toplevel();
    h.state.add_pointer(Device { id: 900, client: CLIENT, version: 5 });
    h.state.add_pointer(Device { id: 901, client: 1, version: 5 });
    let wa = h.state.window_for_surface(a).unwrap();
    let wb = h.state.window_for_surface(b).unwrap();
    h.input(InputEvent::PointerEnter { window_id: wa, x: 0, y: 0 });
    let out = h.input(InputEvent::PointerButton { window_id: wb, button: 0x110, pressed: true });
    assert_eq!(pointer_events(&out), vec![PtrEv::Leave, PtrEv::Enter, PtrEv::Button]);
    assert!(
        out.iter().all(|e| matches!(e, Emit::Pointer { id: 900, .. })),
        "other clients see nothing"
    );
    assert_eq!(h.input(InputEvent::PointerLeave { window_id: wa }), vec![], "a stale leave");
    let out = h.input(InputEvent::PointerLeave { window_id: wb });
    assert_eq!(pointer_events(&out), vec![PtrEv::Leave]);
    assert_eq!(h.input(InputEvent::PointerMotion { window_id: 999, x: 0, y: 0 }), vec![]);
}

#[test]
fn old_pointers_get_no_frame_events() {
    let mut h = Harness::new();
    let (a, _) = h.make_toplevel();
    h.state.add_pointer(Device { id: 900, client: CLIENT, version: 4 });
    h.state.add_pointer(Device { id: 901, client: CLIENT, version: 5 });
    let w = h.state.window_for_surface(a).unwrap();
    h.input(InputEvent::PointerEnter { window_id: w, x: 0, y: 0 });
    let out = h.input(InputEvent::PointerMotion { window_id: w, x: 256, y: 512 });
    let motion = PointerEvent::Motion { time: 1234, x: 256, y: 512 };
    assert_eq!(
        out,
        vec![
            Emit::Pointer { id: 900, event: motion },
            Emit::Pointer { id: 901, event: motion },
            Emit::Pointer { id: 901, event: PointerEvent::Frame },
        ]
    );
    h.state.drop_pointer(901);
    let out = h.input(InputEvent::PointerAxis { dx: 0, dy: -512 });
    assert_eq!(
        out,
        vec![Emit::Pointer {
            id: 900,
            event: PointerEvent::Axis { time: 1234, vertical: true, value: -512 },
        }]
    );
}

#[test]
fn keyboard_focus_is_sent_once() {
    let mut h = Harness::new();
    let (a, _) = h.make_toplevel();
    h.state.add_keyboard(Device { id: 800, client: CLIENT, version: 5 });
    let w = h.state.window_for_surface(a).unwrap();
    assert_eq!(h.input(InputEvent::Key { keycode: 30, pressed: true }), vec![], "no focus yet");
    let out = h.input(InputEvent::Focus { window_id: w, focused: true });
    assert!(matches!(
        out[0],
        Emit::Keyboard { id: 800, event: KeyboardEvent::Enter { surface, .. } } if surface == a
    ));
    assert_eq!(out[1], Emit::AdvertiseClipboard { client: CLIENT });
    assert_eq!(h.input(InputEvent::Focus { window_id: w, focused: true }), vec![]);
    let out = h.input(InputEvent::Key { keycode: 30, pressed: true });
    assert!(matches!(
        out[0],
        Emit::Keyboard { event: KeyboardEvent::Key { keycode: 30, pressed: true, .. }, .. }
    ));
    let out = h.input(InputEvent::Modifiers { depressed: 4, locked: 2 });
    assert!(matches!(
        out[0],
        Emit::Keyboard { event: KeyboardEvent::Modifiers { depressed: 4, locked: 2, .. }, .. }
    ));
    assert_eq!(h.input(InputEvent::Focus { window_id: w + 1, focused: false }), vec![]);
    assert_eq!(h.input(InputEvent::Focus { window_id: w, focused: false }).len(), 1);
    assert_eq!(h.input(InputEvent::Focus { window_id: w, focused: false }), vec![]);
    h.state.drop_keyboard(800);
    assert_eq!(
        h.input(InputEvent::Focus { window_id: w, focused: true }),
        vec![Emit::AdvertiseClipboard { client: CLIENT }]
    );
}

#[test]
fn toplevel_destroy_emits_single_destroy() {
    let mut h = Harness::new();
    let (surface, toplevel) = h.make_toplevel();
    let buf = h.shm_buffer(4096, None, 0, 8, 8);
    h.show(surface, buf);
    h.take();
    // The request, then the object's own end.
    let mut out = h.state.toplevel_request(toplevel, ToplevelRequest::Destroy);
    out.extend(h.state.reap_toplevel(toplevel));
    assert_eq!(
        count(&cmds_of(out), |c| matches!(c, WinCmd::Destroy { .. })),
        1,
        "exactly one Destroy for an explicit toplevel destroy"
    );
}

#[test]
fn client_disconnect_reaps_window() {
    let mut h = Harness::new();
    let (surface, toplevel) = h.make_toplevel();
    let buf = h.shm_buffer(4096, None, 0, 8, 8);
    h.show(surface, buf);
    h.take();
    // All objects of the client end, without a request.
    let mut out = h.state.reap_toplevel(toplevel);
    out.extend(h.state.destroy_surface(surface));
    assert_eq!(
        count(&cmds_of(out), |c| matches!(c, WinCmd::Destroy { .. })),
        1,
        "client disconnect reaps its window exactly once"
    );
}

#[test]
fn destroyed_surface_takes_its_window_along() {
    let mut h = Harness::new();
    let (surface, toplevel) = h.make_toplevel();
    let buf = h.shm_buffer(4096, None, 0, 8, 8);
    h.show(surface, buf);
    h.take();
    let window = h.state.window_for_surface(surface).unwrap();
    let out = h.state.destroy_surface(surface);
    assert_eq!(cmds_of(out), vec![WinCmd::Destroy { id: window }]);
    assert_eq!(h.state.reap_toplevel(toplevel), vec![]);
    assert_eq!(h.state.window_for_surface(surface), None);
}

#[test]
fn set_cursor_surface_emits_set_cursor_image() {
    let mut h = Harness::new();
    let (_surface, _tl) = h.make_toplevel();
    let cursor_surface = h.surface();
    let out = h.state.set_cursor(Some(cursor_surface), (4, 5), None, &h.display);
    assert_eq!(out, vec![]);
    let buf = h.shm_buffer(1024, None, 0, 8, 8);
    h.show(cursor_surface, buf);
    let cmds = h.cmds();
    let img = cmds
        .iter()
        .find_map(|c| match c {
            WinCmd::SetCursorImage { width, height, hotspot_x, hotspot_y, .. } => {
                Some((*width, *height, *hotspot_x, *hotspot_y))
            }
            _ => None,
        })
        .expect("SetCursorImage emitted");
    assert_eq!((img.0, img.1), (8, 8), "cursor image carries the buffer size");
    assert_eq!((img.2, img.3), (4, 5), "cursor image carries the hotspot");
}

#[test]
fn attached_cursor_buffer_is_used_at_once() {
    let mut h = Harness::new();
    set_scale(&mut h.display, 2);
    let cursor = h.surface();
    h.take();
    let buf = h.shm_buffer(1024, None, 0, 8, 8);
    h.state.attach(cursor, Some(buf));
    let content = h.pixels(cursor);
    let out = h.state.set_cursor(Some(cursor), (1, 2), content, &h.display);
    assert!(matches!(
        &out[0],
        Emit::Post { cmd: WinCmd::SetCursorImage { width: 8, scale: 2, hotspot_y: 2, .. } }
    ));
    assert_eq!(out[1], Emit::ReleaseBuffer { buffer: buf });
    h.commit(cursor);
    assert_eq!(h.take(), vec![]);
}

#[test]
fn set_cursor_null_hides_cursor() {
    let mut h = Harness::new();
    let (_surface, _tl) = h.make_toplevel();
    let out = h.state.set_cursor(None, (0, 0), None, &h.display);
    assert!(
        cmds_of(out).iter().any(|c| matches!(c, WinCmd::HideCursor)),
        "null cursor surface hides the cursor"
    );
}

#[test]
fn seat_advertises_pointer_keyboard_and_name() {
    let (caps, name) = announce_seat(5);
    let pointer = wl_seat::Capability::Pointer.bits();
    let keyboard = wl_seat::Capability::Keyboard.bits();
    assert!(caps & pointer != 0, "seat advertises Pointer");
    assert!(caps & keyboard != 0, "seat advertises Keyboard");
    assert_eq!(name, Some("seat0"), "seat advertises its name");
    assert_eq!(announce_seat(1).1, None);
    assert_eq!(repeat_info(4), Some((25, 600)));
    assert_eq!(repeat_info(3), None);
}

#[test]
fn shm_advertises_argb_and_xrgb_formats() {
    let formats = advertised_formats();
    let argb = wl_shm::Format::Argb8888 as u32;
    let xrgb = wl_shm::Format::Xrgb8888 as u32;
    assert!(formats.contains(&argb), "shm advertises Argb8888");
    assert!(formats.contains(&xrgb), "shm advertises Xrgb8888");
}

#[test]
fn resize_asks_client_to_repaint_before_growing_window() {
    let mut h = Harness::new();
    let (surface, tl) = h.make_toplevel();
    let (w0, h0) = (400i32, 300i32);
    let buf0 = h.shm_buffer(w0 * 4 * h0, None, 0, w0, h0);
    h.show(surface, buf0);
    assert!(
        h.cmds().iter().any(|c| {
            matches!(c, WinCmd::Frame { width, height, .. } if *width == w0 && *height == h0)
        }),
        "window maps at the initial buffer size"
    );
    let window_id = h.state.window_for_surface(surface).unwrap();
    let (w1, h1) = (400i32, 600i32);
    let out = h.input(InputEvent::Resize { window_id, width: w1, height: h1 });
    assert!(
        out.iter().any(|e| matches!(
            e,
            Emit::ToplevelConfigure { toplevel, width, height, activated: true, .. }
                if *toplevel == tl && (*width, *height) == (w1, h1)
        )),
        "client received a configure at the doubled size"
    );
    assert_eq!(
        count(&cmds_of(out), |c| matches!(c, WinCmd::Frame { .. } | WinCmd::Create { .. })),
        0,
        "no frame presented until the client repaints"
    );
    let buf1 = h.shm_buffer(w1 * 4 * h1, None, 0, w1, h1);
    h.show(surface, buf1);
    let frame = h
        .cmds()
        .into_iter()
        .find_map(|c| match c {
            WinCmd::Frame { width, height, .. } => Some((width, height)),
            _ => None,
        })
        .expect("a Frame after the client repaints");
    assert_eq!(
        frame,
        (w1, h1),
        "the presented frame follows the client's new taller buffer exactly"
    );
}

#[test]
fn advertises_tier1_and_tier2_globals() {
    let advertised: Vec<&str> = globals().iter().map(|g| g.0).collect();
    for iface in [
        "xdg_activation_v1",
        "wp_fractional_scale_manager_v1",
        "xdg_wm_dialog_v1",
        "zwp_keyboard_shortcuts_inhibit_manager_v1",
        "zwp_primary_selection_device_manager_v1",
    ] {
        assert!(
            advertised.iter().any(|g| *g == iface),
            "{iface} was not advertised; got {advertised:?}"
        );
    }
}

#[test]
fn xdg_activation_activate_emits_activate_cmd() {
    let mut h = Harness::new();
    let (surface, _tl) = h.make_toplevel();
    let window_id = h.state.window_for_surface(surface).unwrap();
    let done = h.state.commit_token(5);
    let token = match done {
        Emit::TokenDone { token: 5, serial } => activation_token(serial),
        other => panic!("expected a token, got {other:?}"),
    };
    assert_eq!(token, "wlmac-2", "the handshake used serial 1");
    let activated = cmds_of(h.state.activate(surface))
        .iter()
        .any(|c| matches!(c, WinCmd::Activate { id } if *id == window_id));
    assert!(activated, "expected WinCmd::Activate for window {window_id}");
    assert_eq!(h.state.activate(9999), vec![]);
    assert_eq!(activation_token(4_294_967_295), "wlmac-4294967295");
    assert_eq!(activation_token(0), "wlmac-0");
}

#[test]
fn advertises_color_management_and_hdr_shm_formats() {
    let advertised: Vec<&str> = globals().iter().map(|g| g.0).collect();
    assert!(
        advertised.iter().any(|g| *g == "wp_color_manager_v1"),
        "wp_color_manager_v1 not advertised; got {advertised:?}"
    );
    let formats = advertised_formats();
    for f in [
        wl_shm::Format::Xrgb2101010 as u32,
        wl_shm::Format::Argb2101010 as u32,
        wl_shm::Format::Abgr16161616f as u32,
    ] {
        assert!(formats.contains(&f), "shm format {f:#x} not advertised");
    }
}

#[test]
fn hdr_image_description_reaches_frame() {
    let mut h = Harness::new();
    let (surface, _tl) = h.make_toplevel();
    let mut colors = ColorManager::new();
    colors.create_creator(1);
    colors.set_param(
        1,
        ParamRequest::SetTfNamed { tf: wp_color_manager_v1::TransferFunction::St2084Pq as u32 },
    );
    colors.set_param(
        1,
        ParamRequest::SetPrimariesNamed {
            primaries: wp_color_manager_v1::Primaries::Bt2020 as u32,
        },
    );
    assert!(colors.create(1, 2), "compositor marked the PQ/BT.2020 description ready");
    h.state.stage_color(surface, colors.desc(2));
    let kind = BufferKind::Shm {
        offset: 0,
        width: 16,
        height: 16,
        stride: 64,
        format: wl_shm::Format::Argb2101010 as u32,
    };
    let buf = h.buffer(kind, vec![0u8; 16 * 16 * 4]);
    h.show(surface, buf);
    let cmds = h.cmds();
    let (format, color) = cmds
        .iter()
        .find_map(|c| match c {
            WinCmd::Frame { format, color, .. } => Some((*format, *color)),
            _ => None,
        })
        .expect("a Frame was emitted for the HDR buffer");
    assert_eq!(
        format,
        PixelFormat::Rgb2101010,
        "the 10-bit buffer is forwarded as a 10-bit frame (not truncated)"
    );
    let color = color.expect("the frame carries a color description");
    assert_eq!(color.tf, TransferFn::Pq, "PQ transfer preserved");
    assert_eq!(color.primaries, Primaries::Bt2020, "BT.2020 primaries preserved");
}

#[test]
fn color_wire_values_are_the_protocols() {
    assert_eq!(map_tf(TransferFunction::St2084Pq as u32), Some(TransferFn::Pq));
    assert_eq!(map_tf(TransferFunction::Hlg as u32), Some(TransferFn::Hlg));
    assert_eq!(map_tf(TransferFunction::Srgb as u32), Some(TransferFn::Srgb));
    assert_eq!(map_tf(TransferFunction::ExtSrgb as u32), Some(TransferFn::Srgb));
    assert_eq!(map_tf(TransferFunction::Gamma22 as u32), None);
    assert_eq!(map_primaries(WpPrimaries::Srgb as u32), Some(Primaries::Srgb));
    assert_eq!(map_primaries(WpPrimaries::DisplayP3 as u32), Some(Primaries::DisplayP3));
    assert_eq!(map_primaries(WpPrimaries::Bt2020 as u32), Some(Primaries::Bt2020));
    assert_eq!(map_primaries(WpPrimaries::AdobeRgb as u32), None);
    let offers = announce_color();
    assert_eq!(offers[0], ColorOffer::Intent { value: RenderIntent::Perceptual as u32 });
    assert_eq!(offers[1], ColorOffer::Feature { value: Feature::Parametric as u32 });
    assert_eq!(offers[2], ColorOffer::Feature { value: Feature::SetLuminances as u32 });
    assert_eq!(
        offers[3],
        ColorOffer::Feature { value: Feature::SetMasteringDisplayPrimaries as u32 }
    );
    assert_eq!(offers.last(), Some(&ColorOffer::Done));
}

#[test]
fn color_descriptions_need_both_parts() {
    let mut colors = ColorManager::new();
    colors.create_creator(1);
    colors.set_param(1, ParamRequest::SetTfNamed { tf: 11 });
    assert!(!colors.create(1, 2), "no primaries");
    assert_eq!(colors.desc(2), None);
    assert!(!colors.create(1, 2), "the creator is used up");
    colors.create_creator(3);
    colors.set_param(3, ParamRequest::SetTfNamed { tf: 13 });
    colors.set_param(3, ParamRequest::SetTfNamed { tf: 2 });
    colors.set_param(3, ParamRequest::SetPrimariesNamed { primaries: 9 });
    colors.set_param(3, ParamRequest::SetMasteringLuminance { max_lum: 1000 });
    assert!(colors.create(3, 4));
    let info = colors.get_information(4).unwrap();
    assert_eq!((info.tf, info.primaries), (13, 9), "an unsupported value changes nothing");
    assert_eq!((info.max_luminance, info.ref_luminance), (None, None), "only one is known");
    colors.create_creator(5);
    colors.set_param(5, ParamRequest::SetTfNamed { tf: 11 });
    colors.set_param(5, ParamRequest::SetPrimariesNamed { primaries: 6 });
    colors.set_param(5, ParamRequest::SetLuminances { max_lum: 10000, reference_lum: 203 });
    assert!(colors.create(5, 6));
    let info = colors.get_information(6).unwrap();
    assert_eq!((info.max_luminance, info.ref_luminance), (Some(10000), Some(203)));
    colors.prefer(7);
    assert_eq!(
        colors.desc(7),
        Some(ColorDesc {
            tf: TransferFn::Srgb,
            primaries: Primaries::Srgb,
            max_luminance: None,
            ref_luminance: None,
        })
    );
    colors.destroy(7);
    assert_eq!(colors.get_information(7), None);
}

#[test]
fn color_waits_for_the_commit() {
    let mut h = Harness::new();
    let (surface, _tl) = h.make_toplevel();
    let pq = ColorDesc {
        tf: TransferFn::Pq,
        primaries: Primaries::Bt2020,
        max_luminance: None,
        ref_luminance: None,
    };
    let frame_color = |h: &mut Harness| {
        let buf = h.shm_buffer(4096, None, 0, 8, 8);
        h.show(surface, buf);
        h.cmds().into_iter().find_map(|c| match c {
            WinCmd::Frame { color, .. } => Some(color),
            _ => None,
        })
    };
    assert_eq!(frame_color(&mut h), Some(None));
    h.state.stage_color(surface, Some(pq));
    assert_eq!(frame_color(&mut h), Some(Some(pq)));
    assert_eq!(frame_color(&mut h), Some(Some(pq)), "it stays");
    h.state.stage_color(surface, None);
    assert_eq!(frame_color(&mut h), Some(None));
}

#[test]
fn first_commit_is_answered_with_a_configure() {
    let mut h = Harness::new();
    let (surface, tl) = h.make_toplevel();
    let out = h.take();
    assert_eq!(out[0], Emit::PreferredScale { surface, scale: 1 });
    assert_eq!(out[1], Emit::WmCapabilities { toplevel: tl });
    assert!(matches!(
        out[2],
        Emit::ToplevelConfigure { width: 0, height: 0, activated: false, .. }
    ));
    assert!(matches!(out[3], Emit::SurfaceConfigure { serial: 1, .. }));
    assert_eq!(out.len(), 4);
    h.commit(surface);
    assert_eq!(h.take(), vec![], "and only the first one");
}

#[test]
fn window_belongs_to_its_clients_application() {
    let mut h = Harness::new();
    let (surface, tl) = h.make_toplevel();
    h.state.toplevel_request(tl, ToplevelRequest::SetAppId { app_id: "org.x.Ed".to_string() });
    let out = h.state.toplevel_request(tl, ToplevelRequest::SetTitle { title: "T".to_string() });
    assert_eq!(out, vec![], "no window yet");
    h.state.toplevel_request(tl, ToplevelRequest::Decorate);
    h.state.set_window_geometry(surface, 1, 2, 6, 5);
    h.take();
    let buf = h.shm_buffer(4096, None, 0, 8, 8);
    h.show(surface, buf);
    let out = h.take();
    let window = h.state.window_for_surface(surface).unwrap();
    assert_eq!(
        out[0],
        Emit::AssignWindow {
            win_id: window,
            app_key: 0,
            app_id: "org.x.Ed".to_string(),
            title: "T".to_string(),
        }
    );
    assert_eq!(
        out[1],
        Emit::Post {
            cmd: WinCmd::Create {
                id: window,
                width: 8,
                height: 8,
                dst_w: 0,
                dst_h: 0,
                decorated: true,
                title: "T".to_string(),
                geom: (1, 2, 6, 5),
            }
        }
    );
    let out = h.state.toplevel_request(tl, ToplevelRequest::SetTitle { title: "U".to_string() });
    assert_eq!(cmds_of(out), vec![WinCmd::Title { id: window, title: "U".to_string() }]);
}

#[test]
fn toplevel_requests_reach_the_window() {
    let mut h = Harness::new();
    let (surface, tl) = h.make_toplevel();
    let id = h.state.window_for_surface(surface).unwrap();
    let mut ask = |h: &mut Harness, r| cmds_of(h.state.toplevel_request(tl, r));
    assert_eq!(ask(&mut h, ToplevelRequest::Move), vec![], "no window to move yet");
    assert_eq!(ask(&mut h, ToplevelRequest::Resize { edges: 8 }), vec![]);
    let buf = h.shm_buffer(4096, None, 0, 8, 8);
    h.show(surface, buf);
    assert_eq!(ask(&mut h, ToplevelRequest::Move), vec![WinCmd::StartMove { id }]);
    assert_eq!(
        ask(&mut h, ToplevelRequest::Resize { edges: 8 }),
        vec![WinCmd::StartResize { id, edges: 8 }]
    );
    assert_eq!(
        ask(&mut h, ToplevelRequest::SetMaximized { on: true }),
        vec![WinCmd::Maximize { id, on: true }]
    );
    assert_eq!(
        ask(&mut h, ToplevelRequest::SetFullscreen { on: true }),
        vec![WinCmd::Fullscreen { id, on: true }]
    );
    let out = h.input(InputEvent::Resize { window_id: id, width: 0, height: -4 });
    assert!(matches!(
        out[0],
        Emit::ToplevelConfigure { width: 1, height: 1, maximized: true, fullscreen: true, .. }
    ));
    assert_eq!(ask(&mut h, ToplevelRequest::SetMinimized), vec![WinCmd::Minimize { id }]);
    assert_eq!(
        ask(&mut h, ToplevelRequest::SetMinSize { width: 3, height: 4 }),
        vec![WinCmd::SetMinSize { id, width: 3, height: 4 }]
    );
    assert_eq!(
        ask(&mut h, ToplevelRequest::SetMaxSize { width: 3, height: 4 }),
        vec![WinCmd::SetMaxSize { id, width: 3, height: 4 }]
    );
    assert_eq!(
        ask(&mut h, ToplevelRequest::SetModal { modal: true }),
        vec![WinCmd::SetModal { id, modal: true }]
    );
    assert_eq!(h.state.toplevel_request(4242, ToplevelRequest::SetMinimized), vec![]);
}

#[test]
fn popups_are_placed_by_their_positioner() {
    let mut h = Harness::new();
    let (parent, _tl) = h.make_toplevel();
    let parent_window = h.state.window_for_surface(parent).unwrap();
    h.state.set_window_geometry(parent, 12, 14, 100, 100);
    h.state.create_positioner(50);
    for req in [
        PositionerRequest::SetSize { width: 40, height: 30 },
        PositionerRequest::SetAnchorRect { x: 0, y: 0, width: 20, height: 10 },
        PositionerRequest::SetAnchor { anchor: 8 },
        PositionerRequest::SetGravity { gravity: 8 },
        PositionerRequest::SetOffset { x: 1, y: 2 },
        PositionerRequest::SetConstraintAdjustment { adjustment: 12 },
    ] {
        h.state.positioner_request(50, req);
    }
    let s = h.surface();
    h.state.set_window_geometry(s, 3, 3, 0, 0);
    h.state.get_popup(60, 61, SurfaceRef { id: s, client: CLIENT }, Some(parent), 50);
    h.take();
    h.commit(s);
    let out = h.take();
    assert_eq!(out[0], Emit::PopupConfigure { popup: 60, x: 21, y: 12, w: 40, h: 30 });
    assert!(matches!(out[1], Emit::SurfaceConfigure { xdg_surface: 61, .. }));
    let popup_window = h.state.window_for_surface(s).unwrap();
    assert_eq!(
        cmds_of(h.state.popup_grab(60)),
        vec![WinCmd::SetGrab { window: Some(popup_window) }]
    );
    let buf = h.shm_buffer(8192, None, 0, 40, 30);
    h.show(s, buf);
    let cmds = h.cmds();
    assert_eq!(
        cmds[0],
        WinCmd::CreatePopup {
            id: popup_window,
            parent_id: parent_window,
            x: 12 + 21 - 3,
            y: 14 + 12 - 3,
            x_flip: 12 - 39 - 3,
            y_flip: 14 - 28 - 3,
            constraint: 12,
            width: 40,
            height: 30,
        }
    );
    let out = h.input(InputEvent::PopupDismiss { window_id: popup_window });
    assert_eq!(out[0], Emit::PopupDone { popup: 60 });
    assert_eq!(out[1], Emit::Post { cmd: WinCmd::SetGrab { window: None } });
    assert_eq!(cmds_of(h.state.reap_popup(60)), vec![WinCmd::Destroy { id: popup_window }]);
    assert_eq!(h.state.reap_popup(60), vec![]);
}

#[test]
fn popup_without_a_size_is_two_hundred_square() {
    let mut h = Harness::new();
    let s = h.surface();
    h.state.get_popup(60, 61, SurfaceRef { id: s, client: CLIENT }, None, 999);
    h.take();
    h.commit(s);
    assert_eq!(
        h.take()[0],
        Emit::PopupConfigure { popup: 60, x: -100, y: -100, w: 200, h: 200 }
    );
}

#[test]
fn unmapped_popup_still_reports_its_end() {
    let mut h = Harness::new();
    let s = h.surface();
    h.state.get_popup(60, 61, SurfaceRef { id: s, client: CLIENT }, None, 0);
    let w = h.state.window_for_surface(s).unwrap();
    assert_eq!(cmds_of(h.state.reap_popup(60)), vec![WinCmd::Destroy { id: w }]);
}

#[test]
fn bars_reserve_their_zones() {
    let mut h = Harness::new();
    set_scale(&mut h.display, 2);
    set_output_size(&mut h.display, 2000, 1001);
    let (a, b) = (h.surface(), h.surface());
    h.state.get_layer_surface(70, SurfaceRef { id: a, client: CLIENT });
    h.state.get_layer_surface(71, SurfaceRef { id: b, client: 5 });
    h.take();
    assert_eq!(h.state.layer_request(70, LayerRequest::SetSize { width: 0, height: 30 }), vec![]);
    h.state.layer_request(70, LayerRequest::SetAnchor { anchor: 1 | 4 | 8 });
    let insets = |top, right, bottom, left| vec![Emit::SetInsets { top, right, bottom, left }];
    assert_eq!(
        h.state.layer_request(70, LayerRequest::SetExclusiveZone { zone: 30 }),
        insets(30, 0, 0, 0)
    );
    h.state.layer_request(71, LayerRequest::SetAnchor { anchor: 1 });
    assert_eq!(
        h.state.layer_request(71, LayerRequest::SetExclusiveZone { zone: 45 }),
        insets(45, 0, 0, 0),
        "the larger zone counts"
    );
    assert_eq!(
        h.state.layer_request(71, LayerRequest::SetAnchor { anchor: 8 }),
        insets(30, 45, 0, 0)
    );
    h.commit(a);
    assert!(matches!(
        h.take()[0],
        Emit::LayerConfigure { layer: 70, width: 1000, height: 30, .. }
    ));
    assert_eq!(h.state.reap_layer_surface(70), insets(0, 45, 0, 0));
    assert_eq!(h.state.reap_layer_surface(70), insets(0, 45, 0, 0), "again changes nothing");
}

#[test]
fn launcher_gets_the_keyboard_when_it_maps() {
    let mut h = Harness::new();
    let s = h.surface();
    h.state.add_keyboard(Device { id: 800, client: CLIENT, version: 5 });
    h.state.get_layer_surface(70, SurfaceRef { id: s, client: CLIENT });
    h.state.layer_request(70, LayerRequest::SetKeyboardInteractivity { mode: 1 });
    h.state.layer_request(
        70,
        LayerRequest::SetMargin { top: 1, right: 2, bottom: 3, left: 4 },
    );
    h.commit(s);
    h.take();
    let buf = h.shm_buffer(4096, None, 0, 8, 8);
    h.show(s, buf);
    let out = h.take();
    assert!(matches!(out[0], Emit::AssignBar { app_key: 0, .. }));
    assert!(matches!(
        out[1],
        Emit::Post {
            cmd: WinCmd::CreateLayer { keyboard: true, margin_top: 1, margin_left: 4, .. }
        }
    ));
    assert!(matches!(
        out[2],
        Emit::Keyboard { id: 800, event: KeyboardEvent::Enter { .. } }
    ));
    assert!(matches!(out[3], Emit::Post { cmd: WinCmd::Frame { dst_w: 0, .. } }));
    assert_eq!(out.len(), 5);
    let out = h.state.reap_layer_surface(70);
    assert!(matches!(out[0], Emit::Post { cmd: WinCmd::Destroy { .. } }));
    assert_eq!(h.input(InputEvent::Key { keycode: 1, pressed: true }), vec![]);
}

#[test]
fn icons_wait_for_their_window() {
    let icon = |n: u8, w: i32, h: i32, format| PixelBuf {
        width: w,
        height: h,
        stride: w * 4,
        format,
        bytes: vec![n],
    };
    assert_eq!(pick_icon(vec![]), None);
    let best = pick_icon(vec![
        icon(1, 16, 16, PixelFormat::Bgra8888),
        icon(2, 64, 64, PixelFormat::Bgra8888),
        icon(3, 256, 256, PixelFormat::Rgba16F),
        icon(4, 64, 64, PixelFormat::Bgra8888),
    ])
    .unwrap();
    assert_eq!(best.bytes, vec![4], "the last of the largest plain ones");
    let mut h = Harness::new();
    let (surface, tl) = h.make_toplevel();
    let id = h.state.window_for_surface(surface).unwrap();
    assert_eq!(h.state.set_icon(tl, best), vec![]);
    let buf = h.shm_buffer(4096, None, 0, 8, 8);
    h.take();
    h.show(surface, buf);
    assert!(matches!(
        &h.cmds()[1],
        WinCmd::SetIcon { id: i, width: 64, pixels, .. } if *i == id && *pixels == vec![4]
    ));
    let out = h.state.set_icon(tl, icon(9, 8, 8, PixelFormat::Bgra8888));
    assert!(matches!(&cmds_of(out)[0], WinCmd::SetIcon { width: 8, .. }));
    assert_eq!(icon_sizes(), vec![64, 128, 256]);
}

#[test]
fn reset_icon_is_forgotten() {
    let mut h = Harness::new();
    let (surface, tl) = h.make_toplevel();
    let icon =
        PixelBuf { width: 1, height: 1, stride: 4, format: PixelFormat::Bgra8888, bytes: vec![1] };
    h.state.set_icon(tl, icon);
    h.state.reset_icon(tl);
    let buf = h.shm_buffer(4096, None, 0, 8, 8);
    h.show(surface, buf);
    assert_eq!(count(&h.cmds(), |c| matches!(c, WinCmd::SetIcon { .. })), 0);
}

#[test]
fn ticks_answer_callbacks_and_feedback_once() {
    let mut h = Harness::new();
    let (a, b) = (h.surface(), h.surface());
    h.state.frame(a, 1);
    h.state.frame(b, 2);
    h.state.frame(9999, 3);
    h.state.feedback(4);
    h.state.destroy_surface(b);
    let out = h.state.vblank_tick(16, 0x1_0000_0002, 7);
    assert_eq!(
        out,
        vec![
            Emit::FrameDone { callback: 1, time: 16 },
            Emit::Presented { feedback: 4, sec_hi: 1, sec_lo: 2, nsec: 7, refresh: 16_666_667 },
        ]
    );
    assert_eq!(h.state.vblank_tick(32, 1, 1), vec![]);
}

#[test]
fn outputs_are_announced_by_version() {
    let mut d = Display::new();
    set_scale(&mut d, 2);
    set_output_size(&mut d, 3001, 2000);
    let v1 = announce_output(1, &d);
    assert_eq!(v1.len(), 2);
    assert_eq!(v1[1], OutputEvent::Mode { width: 3001, height: 2000, refresh: 60_000 });
    let v4 = announce_output(4, &d);
    assert_eq!(v4[2], OutputEvent::Scale { factor: 2 });
    assert_eq!(v4[3], OutputEvent::Name { name: "WL-1" });
    assert_eq!(v4.last(), Some(&OutputEvent::Done));
    let x2 = announce_xdg_output(2, 4, &d);
    assert_eq!(x2[1], OutputEvent::LogicalSize { width: 1500, height: 1000 });
    assert_eq!(x2.last(), Some(&OutputEvent::Done));
    assert_eq!(announce_xdg_output(3, 4, &d).last(), Some(&OutputEvent::OutputDone));
    assert!(matches!(
        announce_xdg_output(3, 1, &d).last(),
        Some(OutputEvent::Description { .. })
    ));
    assert_eq!(fractional_scale(&d), 240);
}

#[test]
fn toplevel_words() {
    assert_eq!(toplevel_states(true, true, true), vec![4, 1, 2]);
    assert_eq!(toplevel_states(false, false, false), Vec::<u32>::new());
    assert_eq!(wm_capabilities(), vec![1, 2, 3, 4]);
}

#[test]
fn different_clients_are_different_applications() {
    let mut h = Harness::new();
    let mut keys = Vec::new();
    for client in [10u64, 20, 10] {
        let s = h.surface();
        let (xdg, tl) = (h.id(), h.id());
        h.state.get_toplevel(tl, xdg, SurfaceRef { id: s, client }, 4);
        h.commit(s);
        let buf = h.shm_buffer(4096, None, 0, 8, 8);
        h.show(s, buf);
        for e in h.take() {
            if let Emit::AssignWindow { app_key, .. } = e {
                keys.push(app_key);
            }
        }
    }
    assert_eq!(keys, vec![0, 1, 0]);
}
