//! Geometry, pixels and keys of the windowing side.

use wayland_macos::cmd::{ColorDesc, PixelFormat, Primaries, TransferFn};
use wayland_macos::demo::{draw, draw_hdr, make_solid_buffer};
use wayland_macos::geometry::{
    apply_reserved_insets, constrain_axis, constrain_frame_rect, csd_margin, layer_origin,
    logical_size, place_in_work_area, popup_place, screen_union_size, subsurface_origin, Area,
    HalfPoint, Point, UNIT,
};
use wayland_macos::keys::{
    btn_code, macos_keyboard_layout, macos_to_evdev, map_cursor, modifier_masks, NativeCursor,
    PasteboardState,
};
use wayland_macos::pixels::{
    bytes_per_pixel, cg_space_for, expand_2101010_to_rgba16, make_cgimage, CgSpace, Packing,
};

/// Points as screen units.
fn pt(v: f64) -> i64 {
    (v * UNIT as f64) as i64
}

#[test]
fn constrain_axis_flips_and_slides() {
    // Fits already: no change (flipped candidate ignored).
    assert_eq!(
        constrain_axis(pt(100.0), pt(700.0), pt(300.0), pt(0.0), pt(1000.0), true),
        pt(100.0)
    );
    // Runs off the right edge; the flipped candidate is fully on-screen.
    assert_eq!(
        constrain_axis(pt(850.0), pt(550.0), pt(300.0), pt(0.0), pt(1000.0), true),
        pt(550.0)
    );
    // Same overflow but flip not allowed: pin the far edge.
    assert_eq!(
        constrain_axis(pt(850.0), pt(550.0), pt(300.0), pt(0.0), pt(1000.0), false),
        pt(700.0)
    );
    // The flipped candidate is also off-screen: slide the requested side in.
    assert_eq!(
        constrain_axis(pt(500.0), pt(-100.0), pt(600.0), pt(0.0), pt(1000.0), true),
        pt(400.0)
    );
    // Larger than the work area: pin to the near edge.
    assert_eq!(
        constrain_axis(pt(-50.0), pt(-50.0), pt(1200.0), pt(0.0), pt(1000.0), false),
        pt(0.0)
    );
}

fn desc(tf: TransferFn, primaries: Primaries) -> ColorDesc {
    ColorDesc { tf, primaries, max_luminance: None, ref_luminance: None }
}

#[test]
fn make_cgimage_builds_every_supported_format() {
    let buf4 = vec![0u8; 16 * 16 * 4];
    assert!(
        make_cgimage(16, 16, 16 * 4, &buf4, PixelFormat::Bgra8888, None).is_some(),
        "SDR BGRA8888"
    );
    assert!(
        make_cgimage(
            16,
            16,
            16 * 4,
            &buf4,
            PixelFormat::Bgra8888,
            Some(desc(TransferFn::Srgb, Primaries::DisplayP3))
        )
        .is_some(),
        "Display-P3 8-bit"
    );
    assert!(
        make_cgimage(
            16,
            16,
            16 * 4,
            &buf4,
            PixelFormat::Rgb2101010,
            Some(desc(TransferFn::Pq, Primaries::Bt2020))
        )
        .is_some(),
        "10-bit PQ"
    );
    let buf8 = vec![0u8; 16 * 16 * 8];
    assert!(
        make_cgimage(
            16,
            16,
            16 * 8,
            &buf8,
            PixelFormat::Rgba16F,
            Some(desc(TransferFn::Srgb, Primaries::Bt2020))
        )
        .is_some(),
        "float16 linear BT.2020"
    );
}

#[test]
fn cg_space_maps_transfer_and_primaries() {
    assert_eq!(cg_space_for(PixelFormat::Bgra8888, None), CgSpace::DeviceRgb);
    assert_eq!(
        cg_space_for(PixelFormat::Rgb2101010, Some(desc(TransferFn::Pq, Primaries::Bt2020))),
        CgSpace::Pq2100
    );
    assert_eq!(
        cg_space_for(PixelFormat::Rgb2101010, Some(desc(TransferFn::Hlg, Primaries::Bt2020))),
        CgSpace::Hlg2100
    );
    assert_eq!(
        cg_space_for(PixelFormat::Bgra8888, Some(desc(TransferFn::Srgb, Primaries::DisplayP3))),
        CgSpace::DisplayP3
    );
    assert_eq!(
        cg_space_for(PixelFormat::Rgba16F, Some(desc(TransferFn::Srgb, Primaries::Bt2020))),
        CgSpace::ExtLinear2020
    );
    assert_eq!(cg_space_for(PixelFormat::Rgba16F, None), CgSpace::ExtLinearP3);
}

#[test]
fn bytes_per_pixel_per_format() {
    assert_eq!(bytes_per_pixel(PixelFormat::Bgra8888), 4);
    assert_eq!(bytes_per_pixel(PixelFormat::Rgb2101010), 4);
    assert_eq!(bytes_per_pixel(PixelFormat::Rgba16F), 8);
}

#[test]
fn logical_size_prefers_viewport_then_scales_buffer() {
    assert_eq!(logical_size(2, 2, 1280, 800, 2), (1280, 800));
    assert_eq!(logical_size(800, 600, 0, 0, 2), (400, 300));
}

#[test]
fn csd_margin_is_buffer_minus_geometry() {
    assert_eq!(csd_margin(420, 320, 0, 0, (10, 10, 400, 300), 1), (20, 20));
    assert_eq!(csd_margin(420, 320, 1280, 800, (10, 10, 400, 300), 1), (0, 0));
}

#[test]
fn subsurface_full_output_covers_resized_window() {
    let win_h = pt(600.0);
    let (ox, oy) = subsurface_origin(win_h, 0, 0, pt(600.0));
    assert_eq!((ox, oy), (pt(0.0), pt(0.0)), "full-output subsurface sits at the origin");
    assert!(
        oy <= pt(0.0) && oy + pt(600.0) >= win_h,
        "the subsurface covers the full window height (no black gap)"
    );
    let (_, oy_stale) = subsurface_origin(pt(300.0), 0, 0, pt(600.0));
    assert!(
        oy_stale + pt(600.0) < win_h,
        "a stale height leaves an uncovered (black) region at the top"
    );
}

#[test]
fn sizes_never_go_below_one_point() {
    assert_eq!(logical_size(1, -5, 0, 7, 2), (1, 1));
    assert_eq!(csd_margin(300, 300, 0, 0, (0, 0, 400, 400), 1), (0, 0));
    assert_eq!(csd_margin(300, 300, 0, 0, (0, 0, 0, 100), 1), (0, 0));
}

#[test]
fn images_with_short_rows_or_missing_bytes_are_refused() {
    let buf = vec![7u8; 64];
    assert!(make_cgimage(4, 4, 16, &buf, PixelFormat::Bgra8888, None).is_some());
    assert!(make_cgimage(4, 4, 15, &buf, PixelFormat::Bgra8888, None).is_none());
    assert!(make_cgimage(4, 5, 16, &buf, PixelFormat::Bgra8888, None).is_none());
    assert!(make_cgimage(0, 4, 16, &buf, PixelFormat::Bgra8888, None).is_none());
    assert!(make_cgimage(4, -1, 16, &buf, PixelFormat::Bgra8888, None).is_none());
    assert!(make_cgimage(i32::MAX, 1, i32::MAX, &buf, PixelFormat::Bgra8888, None).is_none());
}

#[test]
fn image_plans_say_how_bytes_are_read() {
    let buf: Vec<u8> = (0..72).collect();
    let sdr = make_cgimage(4, 4, 16, &buf, PixelFormat::Bgra8888, None).unwrap();
    assert!(sdr.bitmap_context);
    assert_eq!(sdr.packing, Packing::Argb8);
    assert_eq!((sdr.bits_per_component, sdr.bits_per_pixel, sdr.row_stride), (8, 32, 16));
    assert_eq!(sdr.data, buf[..64].to_vec());
    let ten = make_cgimage(4, 4, 16, &buf, PixelFormat::Rgb2101010, None).unwrap();
    assert_eq!(ten.packing, Packing::Rgbx16);
    assert_eq!((ten.bits_per_component, ten.bits_per_pixel, ten.row_stride), (16, 64, 32));
    assert_eq!(ten.data.len(), 128);
    assert!(!ten.bitmap_context);
}

#[test]
fn ten_bit_pixels_fill_sixteen_bits() {
    // One pixel of full red, half green, no blue.
    let word: u32 = (3 << 30) | (1023 << 20) | (512 << 10);
    let out = expand_2101010_to_rgba16(1, 1, 4, &word.to_le_bytes());
    let chan = |i: usize| u16::from_le_bytes([out[i], out[i + 1]]);
    assert_eq!(chan(0), 0xffff);
    assert_eq!(chan(2), (512 << 6) | (512 >> 4));
    assert_eq!(chan(4), 0);
    assert_eq!(chan(6), 0xffff);
}

#[test]
fn ten_bit_rows_skip_their_padding() {
    let mut buf = vec![0u8; 24];
    buf[12..16].copy_from_slice(&(1023u32 << 20).to_le_bytes());
    let out = expand_2101010_to_rgba16(2, 2, 12, &buf[..20]);
    assert_eq!(out.len(), 32);
    assert_eq!(&out[16..18], &[255, 255], "third pixel is the first of row two");
    assert_eq!(&out[0..2], &[0, 0]);
}

#[test]
fn insets_trim_the_work_area() {
    let screen = Area { x: 0, y: 0, w: pt(1000.0), h: pt(800.0) };
    assert_eq!(
        apply_reserved_insets(screen, (30, 10, 20, 5)),
        Area { x: pt(5.0), y: pt(20.0), w: pt(985.0), h: pt(750.0) }
    );
    assert_eq!(apply_reserved_insets(screen, (900, 0, 0, 0)).h, pt(1.0));
}

#[test]
fn new_windows_are_centered_below_the_bar() {
    let work = Area { x: pt(0.0), y: pt(0.0), w: pt(1000.0), h: pt(800.0) };
    assert_eq!(
        place_in_work_area(work, pt(400.0), pt(300.0)),
        HalfPoint { x2: pt(600.0), y2: pt(500.0) }
    );
    // Too tall: the top edge stays inside.
    assert_eq!(place_in_work_area(work, pt(400.0), pt(900.0)).y2, pt(-200.0));
    // Too wide: at the left edge.
    assert_eq!(place_in_work_area(work, pt(1200.0), pt(300.0)).x2, 0);
    // The middle of an odd rest is exact.
    let odd = Area { x: 3, y: 5, w: 8, h: 10 };
    assert_eq!(place_in_work_area(odd, 1, 3), HalfPoint { x2: 13, y2: 17 });
}

#[test]
fn frames_stay_out_of_reserved_zones() {
    let visible = Some(Area { x: 0, y: 0, w: pt(1000.0), h: pt(800.0) });
    let wanted = Area { x: pt(-50.0), y: pt(600.0), w: pt(300.0), h: pt(200.0) };
    let moved = constrain_frame_rect(false, wanted, wanted, (40, 0, 0, 0), visible);
    assert_eq!((moved.x, moved.y), (pt(0.0), pt(560.0)));
    assert_eq!(constrain_frame_rect(true, wanted, moved, (40, 0, 0, 0), visible), wanted);
    assert_eq!(constrain_frame_rect(false, wanted, wanted, (0, 0, 0, 0), visible), wanted);
    assert_eq!(constrain_frame_rect(false, wanted, wanted, (40, 0, 0, 0), None), wanted);
}

#[test]
fn bars_dock_at_their_edge() {
    let screen = Area { x: 0, y: 0, w: pt(1000.0), h: pt(800.0) };
    // Top (1), with a margin of 4.
    assert_eq!(
        layer_origin(screen, pt(1000.0), pt(30.0), 1, (4, 0, 0, 0)),
        HalfPoint { x2: pt(0.0), y2: pt(1532.0) }
    );
    // Bottom (2) and right (8).
    assert_eq!(
        layer_origin(screen, pt(100.0), pt(30.0), 10, (0, 7, 3, 0)),
        HalfPoint { x2: pt(1786.0), y2: pt(6.0) }
    );
    // Nothing: centered.
    assert_eq!(
        layer_origin(screen, pt(100.0), pt(100.0), 0, (0, 0, 0, 0)),
        HalfPoint { x2: pt(900.0), y2: pt(700.0) }
    );
    // The middle of an odd rest is exact, also where the bar is longer than the screen.
    let odd = Area { x: 0, y: 0, w: 8, h: 10 };
    assert_eq!(layer_origin(odd, 11, 5, 0, (0, 0, 0, 0)), HalfPoint { x2: -3, y2: 5 });
}

#[test]
fn popups_hang_below_their_parent_and_stay_on_screen() {
    let parent = Some(Area { x: pt(700.0), y: pt(100.0), w: pt(200.0), h: pt(200.0) });
    let visible = Some(Area { x: 0, y: 0, w: pt(1000.0), h: pt(800.0) });
    assert_eq!(
        popup_place(parent, visible, (10, 20), (10, 20), 0, pt(50.0), pt(60.0)),
        Point { x: pt(710.0), y: pt(220.0) }
    );
    // Off the right edge: flips where allowed (4), else slides.
    assert_eq!(
        popup_place(parent, visible, (200, 20), (-100, 20), 4, pt(150.0), pt(60.0)).x,
        pt(600.0)
    );
    assert_eq!(
        popup_place(parent, visible, (200, 20), (-100, 20), 0, pt(150.0), pt(60.0)).x,
        pt(850.0)
    );
    assert_eq!(
        popup_place(None, None, (1, 2), (3, 4), 0, pt(50.0), pt(60.0)),
        Point { x: pt(200.0), y: pt(200.0) }
    );
}

#[test]
fn union_of_screens_spans_all_of_them() {
    let screens = vec![
        Area { x: 0, y: 0, w: pt(1000.0), h: pt(800.0) },
        Area { x: pt(-500.0), y: pt(100.0), w: pt(500.0), h: pt(900.0) },
    ];
    assert_eq!(screen_union_size(&screens), Some((pt(1500.0), pt(1000.0))));
    assert_eq!(screen_union_size(&vec![]), None);
}

#[test]
fn keys_buttons_and_modifiers() {
    assert_eq!(macos_to_evdev(0x00), Some(30));
    assert_eq!(macos_to_evdev(0x35), Some(1));
    assert_eq!(macos_to_evdev(0x7E), Some(103));
    assert_eq!(macos_to_evdev(0x0A), None);
    assert_eq!(btn_code(0), 0x110);
    assert_eq!(btn_code(2), 0x112);
    assert_eq!(btn_code(5), 0x115);
    assert_eq!(modifier_masks(true, true, true, true, true), (77, 2));
    assert_eq!(modifier_masks(false, true, false, false, false), (4, 0));
}

#[test]
fn cursor_shapes_map_to_native_cursors() {
    assert_eq!(map_cursor(1), NativeCursor::Arrow);
    assert_eq!(map_cursor(4), NativeCursor::PointingHand);
    assert_eq!(map_cursor(10), NativeCursor::IBeam);
    assert_eq!(map_cursor(30), NativeCursor::ResizeLeftRight);
    assert_eq!(map_cursor(31), NativeCursor::ResizeUpDown);
    assert_eq!(map_cursor(999), NativeCursor::Arrow);
}

#[test]
fn keyboard_layouts_follow_the_input_source() {
    assert_eq!(macos_keyboard_layout("com.apple.keylayout.German"), Some("de"));
    assert_eq!(macos_keyboard_layout("com.apple.keylayout.USInternational-PC"), Some("us"));
    assert_eq!(macos_keyboard_layout("com.apple.keylayout.ABC"), Some("us"));
    assert_eq!(macos_keyboard_layout("com.apple.keylayout.ABC-QWERTZ"), None);
    assert_eq!(macos_keyboard_layout("SwissFrench"), Some("ch"));
    assert_eq!(macos_keyboard_layout("com.apple.keylayout.Swedish-Pro"), Some("se"));
    assert_eq!(macos_keyboard_layout("German.Klingon"), None);
    assert_eq!(macos_keyboard_layout(""), None);
}

#[test]
fn pasteboard_reports_foreign_changes_once() {
    let mut s = PasteboardState::new();
    assert!(s.clipboard_tick(5), "what is there at the start is reported");
    assert!(!s.clipboard_tick(5));
    s.wrote(6);
    assert!(!s.clipboard_tick(6), "own write is not bounced back");
    assert!(s.clipboard_tick(7));
}

#[test]
fn demo_frames() {
    let sdr = draw();
    assert_eq!(sdr.len(), 400 * 300 * 4);
    assert_eq!(&sdr[0..4], &[255, 255, 255, 255]);
    let at = |x: usize, y: usize| (y * 400 + x) * 4;
    assert_eq!(&sdr[at(200, 150)..at(200, 150) + 4], &[127, 127, 128, 255]);
    let hdr = draw_hdr();
    let word = |i: usize| u32::from_le_bytes([hdr[i], hdr[i + 1], hdr[i + 2], hdr[i + 3]]);
    assert_eq!(word(at(0, 0)), (3 << 30) | (520 << 20) | (520 << 10) | 520);
    assert_eq!(word(at(399, 10)), 0xffff_ffff);
    assert_eq!(word(at(100, 100)), {
        let c = 100 * 1023 / 399;
        (3 << 30) | (c << 20) | (c << 10) | c
    });
    assert_eq!(make_solid_buffer(2, [1, 2, 3, 4]), vec![1, 2, 3, 4, 1, 2, 3, 4]);
}

#[test]
fn hdr_is_pq_or_hlg() {
    assert!(desc(TransferFn::Pq, Primaries::Srgb).is_hdr());
    assert!(desc(TransferFn::Hlg, Primaries::Srgb).is_hdr());
    assert!(!desc(TransferFn::Srgb, Primaries::Bt2020).is_hdr());
}
