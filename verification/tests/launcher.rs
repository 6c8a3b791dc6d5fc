//! Command line, instance files, announcements; and the remote back-end's settings.

use wayland_macos::cli::{
    command, core_build_args, discover_socket, is_executable, keymap_layout, parse_port, pid_in,
    port_of_pidfile, profile_of, socat_args, socat_pattern, stop, stop_order, up, waypipe_args,
    window_host_arg, Command, HostArg, Instance, Socket, StopPlan,
};
use wayland_macos::cmd::{PixelFormat, WinCmd};
use wayland_macos::idmap::IdMap;
use wayland_macos::input::{set_output_size, set_scale, Display, InputEvent};
use wayland_macos::rail::{
    button_flag, desktop_size, on_cursor, on_cursor_default, on_window_icon, pick_scale, rail_app,
    rail_display_name, rail_host, rail_monitor, rail_port, Bitmap, Monitor, RailMonitor, RailOut,
    RailSend, RailSession,
};
use wayland_macos::text::{decimal, parse_i32, strip_suffix, trim};
use wayland_macos::timing::{
    accept_step, poll_timeout, tick_due, wait_until, AcceptStep, Accepted, WaitStep,
};

fn args(v: &[&str]) -> Vec<String> {
    v.iter().map(|s| s.to_string()).collect()
}

#[test]
fn files_carry_the_port() {
    let i = Instance::new("7778".to_string());
    assert_eq!(i.client_sock(), "/tmp/wlmac-7778-waypipe-client.sock");
    assert_eq!(i.comp_log(), "/tmp/wlmac-7778-compositor.log");
    assert_eq!(i.waypipe_log(), "/tmp/wlmac-7778-waypipe.log");
    assert_eq!(i.socat_log(), "/tmp/wlmac-7778-socat.log");
    assert_eq!(i.pidfile("socat"), "/tmp/wlmac-7778-socat.pid");
}

#[test]
fn commands_and_options() {
    assert_eq!(command(&args(&[])), Command::Up { flags_from: 0 });
    assert_eq!(command(&args(&["up", "-d"])), Command::Up { flags_from: 1 });
    assert_eq!(command(&args(&["stop"])), Command::Stop { flags_from: 1 });
    assert_eq!(command(&args(&["--help"])), Command::Help);
    assert_eq!(command(&args(&["-h"])), Command::Help);
    assert_eq!(command(&args(&["--multiplex"])), Command::Up { flags_from: 0 });
    let o = up(&args(&["--multiplex", "-d"]), None);
    assert!(o.detach && o.multiplex);
    let o = up(&args(&["x"]), Some("1"));
    assert!(!o.detach && o.multiplex);
    assert!(!up(&args(&[]), Some("0")).multiplex);
}

#[test]
fn ports_come_from_flags_then_environment() {
    assert_eq!(parse_port(&args(&["--port=1", "--port", "2"]), Some("9")), "1");
    assert_eq!(parse_port(&args(&["-d", "-p", "3"]), None), "3");
    assert_eq!(parse_port(&args(&["--port", "--port=4"]), None), "--port=4");
    assert_eq!(parse_port(&args(&["--port"]), Some("9")), "9");
    assert_eq!(parse_port(&args(&[]), None), "7777");
    assert!(matches!(stop(&args(&["--all"]), None), StopPlan::All));
    match stop(&args(&["-p", "5"]), None) {
        StopPlan::One { instance } => assert_eq!(instance.port, "5"),
        other => panic!("expected one instance, got {other:?}"),
    }
    assert_eq!(stop_order(), vec!["socat", "waypipe", "compositor"]);
}

#[test]
fn announcements_are_read_from_the_log() {
    let log = "noise\n  export XDG_RUNTIME_DIR=/tmp/a\r\nexport WAYLAND_DISPLAY=wayland-1 \n\
               x export WAYLAND_DISPLAY=wayland-2\n";
    let s = discover_socket(log, Socket::unknown());
    assert_eq!((s.runtime.as_str(), s.display.as_str()), ("/tmp/a", "wayland-2"));
    assert!(s.is_known());
    let s = discover_socket("nothing here", s);
    assert_eq!(s.display, "wayland-2", "what was known stays");
    let s = discover_socket("export WAYLAND_DISPLAY=w", Socket::unknown());
    assert!(!s.is_known());
    let twice = "export XDG_RUNTIME_DIR=a export XDG_RUNTIME_DIR=b";
    assert_eq!(
        discover_socket(twice, Socket::unknown()).runtime,
        "a export XDG_RUNTIME_DIR=b",
        "the first key of a line counts"
    );
}

#[test]
fn pid_files() {
    assert_eq!(pid_in(" 123\n"), Some(123));
    assert_eq!(pid_in("12x"), None);
    assert_eq!(pid_in(""), None);
    assert_eq!(port_of_pidfile("wlmac-7777-compositor.pid"), Some("7777"));
    assert_eq!(port_of_pidfile("wlmac--compositor.pid"), Some(""));
    assert_eq!(port_of_pidfile("wlmac-7777-socat.pid"), None);
    assert_eq!(port_of_pidfile("xwlmac-7777-compositor.pid"), None);
}

#[test]
fn children_get_their_arguments() {
    let i = Instance::new("80".to_string());
    assert_eq!(
        waypipe_args(&i, None),
        args(&["-c", "lz4", "--no-gpu", "-s", "/tmp/wlmac-80-waypipe-client.sock", "client"])
    );
    assert_eq!(waypipe_args(&i, Some("zstd"))[1], "zstd");
    assert_eq!(
        socat_args(&i),
        args(&[
            "TCP-LISTEN:80,reuseaddr,fork,nodelay",
            "UNIX-CONNECT:/tmp/wlmac-80-waypipe-client.sock"
        ])
    );
    assert_eq!(socat_pattern(&i), "socat TCP-LISTEN:80");
    assert_eq!(profile_of(Some("release")), "release");
    assert_eq!(profile_of(Some("deps")), "debug");
    assert_eq!(profile_of(None), "debug");
    assert_eq!(
        core_build_args(true, true),
        vec![
            "build",
            "--quiet",
            "--bin",
            "wayland-macos-core",
            "--release",
            "--features",
            "rail"
        ]
    );
    assert_eq!(core_build_args(false, false).len(), 4);
    assert!(is_executable(true, 0o100755));
    assert!(!is_executable(true, 0o100644));
    assert!(!is_executable(false, 0o755));
}

#[test]
fn layouts_and_host_arguments() {
    assert_eq!(keymap_layout(Some("de"), Some("fr")), "de");
    assert_eq!(keymap_layout(Some(""), Some("fr")), "fr");
    assert_eq!(keymap_layout(None, None), "us");
    assert_eq!(window_host_arg(&args(&["prog", "--multiplex"])), HostArg::No);
    assert_eq!(window_host_arg(&args(&["prog", "--window-host"])), HostArg::Missing);
    assert_eq!(
        window_host_arg(&args(&["prog", "--window-host", "s", "--window-host"])),
        HostArg::At { index: 2 }
    );
}

#[test]
fn numbers_are_read_and_written() {
    assert_eq!(parse_i32("2147483647"), Some(i32::MAX));
    assert_eq!(parse_i32("2147483648"), None);
    assert_eq!(parse_i32("-2147483648"), Some(i32::MIN));
    assert_eq!(parse_i32("-2147483649"), None);
    assert_eq!(parse_i32("+5"), Some(5));
    assert_eq!(parse_i32("-"), None);
    assert_eq!(parse_i32("5 "), None);
    assert_eq!(parse_i32("000000000000000000000007"), Some(7));
    assert_eq!(parse_i32("99999999999999999999x"), None);
    assert_eq!(decimal(907), "907");
    assert_eq!(trim("\u{3000}\u{85} a b \n"), "a b");
    assert_eq!(strip_suffix("\u{e4}b.pid", ".pid"), Some("\u{e4}b"));
}

#[test]
fn white_space_is_what_the_standard_library_takes_for_it() {
    for u in 0..=0x3100u32 {
        if let Some(c) = char::from_u32(u) {
            let s = c.to_string();
            assert_eq!(trim(&s).is_empty(), c.is_whitespace(), "U+{u:04X}");
        }
    }
}

#[test]
fn tables_keep_their_ids_in_order() {
    let mut m: IdMap<&str> = IdMap::new();
    for id in [5u64, 1, 9, 3] {
        m.insert(id, "x");
    }
    m.insert(3, "three");
    assert_eq!(m.len(), 4);
    assert_eq!((0..4).map(|i| m.id_at(i)).collect::<Vec<_>>(), vec![1, 3, 5, 9]);
    assert_eq!(m.get(3), Some(&"three"));
    assert_eq!(m.remove(5), Some("x"));
    assert_eq!(m.remove(5), None);
    m.remove_range(2, 9);
    assert!(m.contains(1) && !m.contains(3) && !m.contains(9));
    *m.get_mut(1).unwrap() = "one";
    assert_eq!(m.value_at(0), &"one");
}

fn bitmap(width: u32, height: u32) -> Bitmap {
    Bitmap { width, height, stride: width * 4, pixels: vec![1, 2] }
}

fn cmd(out: RailOut) -> WinCmd {
    match out {
        RailOut::Post { cmd } => cmd,
        other => panic!("expected a command, got {other:?}"),
    }
}

#[test]
fn remote_windows_are_mirrored_in_points() {
    let mut s = RailSession::new(2);
    assert_eq!(s.on_window_create(1, 0, 0, 0, 10, String::new()), vec![]);
    let out = s.on_window_create(1, -5, 7, 801, 1, "T".to_string());
    assert_eq!(out[0], RailOut::Assign { id: 1, title: "T".to_string() });
    assert_eq!(
        out[1],
        RailOut::Post {
            cmd: WinCmd::Create {
                id: 1,
                width: 400,
                height: 1,
                dst_w: 400,
                dst_h: 1,
                decorated: false,
                title: "T".to_string(),
                geom: (0, 0, 0, 0),
            }
        }
    );
    assert_eq!(out[2], RailOut::Post { cmd: WinCmd::Move { id: 1, x: -2, y: 3 } });
    assert_eq!(
        cmd(s.on_window_update(1, 10, 10, 600, 400)),
        WinCmd::Move { id: 1, x: 5, y: 5 }
    );
    let frame = cmd(s.on_window_surface(1, bitmap(600, 400)).unwrap());
    assert!(matches!(
        frame,
        WinCmd::Frame {
            id: 1,
            width: 600,
            dst_w: 300,
            dst_h: 200,
            format: PixelFormat::Bgra8888,
            color: None,
            ..
        }
    ));
    let frame = cmd(s.on_window_surface(2, bitmap(50, 20)).unwrap());
    assert!(matches!(frame, WinCmd::Frame { dst_w: 25, dst_h: 10, .. }), "no tracked size");
    assert_eq!(s.on_window_surface(2, bitmap(0, 20)), None);
    s.on_window_update(1, 0, 0, 0, 0);
    let frame = cmd(s.on_window_surface(1, bitmap(600, 400)).unwrap());
    assert!(matches!(frame, WinCmd::Frame { dst_w: 300, .. }), "an empty size is not taken over");
    assert_eq!(s.rail_scale(), 2);
    assert_eq!(RailSession::new(0).rail_scale(), 1);
}

#[test]
fn disconnect_closes_what_is_left() {
    let mut s = RailSession::new(1);
    for id in [3, 1, 2] {
        s.on_window_create(id, 0, 0, 5, 5, String::new());
    }
    assert_eq!(cmd(s.on_window_delete(1)), WinCmd::Destroy { id: 1 });
    let left: Vec<WinCmd> = s.on_disconnected().into_iter().map(cmd).collect();
    assert_eq!(left, vec![WinCmd::Destroy { id: 3 }, WinCmd::Destroy { id: 2 }]);
    assert_eq!(s.on_disconnected(), vec![]);
}

#[test]
fn input_is_forwarded_as_pointer_flags() {
    let mut s = RailSession::new(1);
    let at = |window_id, x, y, flags| Some(RailSend::Pointer { window_id, x, y, flags });
    assert_eq!(
        s.forward(InputEvent::PointerMotion { window_id: 4, x: 5 * 256 + 200, y: -300 }),
        at(4, 5, -1, 0x0800)
    );
    assert_eq!(
        s.forward(InputEvent::PointerButton { window_id: 4, button: 0x111, pressed: true }),
        at(4, 5, -1, 0xa000)
    );
    assert_eq!(
        s.forward(InputEvent::PointerButton { window_id: 4, button: 0x110, pressed: false }),
        at(4, 5, -1, 0x1000)
    );
    assert_eq!(
        s.forward(InputEvent::PointerAxis { dx: 0, dy: 3 * 256 }),
        at(0, 5, -1, 0x0300 | 30)
    );
    assert_eq!(
        s.forward(InputEvent::PointerAxis { dx: 0, dy: -100 * 256 }),
        at(0, 5, -1, 0x0200 | 120)
    );
    assert_eq!(s.forward(InputEvent::PointerAxis { dx: 0, dy: 1 }), at(0, 5, -1, 0x0301));
    assert_eq!(s.forward(InputEvent::PointerAxis { dx: 600, dy: 256 }), None);
    assert_eq!(
        s.forward(InputEvent::Key { keycode: 30, pressed: true }),
        Some(RailSend::Key { scancode: 30, down: true })
    );
    assert_eq!(s.forward(InputEvent::Focus { window_id: 1, focused: true }), None);
    assert_eq!(button_flag(0x112), 0x4000);
    assert_eq!(button_flag(0x113), 0);
}

#[test]
fn remote_cursors_and_icons() {
    assert_eq!(on_cursor(bitmap(0, 1), 0, 0), None);
    let c = cmd(on_cursor(bitmap(16, 16), 3, 4).unwrap());
    assert!(matches!(
        c,
        WinCmd::SetCursorImage { width: 16, scale: 1, hotspot_x: 3, hotspot_y: 4, .. }
    ));
    assert_eq!(cmd(on_cursor_default()), WinCmd::SetCursor { shape: 1 });
    assert_eq!(on_window_icon(1, bitmap(1, 0)), None);
    let c = cmd(on_window_icon(1, bitmap(8, 8)).unwrap());
    assert!(matches!(c, WinCmd::SetIcon { id: 1, stride: 32, .. }));
}

#[test]
fn remote_settings_have_defaults() {
    assert_eq!(rail_host(None), "127.0.0.1");
    assert_eq!(rail_host(Some("h")), "h");
    assert_eq!(rail_port(None), 3389);
    assert_eq!(rail_port(Some("x")), 3389);
    assert_eq!(rail_port(Some("4000")), 4000);
    assert_eq!(rail_app(None), "weston-terminal");
    assert_eq!(rail_app(Some("")), "weston-terminal");
    assert_eq!(rail_app(Some("xterm")), "xterm");
    assert_eq!(rail_display_name(""), "weston-terminal");
    assert_eq!(rail_display_name("T"), "T");
}

#[test]
fn monitors_are_told_in_physical_pixels() {
    let mon = |x, scale, primary| Monitor { x, y: -10, width: 800, height: 0, scale, primary };
    let mut d = Display::new();
    set_scale(&mut d, 2);
    set_output_size(&mut d, 3000, 1);
    let mons = vec![mon(0, 1, false), mon(800, 3, true), mon(0, 9, true)];
    assert_eq!(pick_scale(&mons, &d), 3);
    assert_eq!(pick_scale(&vec![], &d), 2);
    assert_eq!(pick_scale(&vec![mon(0, -1, true)], &d), 1);
    assert_eq!(
        rail_monitor(mons[1], 3),
        Some(RailMonitor {
            x: 2400,
            y: -30,
            width: 2400,
            height: 3,
            scale: 3,
            is_primary: true
        })
    );
    assert_eq!(rail_monitor(mon(i32::MAX, 1, true), 2), None);
    assert_eq!(desktop_size(&d, 3), Some((4500, 3)));
    assert_eq!(desktop_size(&d, i32::MAX), None);
}

#[test]
fn waits_end_at_their_deadlines() {
    assert_eq!(poll_timeout(0), 16_000_000);
    assert_eq!(poll_timeout(15_000_000), 1_000_000);
    assert_eq!(poll_timeout(99_000_000), 0);
    assert!(tick_due(16_000_000) && !tick_due(15_999_999));
    assert_eq!(wait_until(true, true), WaitStep::Done { held: true });
    assert_eq!(wait_until(false, true), WaitStep::Done { held: false });
    assert_eq!(wait_until(false, false), WaitStep::Sleep { ms: 100 });
    assert_eq!(accept_step(Accepted::Connected, true), AcceptStep::Use);
    assert_eq!(accept_step(Accepted::WouldBlock, false), AcceptStep::Sleep { ms: 5 });
    assert_eq!(accept_step(Accepted::WouldBlock, true), AcceptStep::GiveUp);
    assert_eq!(accept_step(Accepted::Failed, false), AcceptStep::GiveUp);
}
