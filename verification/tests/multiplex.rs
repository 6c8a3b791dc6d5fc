//! Hosts, routing and framing.

use wayland_macos::cmd::WinCmd;
use wayland_macos::host::{
    forward_step, greet, host_step, ForwardStep, Greeting, HostStep, Received, WakeRead,
};
use wayland_macos::input::{
    output_size, reserved_insets, scale, set_output_size, set_reserved_insets, set_scale, Display,
    InputBus, InputEvent,
};
use wayland_macos::ipc::{encode_frame, payload_length, read_frame, Downlink, FrameError};
use wayland_macos::router::{
    app_dir_name, assign_window, broadcast_insets, enable, host_socket_name, is_enabled, target,
    HostAction, Multiplex, Router, Target,
};

fn send(app: u32) -> HostAction {
    HostAction::Send { app }
}

fn popup(id: u32, parent_id: u32) -> WinCmd {
    WinCmd::CreatePopup {
        id,
        parent_id,
        x: 0,
        y: 0,
        x_flip: 0,
        y_flip: 0,
        constraint: 0,
        width: 1,
        height: 1,
    }
}

#[test]
fn commands_go_to_the_host_of_their_window() {
    let mut r = Router::new(2, 100, 50, (1, 2, 3, 4));
    assert!(r.needs_host(7));
    r.assign(1, 7, true);
    assert!(!r.needs_host(7));
    r.assign(2, 8, true);
    r.assign(3, 7, false);
    assert_eq!(r.route(&WinCmd::Minimize { id: 1 }, true), vec![send(7)]);
    assert_eq!(r.route(&WinCmd::Minimize { id: 2 }, true), vec![send(8)]);
    assert_eq!(r.route(&WinCmd::Minimize { id: 9 }, true), vec![]);
    assert_eq!(r.route(&WinCmd::Minimize { id: 1 }, false), vec![]);
    assert_eq!(r.route(&WinCmd::HideCursor, true), vec![send(7), send(8)]);
    assert_eq!(r.route(&WinCmd::SetGrab { window: None }, true), vec![send(7), send(8)]);
    assert_eq!(r.route(&WinCmd::SetGrab { window: Some(2) }, true), vec![send(8)]);
    let env = r.environment();
    assert_eq!((env.scale, env.out_w, env.out_h, env.insets), (2, 100, 50, (1, 2, 3, 4)));
}

#[test]
fn popups_share_their_parents_host() {
    let mut r = Router::new(1, 1, 1, (0, 0, 0, 0));
    r.assign(1, 7, true);
    assert_eq!(r.route(&popup(5, 1), true), vec![send(7)]);
    assert_eq!(r.route(&WinCmd::Minimize { id: 5 }, true), vec![send(7)]);
    assert_eq!(r.route(&popup(6, 99), true), vec![]);
    assert_eq!(r.route(&WinCmd::Minimize { id: 6 }, true), vec![]);
}

#[test]
fn host_ends_with_its_last_window() {
    let mut r = Router::new(1, 1, 1, (0, 0, 0, 0));
    r.assign(1, 7, true);
    r.assign(2, 7, true);
    r.assign(3, 8, true);
    assert_eq!(r.route(&WinCmd::Destroy { id: 1 }, true), vec![send(7)]);
    assert_eq!(
        r.route(&WinCmd::Destroy { id: 2 }, true),
        vec![send(7), HostAction::ShutDown { app: 7 }]
    );
    assert!(r.needs_host(7));
    assert!(!r.needs_host(8));
    assert_eq!(r.route(&WinCmd::Destroy { id: 2 }, true), vec![]);
}

#[test]
fn windows_of_failed_hosts_are_dropped() {
    let mut m = Multiplex::new();
    assert!(!is_enabled(&m));
    assign_window(&mut m, 1, 7, true);
    assert_eq!(broadcast_insets(&mut m, 1, 2, 3, 4, true), vec![]);
    enable(&mut m, 1, 10, 20, (0, 0, 0, 0));
    assert!(is_enabled(&m));
    enable(&mut m, 9, 9, 9, (9, 9, 9, 9));
    assign_window(&mut m, 1, 7, false);
    let r = m.router.as_mut().unwrap();
    assert_eq!(r.route(&WinCmd::Minimize { id: 1 }, true), vec![]);
    assert_eq!(r.environment().scale, 1, "the first enable counts");
    assign_window(&mut m, 1, 7, true);
    assert_eq!(broadcast_insets(&mut m, 1, 2, 3, 4, true), vec![send(7)]);
    assert_eq!(broadcast_insets(&mut m, 1, 2, 3, 4, false), vec![]);
    assert_eq!(m.router.as_ref().unwrap().environment().insets, (1, 2, 3, 4));
}

#[test]
fn targets() {
    assert_eq!(target(&WinCmd::SetCursor { shape: 1 }), Target::Broadcast);
    assert_eq!(target(&WinCmd::Move { id: 4, x: 0, y: 0 }), Target::Window { id: 4 });
    assert_eq!(target(&popup(5, 1)), Target::Window { id: 1 });
    assert_eq!(
        target(&WinCmd::SubDestroy { window_id: 3, sub_id: 9 }),
        Target::Window { id: 3 }
    );
}

#[test]
fn host_files_are_named_by_process_and_application() {
    assert_eq!(host_socket_name(1234, 5), "wl-macos-host-1234-5.sock");
    assert_eq!(app_dir_name(1234, 50), "wl-macos-apps-1234/50");
}

#[test]
fn frames_round_trip() {
    let payload: Vec<u8> = (0..=255).cycle().take(70_000).collect();
    let mut stream = encode_frame(&payload).unwrap();
    assert_eq!(&stream[..4], &70_000u32.to_le_bytes());
    stream.extend(encode_frame(&[9]).unwrap());
    let (first, n) = read_frame(&stream).unwrap().unwrap();
    assert_eq!(first, payload);
    let (second, m) = read_frame(&stream[n..]).unwrap().unwrap();
    assert_eq!(second, vec![9]);
    assert_eq!(read_frame(&stream[n + m..]), Ok(None), "closed at a frame's end");
    assert_eq!(read_frame(&stream[..3]), Ok(None), "closed inside a header");
    assert_eq!(read_frame(&stream[..100]), Err(FrameError::Truncated));
    assert_eq!(payload_length(&[1, 2, 0, 0]), 513);
    assert_eq!(encode_frame(&[]).unwrap(), vec![0, 0, 0, 0]);
}

fn hello() -> Downlink {
    Downlink::Hello {
        scale: 0,
        out_w: 10,
        out_h: -5,
        insets: (1, -2, 3, 4),
        regular: true,
        name: "Ed".to_string(),
    }
}

#[test]
fn hosts_start_with_a_greeting() {
    let mut d = Display::new();
    assert_eq!(greet(Downlink::Shutdown, &mut d), None);
    assert_eq!(output_size(&d), (1920, 1080));
    assert_eq!(
        greet(hello(), &mut d),
        Some(Greeting { regular: true, name: "Ed".to_string() })
    );
    assert_eq!(scale(&d), 1);
    assert_eq!(output_size(&d), (10, 1));
    assert_eq!(reserved_insets(&d), (1, 0, 3, 4));
}

#[test]
fn hosts_follow_the_compositor() {
    let mut d = Display::new();
    let msg = |m| Received::Message { msg: m };
    assert_eq!(
        host_step(msg(Downlink::Cmd { cmd: WinCmd::HideCursor }), &mut d),
        HostStep::Carry { cmd: WinCmd::HideCursor }
    );
    let insets = Downlink::Insets { top: 5, right: 6, bottom: 7, left: -8 };
    assert_eq!(host_step(msg(insets), &mut d), HostStep::Continue);
    assert_eq!(reserved_insets(&d), (5, 6, 7, 0));
    assert_eq!(host_step(msg(hello()), &mut d), HostStep::Continue);
    assert_eq!(output_size(&d), (1920, 1080), "a second greeting is ignored");
    assert_eq!(host_step(msg(Downlink::Shutdown), &mut d), HostStep::Exit);
    assert_eq!(host_step(Received::Closed, &mut d), HostStep::Exit);
    assert_eq!(host_step(Received::Failed, &mut d), HostStep::Exit);
    assert_eq!(forward_step(WakeRead::Bytes { n: 0 }), ForwardStep::Stop);
    assert_eq!(forward_step(WakeRead::Bytes { n: 3 }), ForwardStep::Flush);
    assert_eq!(forward_step(WakeRead::Interrupted), ForwardStep::Retry);
    assert_eq!(forward_step(WakeRead::Failed), ForwardStep::Stop);
}

#[test]
fn display_parameters_have_floors() {
    let mut d = Display::new();
    assert_eq!((scale(&d), output_size(&d)), (1, (1920, 1080)));
    set_scale(&mut d, -3);
    set_output_size(&mut d, 0, 700);
    set_reserved_insets(&mut d, -1, 2, -3, 4);
    assert_eq!((scale(&d), output_size(&d)), (1, (1, 700)));
    assert_eq!(reserved_insets(&d), (0, 2, 0, 4));
}

#[test]
fn events_come_out_in_order() {
    let mut bus = InputBus::new();
    assert_eq!(bus.drain(), vec![]);
    bus.push(InputEvent::PointerLeave { window_id: 1 });
    bus.push(InputEvent::MacClipboard { text: None });
    assert_eq!(
        bus.drain(),
        vec![InputEvent::PointerLeave { window_id: 1 }, InputEvent::MacClipboard { text: None }]
    );
    assert_eq!(bus.drain(), vec![]);
}
