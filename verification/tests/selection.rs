//! Clipboard and primary selection.

use wayland_macos::wayland::bridges::Bridges;
use wayland_macos::wayland::clipboard::{pulled_text, ClipEmit, Clipboard};
use wayland_macos::wayland::mimes::{pick_text_mime, text_mimes};
use wayland_macos::wayland::primary_selection::{PrimaryEmit, PrimarySelection};
use wayland_macos::wayland::Device;

fn device(id: u64, client: u64) -> Device {
    Device { id, client, version: 3 }
}

fn list(v: &[&str]) -> Vec<String> {
    v.iter().map(|s| s.to_string()).collect()
}

#[test]
fn best_text_type_is_picked() {
    let pick = |v: &[&str]| pick_text_mime(&list(v));
    assert_eq!(pick(&["image/png", "TEXT", "text/plain"]), Some("text/plain".to_string()));
    assert_eq!(pick(&["utf8_string", "STRING"]), Some("utf8_string".to_string()));
    assert_eq!(
        pick(&["text/html", "Text/Plain;Charset=UTF-8"]),
        Some("Text/Plain;Charset=UTF-8".to_string())
    );
    assert_eq!(pick(&["image/png", "text/html", "text/csv"]), Some("text/html".to_string()));
    assert_eq!(pick(&["TEXT/HTML"]), None, "other text types are told by their exact start");
    assert_eq!(pick(&["image/png"]), None);
    assert_eq!(pick(&[]), None);
    assert_eq!(text_mimes()[0], "text/plain;charset=utf-8");
    assert_eq!(text_mimes().len(), 5);
}

#[test]
fn pasteboard_is_offered_on_focus_and_on_change() {
    let mut b = Bridges::new();
    let c = &mut b.clipboard;
    c.add_device(device(1, 10));
    c.add_device(device(2, 20));
    assert_eq!(c.advertise_to_client(10), vec![ClipEmit::ClearSelection { device: 1 }]);
    assert_eq!(
        c.set_mac_selection(Some("h\u{e9}".to_string())),
        vec![ClipEmit::OfferText { device: 1 }, ClipEmit::OfferText { device: 2 }]
    );
    assert_eq!(c.offered_bytes(), Some(&vec![b'h', 0xc3, 0xa9]));
    assert_eq!(c.advertise_to_client(20), vec![ClipEmit::OfferText { device: 2 }]);
    assert_eq!(c.advertise_to_client(30), vec![]);
    c.drop_device(1);
    assert_eq!(c.set_mac_selection(None), vec![ClipEmit::ClearSelection { device: 2 }]);
    assert_eq!(c.offered_bytes(), None);
}

#[test]
fn copying_pulls_text_and_replaces_the_owner() {
    let mut c = Clipboard::new();
    c.offer(5, "image/png".to_string());
    c.offer(6, "text/plain".to_string());
    c.offer(5, "TEXT".to_string());
    assert_eq!(
        c.set_selection(Some(5)),
        vec![ClipEmit::Pull { source: 5, mime: "TEXT".to_string() }]
    );
    assert_eq!(
        c.set_selection(Some(6)),
        vec![
            ClipEmit::Cancel { source: 5 },
            ClipEmit::Pull { source: 6, mime: "text/plain".to_string() },
        ]
    );
    assert_eq!(
        c.set_selection(Some(6)),
        vec![ClipEmit::Pull { source: 6, mime: "text/plain".to_string() }],
        "the same source is not cancelled"
    );
    assert_eq!(c.set_mac_selection(None), vec![ClipEmit::Cancel { source: 6 }]);
    assert_eq!(c.set_selection(Some(7)), vec![], "no text type");
    c.drop_source(7);
    assert_eq!(c.set_selection(Some(8)), vec![], "the owner is gone");
    assert_eq!(c.set_selection(None), vec![]);
    c.drop_source(6);
    assert_eq!(c.set_selection(Some(6)), vec![], "its types are forgotten");
}

#[test]
fn pulled_bytes_become_text() {
    assert_eq!(pulled_text(b""), None);
    assert_eq!(pulled_text("gr\u{fc}n".as_bytes()), Some("gr\u{fc}n".to_string()));
    assert_eq!(pulled_text(&[b'a', 0xff]), Some("a\u{fffd}".to_string()));
}

#[test]
fn primary_selection_goes_from_client_to_client() {
    let mut p = PrimarySelection::new();
    assert_eq!(p.add_device(device(1, 10)), vec![]);
    p.offer(5, "a".to_string());
    p.offer(5, "b".to_string());
    assert_eq!(
        p.set_selection(Some(5)),
        vec![PrimaryEmit::OfferSource { device: 1, source: 5 }]
    );
    assert_eq!(p.types(5), list(&["a", "b"]));
    assert_eq!(
        p.add_device(device(2, 20)),
        vec![PrimaryEmit::OfferSource { device: 2, source: 5 }],
        "a newcomer sees it at once"
    );
    assert_eq!(
        p.set_selection(Some(6)),
        vec![
            PrimaryEmit::Cancel { source: 5 },
            PrimaryEmit::OfferSource { device: 1, source: 6 },
            PrimaryEmit::OfferSource { device: 2, source: 6 },
        ]
    );
    assert_eq!(p.forget_source(5), vec![], "not the owner");
    p.drop_device(1);
    assert_eq!(p.forget_source(6), vec![PrimaryEmit::ClearSelection { device: 2 }]);
    assert_eq!(p.forget_source(6), vec![]);
    assert_eq!(
        p.set_selection(None),
        vec![PrimaryEmit::ClearSelection { device: 2 }]
    );
}
