//! Classification and routing of remote windows.

use wayland_macos::rail_route::{
    is_decoration, normalize_owner, rail_route_map_surface, rail_route_pop_demoted,
    rail_route_reset, rail_route_resolve, rail_route_unmap_window, rail_route_window_deleted,
    rail_route_window_order, Order, Rect, Router, OWNER_NONE_B, WS_EX_NOACTIVATE, WS_EX_TOOLWINDOW,
};

// Styles as a server puts them on the wire.
const APP: Option<(u32, u32)> = Some((0, OWNER_NONE_B));
fn owned_by(p: u32) -> Option<(u32, u32)> {
    Some((0, p))
}
fn tool() -> Option<(u32, u32)> {
    Some((WS_EX_TOOLWINDOW, OWNER_NONE_B))
}
fn tooltip(owner: u32) -> Option<(u32, u32)> {
    Some((WS_EX_NOACTIVATE, owner))
}
fn r(x: i32, y: i32, w: i32, h: i32) -> (i32, i32, i32, i32) {
    (x, y, w, h)
}

#[test]
fn classifies_app_vs_decoration() {
    assert!(!is_decoration(0, None), "plain toplevel is an app window");
    assert!(is_decoration(WS_EX_TOOLWINDOW, None), "tool window is decoration");
    assert!(is_decoration(WS_EX_NOACTIVATE, Some(5)), "owned non-activatable helper");
    assert!(!is_decoration(WS_EX_NOACTIVATE, None), "unowned non-activatable kept");
    assert!(!is_decoration(0, Some(5)), "owned but activatable dialog kept");
}

#[test]
fn window_order_transitions() {
    let mut r0 = Router::new();
    assert_eq!(r0.window_order(1, APP, r(0, 0, 800, 600)), Order::NewMirror);
    assert_eq!(r0.window_order(1, APP, r(0, 0, 800, 600)), Order::KnownMirror);
    assert_eq!(r0.window_order(2, tool(), r(0, 0, 100, 40)), Order::Filtered);
    assert_eq!(r0.window_order(2, None, r(0, 0, 100, 40)), Order::Filtered);
    assert_eq!(r0.window_order(3, None, r(0, 0, 400, 300)), Order::NewMirror);
}

#[test]
fn tooltip_surface_never_steals_the_main_window() {
    let mut r0 = Router::new();
    r0.window_order(1, APP, r(0, 0, 800, 600));
    r0.window_order(2, tooltip(1), r(10, 10, 120, 40));
    assert_eq!(r0.resolve(200, 0), None, "ambiguous unmapped surface is dropped");
    r0.map_surface(50, 1);
    assert_eq!(r0.resolve(50, 0), Some(1));
}

#[test]
fn covering_child_demotes_the_frame_and_keeps_content() {
    let mut r0 = Router::new();
    assert_eq!(
        r0.window_order(3, APP, r(-26, -23, 1332, 1092)),
        Order::NewMirror
    );
    assert!(r0.pop_demoted().is_none(), "nothing to demote yet");
    assert_eq!(
        r0.window_order(4, owned_by(3), r(0, 0, 1280, 1040)),
        Order::NewMirror
    );
    assert_eq!(r0.pop_demoted(), Some(3), "frame id=3 is demoted");
    assert!(r0.pop_demoted().is_none(), "only one demotion");
    r0.map_surface(2, 3);
    r0.map_surface(3, 4);
    assert_eq!(r0.resolve(2, 0), None, "transparent frame gets no pixels");
    assert_eq!(r0.resolve(3, 0), Some(4), "content window renders");
}

#[test]
fn small_dialog_does_not_demote_its_owner() {
    let mut r0 = Router::new();
    r0.window_order(1, APP, r(0, 0, 1200, 900));
    assert_eq!(
        r0.window_order(2, owned_by(1), r(400, 300, 300, 200)),
        Order::NewMirror
    );
    assert!(r0.pop_demoted().is_none(), "the main window is NOT a frame");
}

#[test]
fn frame_created_after_its_child_is_filtered_immediately() {
    let mut r0 = Router::new();
    r0.window_order(4, owned_by(3), r(0, 0, 1280, 1040));
    assert_eq!(
        r0.window_order(3, APP, r(-26, -23, 1332, 1092)),
        Order::Filtered,
        "frame with an already-present covering child is filtered"
    );
}

#[test]
fn standalone_app_is_never_treated_as_a_frame() {
    let mut r0 = Router::new();
    assert_eq!(r0.window_order(1, APP, r(-32, -32, 806, 491)), Order::NewMirror);
    assert!(r0.pop_demoted().is_none());
    r0.map_surface(1, 1);
    assert_eq!(r0.resolve(1, 0), Some(1));
}

#[test]
fn mapped_surface_wins_over_the_fallback() {
    let mut r0 = Router::new();
    r0.window_order(1, APP, r(0, 0, 800, 600));
    r0.window_order(2, APP, r(0, 0, 800, 600));
    r0.map_surface(10, 2);
    assert_eq!(r0.resolve(10, 0), Some(2));
    assert_eq!(r0.resolve(11, 0), None, "two windows -> unmapped surface dropped");
}

#[test]
fn delete_reports_mirror_state_and_clears_maps() {
    let mut r0 = Router::new();
    r0.window_order(1, APP, r(0, 0, 800, 600));
    r0.window_order(2, tool(), r(0, 0, 100, 40));
    r0.map_surface(10, 1);
    assert!(r0.window_deleted(1), "mirrored window -> emit delete");
    assert!(!r0.window_deleted(2), "filtered window -> no delete");
    assert_eq!(r0.resolve(10, 0), None);
}

#[test]
fn sole_window_takes_unmapped_surfaces() {
    let mut r0 = Router::new();
    r0.window_order(7, APP, r(0, 0, 800, 600));
    assert_eq!(r0.resolve(99, 0), Some(7));
    assert_eq!(r0.resolve(99, 8), None, "a named window that does not exist");
    assert_eq!(r0.resolve(99, 7), Some(7));
}

#[test]
fn mirrored_window_that_turns_into_a_tool_window_is_filtered() {
    let mut r0 = Router::new();
    r0.window_order(1, APP, r(0, 0, 10, 10));
    assert_eq!(r0.window_order(1, tool(), r(0, 0, 10, 10)), Order::NowFiltered);
    assert_eq!(r0.window_order(1, APP, r(0, 0, 10, 10)), Order::NewMirror);
}

#[test]
fn cover_test_takes_exactly_eighty_percent() {
    let owner = Rect { x: 0, y: 0, w: 100, h: 100 };
    assert!(Rect { x: 0, y: 0, w: 100, h: 80 }.covers(&owner));
    assert!(!Rect { x: 0, y: 0, w: 100, h: 79 }.covers(&owner));
    assert!(Rect { x: -8, y: 0, w: 100, h: 100 }.covers(&owner), "within the slack");
    assert!(!Rect { x: -9, y: 0, w: 100, h: 100 }.covers(&owner), "outside the slack");
    assert_eq!(Rect { x: 0, y: 0, w: -5, h: 7 }.area(), 0);
    assert_eq!(Rect { x: 0, y: 0, w: 5, h: 7 }.area(), 35);
}

#[test]
fn covering_works_at_the_ends_of_the_number_range() {
    let far = Rect { x: i32::MAX - 1, y: i32::MAX - 1, w: i32::MAX, h: i32::MAX };
    assert!(far.covers(&far));
}

#[test]
fn both_ids_for_no_owner_are_none() {
    assert_eq!(normalize_owner(0), None);
    assert_eq!(normalize_owner(u32::MAX), None);
    assert_eq!(normalize_owner(5), Some(5));
}

#[test]
fn bridge_codes() {
    let mut r0 = Router::new();
    assert_eq!(rail_route_window_order(&mut r0, 3, 1, 0, OWNER_NONE_B, r(-26, -23, 1332, 1092)), 1);
    assert_eq!(rail_route_window_order(&mut r0, 3, 0, 0, 0, r(-26, -23, 1332, 1092)), 0);
    assert_eq!(rail_route_window_order(&mut r0, 4, 1, 0, 3, r(0, 0, 1280, 1040)), 1);
    assert_eq!(rail_route_pop_demoted(&mut r0), 3);
    assert_eq!(rail_route_pop_demoted(&mut r0), 0);
    assert_eq!(rail_route_window_order(&mut r0, 4, 1, WS_EX_TOOLWINDOW, 3, r(0, 0, 1280, 1040)), -1);
    assert_eq!(rail_route_window_order(&mut r0, 4, 0, 0, 0, r(0, 0, 1280, 1040)), -2);
    rail_route_map_surface(&mut r0, 9, 5);
    assert_eq!(rail_route_window_order(&mut r0, 5, 0, 0, 0, r(0, 0, 10, 10)), 1);
    assert_eq!(rail_route_resolve(&r0, 9, 0), 5);
    rail_route_unmap_window(&mut r0, 5);
    assert_eq!(rail_route_resolve(&r0, 9, 0), 0);
    assert_eq!(rail_route_window_deleted(&mut r0, 5), 1);
    assert_eq!(rail_route_window_deleted(&mut r0, 5), 0);
    rail_route_reset(&mut r0);
    assert_eq!(rail_route_resolve(&r0, 0, 4), 0);
}

#[test]
fn geometry_alone_never_reclassifies() {
    let mut r0 = Router::new();
    assert_eq!(r0.window_order(1, APP, r(0, 0, 2000, 2000)), Order::NewMirror);
    assert_eq!(r0.window_order(2, owned_by(1), r(0, 0, 800, 600)), Order::NewMirror);
    // Now the child covers its owner, which stays mirrored.
    assert_eq!(r0.window_order(1, None, r(0, 0, 800, 600)), Order::KnownMirror);
    assert_eq!(r0.pop_demoted(), None);
    assert_eq!(r0.resolve(7, 1), Some(1));
    // Style bits bring the frame test back.
    assert_eq!(r0.window_order(1, APP, r(0, 0, 800, 600)), Order::NowFiltered);
    assert_eq!(r0.window_order(1, None, r(0, 0, 2000, 2000)), Order::Filtered);
    assert_eq!(r0.resolve(7, 1), None);
}

#[test]
fn unknown_window_of_a_geometry_order_is_mirrored_though_covered() {
    let mut r0 = Router::new();
    r0.window_order(4, owned_by(3), r(0, 0, 1280, 1040));
    assert_eq!(r0.window_order(3, None, r(-26, -23, 1332, 1092)), Order::NewMirror);
    // The child's next order finds its owner covered.
    assert_eq!(r0.window_order(4, None, r(0, 0, 1280, 1040)), Order::KnownMirror);
    assert_eq!(r0.pop_demoted(), Some(3));
}

#[test]
fn window_that_owns_itself_keeps_its_kind_under_geometry() {
    let mut r0 = Router::new();
    r0.window_order(1, owned_by(1), r(0, 0, 2000, 2000));
    r0.window_order(2, owned_by(1), r(0, 0, 800, 600));
    assert_eq!(r0.window_order(1, None, r(0, 0, 800, 600)), Order::KnownMirror);
    assert_eq!(r0.pop_demoted(), None);
    assert_eq!(r0.resolve(7, 1), Some(1));
}
