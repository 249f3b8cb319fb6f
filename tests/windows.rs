use catacomb::{
    Action, Arrangement, Direction, DropTarget, Output, Overview, Point, Rect, Rectangle, Size, Window,
    Windows, HOLD_DURATION_MS, MAX_TRANSACTION_DURATION_MS,
};

fn rectangle(x: i32, y: i32, w: i32, h: i32) -> Rectangle {
    Rectangle { loc: Point { x, y }, size: Size { w, h } }
}

fn output() -> Output {
    Output {
        size: Size { w: 100, h: 200 },
        primary_full: rectangle(0, 0, 100, 200),
        primary_split: rectangle(0, 0, 100, 100),
        secondary: rectangle(0, 100, 100, 100),
    }
}

fn overview(windows: &Windows) -> Overview {
    match windows.arrangement() {
        Arrangement::Overview(o) => o,
        Arrangement::Workspace => panic!("not in the overview"),
    }
}

/// A registry with `n` windows whose transactions have all committed.
fn registry(n: usize) -> (Windows, Vec<u64>) {
    let output = output();
    let mut windows = Windows::new();
    let mut ids = Vec::new();
    for _ in 0..n {
        ids.push(windows.add(&output, true, 0).unwrap());
    }
    assert!(windows.update_transaction(1000));
    (windows, ids)
}

/// The same registry, showing the overview.
fn overview_registry(n: usize) -> (Windows, Vec<u64>) {
    let (mut windows, ids) = registry(n);
    windows.toggle_view(1000);
    assert!(windows.update_transaction(1000));
    (windows, ids)
}

#[test]
fn three_windows_primary_secondary_neither() {
    let (windows, ids) = registry(3);
    assert_eq!(windows.len(), 3);
    assert_eq!(windows.primary(), Some(ids[2]));
    assert_eq!(windows.secondary(), Some(ids[0]));
    assert_eq!(windows.window(0).id(), ids[2]);
    assert_eq!(windows.window(1).id(), ids[0]);
    assert_eq!(windows.window(2).id(), ids[1]);
    assert!(windows.transaction().is_none());
    assert!(windows.window(0).visible());
    assert!(windows.window(1).visible());
    assert!(!windows.window(2).visible());
    assert_eq!(windows.window(0).rectangle(), rectangle(0, 0, 100, 100));
    assert_eq!(windows.window(1).rectangle(), rectangle(0, 100, 100, 100));
    assert_eq!(windows.window(2).rectangle(), rectangle(0, 0, 100, 200));
}

#[test]
fn transaction_without_pending_windows_commits_at_once() {
    let mut windows = Windows::new();
    windows.toggle_view(50);
    assert!(windows.transaction().is_some());
    assert!(windows.update_transaction(50));
    assert!(matches!(windows.arrangement(), Arrangement::Overview(_)));
    assert!(!windows.update_transaction(51));
}

#[test]
fn unacked_transaction_commits_at_deadline() {
    let output = output();
    let mut windows = Windows::new();
    let id = windows.add(&output, true, 100).unwrap();
    assert!(!windows.update_transaction(100));
    assert!(!windows.update_transaction(100 + MAX_TRANSACTION_DURATION_MS));
    assert_eq!(windows.primary(), None);
    assert!(windows.update_transaction(101 + MAX_TRANSACTION_DURATION_MS));
    assert_eq!(windows.primary(), Some(id));
}

#[test]
fn acked_transaction_commits_before_deadline() {
    let output = output();
    let mut windows = Windows::new();
    let id = windows.add(&output, true, 100).unwrap();
    windows.ack_configure(id, Size { w: 100, h: 200 });
    assert!(windows.update_transaction(101));
    assert_eq!(windows.primary(), Some(id));
    assert_eq!(windows.window(0).rectangle(), rectangle(0, 0, 100, 200));
}

#[test]
fn configure_sent_only_once_configured() {
    let output = output();
    let mut windows = Windows::new();
    let first = windows.add(&output, true, 0).unwrap();
    assert_eq!(windows.take_actions(), vec![Action::Enter { window: first }]);
    windows.mark_configured(first);
    let second = windows.add(&output, true, 0).unwrap();
    let actions = windows.take_actions();
    assert_eq!(actions, vec![
        Action::Enter { window: second },
        Action::Configure {
            window: first,
            size: Size { w: 100, h: 100 },
            tiled: true,
            server_side_decorations: true,
        },
    ]);
    assert!(windows.take_actions().is_empty());
}

#[test]
fn dead_windows_reaped_at_commit() {
    let output = output();
    let (mut windows, ids) = registry(3);
    windows.mark_dead(ids[2]);
    windows.refresh(&output, 2000);
    let t = windows.transaction().unwrap();
    assert_eq!(t.primary, Some(ids[0]));
    assert_eq!(t.secondary, None);
    assert!(windows.update_transaction(3000));
    assert_eq!(windows.len(), 2);
    assert_eq!(windows.find(ids[2]), None);
    assert_eq!(windows.window(0).id(), ids[0]);
    assert_eq!(windows.primary(), Some(ids[0]));
}

#[test]
fn frames_requested_from_visible_windows() {
    let (mut windows, ids) = registry(3);
    assert_eq!(windows.request_frames(), vec![ids[2], ids[0]]);
    windows.toggle_view(2000);
    assert!(windows.update_transaction(2000));
    assert!(windows.request_frames().is_empty());
}

#[test]
fn tap_in_overview_opens_focused_window() {
    let output = output();
    let (mut windows, ids) = overview_registry(3);
    let bounds = rectangle(10, 10, 50, 50);
    windows.on_tap(&output, Point { x: 20, y: 20 }, bounds, 2000);
    let t = windows.transaction().unwrap();
    assert_eq!(t.primary, Some(windows.window(0).id()));
    assert_eq!(t.primary, Some(ids[2]));
    assert_eq!(t.view, Some(Arrangement::Workspace));
    assert!(windows.update_transaction(3000));
    assert_eq!(windows.arrangement(), Arrangement::Workspace);
}

#[test]
fn tap_outside_focused_window_does_nothing() {
    let output = output();
    let (mut windows, _) = overview_registry(3);
    let bounds = rectangle(10, 10, 50, 50);
    windows.on_tap(&output, Point { x: 60, y: 20 }, bounds, 2000);
    assert!(windows.transaction().is_none());
    assert!(matches!(windows.arrangement(), Arrangement::Overview(_)));
}

#[test]
fn drop_in_top_third_makes_primary() {
    let output = output();
    let (mut windows, ids) = overview_registry(3);
    let bounds = rectangle(10, 10, 50, 50);
    windows.on_touch_start(Point { x: 20, y: 20 }, bounds, 2000);
    windows.refresh(&output, 2000 + HOLD_DURATION_MS - 1);
    assert!(overview(&windows).floating_anchor.is_none());
    windows.refresh(&output, 2000 + HOLD_DURATION_MS);
    assert_eq!(overview(&windows).floating_position(), Some((0, 0)));
    windows.on_drag(&output, Point { x: 20, y: 40 }, 2500);
    assert_eq!(overview(&windows).floating_position(), Some((0, 20)));
    windows.on_drag_release(&output, 4000);
    let t = windows.transaction().unwrap();
    assert_eq!(t.primary, Some(ids[2]));
    assert_eq!(t.view, Some(Arrangement::Workspace));
    assert!(windows.update_transaction(5000));
    assert_eq!(windows.primary(), Some(ids[2]));
    assert_eq!(windows.arrangement(), Arrangement::Workspace);
}

#[test]
fn drop_in_bottom_third_makes_secondary() {
    let output = output();
    let (mut windows, ids) = overview_registry(3);
    let bounds = rectangle(10, 10, 50, 50);
    windows.on_touch_start(Point { x: 20, y: 20 }, bounds, 2000);
    windows.refresh(&output, 2000 + HOLD_DURATION_MS);
    windows.on_drag(&output, Point { x: 20, y: 150 }, 2500);
    windows.on_drag_release(&output, 4000);
    let t = windows.transaction().unwrap();
    assert_eq!(t.secondary, Some(ids[2]));
    assert_eq!(t.primary, None);
    assert_eq!(t.view, Some(Arrangement::Workspace));
}

#[test]
fn drop_in_middle_third_cancels() {
    let output = output();
    let (mut windows, _) = overview_registry(3);
    let bounds = rectangle(10, 10, 50, 50);
    windows.on_touch_start(Point { x: 20, y: 20 }, bounds, 2000);
    windows.refresh(&output, 2000 + HOLD_DURATION_MS);
    windows.on_drag(&output, Point { x: 20, y: 100 }, 2500);
    windows.on_drag_release(&output, 4000);
    assert!(windows.transaction().is_none());
    let o = overview(&windows);
    assert!(o.floating_anchor.is_none());
    assert_eq!(o.last_overdrag_step, Some(4000));
}

#[test]
fn vertical_drag_to_half_height_closes_window() {
    let output = output();
    let (mut windows, ids) = overview_registry(4);
    windows.take_actions();
    windows.on_touch_start(Point { x: 50, y: 0 }, rectangle(0, 0, 0, 0), 2000);
    windows.on_drag(&output, Point { x: 50, y: 100 }, 2500);
    assert_eq!(windows.len(), 3);
    assert_eq!(windows.find(ids[3]), None);
    let o = overview(&windows);
    assert!(o.close_release_pending);
    assert_eq!(o.y_offset, 0);
    assert!(windows.take_actions().contains(&Action::Close { window: ids[3] }));
    // No second close before the touch is released.
    windows.on_drag(&output, Point { x: 50, y: 300 }, 2500);
    assert_eq!(windows.len(), 3);
    windows.on_drag_release(&output, 2100);
    assert!(!overview(&windows).close_release_pending);
}

#[test]
fn vertical_drag_short_of_half_height_keeps_window() {
    let output = output();
    let (mut windows, _) = overview_registry(4);
    windows.on_touch_start(Point { x: 50, y: 0 }, rectangle(0, 0, 0, 0), 2000);
    windows.on_drag(&output, Point { x: 50, y: 99 }, 2500);
    assert_eq!(windows.len(), 4);
    let o = overview(&windows);
    assert!(!o.close_release_pending);
    assert_eq!(o.y_offset, 99);
    assert_eq!(o.drag_direction, Some(Direction::Vertical));
}

#[test]
fn overview_offset_stays_clamped() {
    let output = output();
    let (mut windows, _) = overview_registry(4);
    windows.on_touch_start(Point { x: 0, y: 0 }, rectangle(0, 0, 0, 0), 2000);
    let mut x = 0;
    for step in [-1000, -1000, -1000, 5000, 7000, -30000, 100, 25000] {
        x += step;
        windows.on_drag(&output, Point { x, y: 0 }, 2500);
        let o = overview(&windows);
        assert!(o.x_offset >= -6000 && o.x_offset <= 3000);
    }
    windows.on_touch_start(Point { x: 0, y: 0 }, rectangle(0, 0, 0, 0), 3000);
    windows.on_drag(&output, Point { x: -250, y: 0 }, 2500);
    assert_eq!(overview(&windows).x_offset, 2000);
}

#[test]
fn horizontal_drag_pages() {
    let output = output();
    let (mut windows, _) = overview_registry(4);
    windows.on_touch_start(Point { x: 300, y: 0 }, rectangle(0, 0, 0, 0), 2000);
    windows.on_drag(&output, Point { x: 50, y: 10 }, 2500);
    let o = overview(&windows);
    assert_eq!(o.x_offset, -1000);
    assert_eq!(o.drag_direction, Some(Direction::Horizontal));
    assert_eq!(o.focused_index(4), 1);
}

#[test]
fn bounce_back_returns_overdrag() {
    let mut o = Overview::new();
    o.x_offset = 2000;
    o.y_offset = -100;
    o.last_overdrag_step = Some(0);
    o.clamp_offset(3, 10);
    assert_eq!(o.x_offset, 1600);
    assert_eq!(o.y_offset, -67);
    assert_eq!(o.last_overdrag_step, Some(10));
    o.clamp_offset(3, 1000);
    assert_eq!(o.x_offset, 0);
    assert_eq!(o.y_offset, 0);

    let mut o = Overview::new();
    o.x_offset = -3500;
    o.last_overdrag_step = Some(0);
    o.clamp_offset(3, 10);
    assert_eq!(o.x_offset, -3100);
    o.clamp_offset(3, 1000);
    assert_eq!(o.x_offset, -2000);
}

#[test]
fn focused_index_rounds_and_saturates() {
    let mut o = Overview::new();
    assert_eq!(o.focused_index(1), 0);
    o.x_offset = -1499;
    assert_eq!(o.focused_index(4), 1);
    o.x_offset = -1500;
    assert_eq!(o.focused_index(4), 2);
    o.x_offset = -5000;
    assert_eq!(o.focused_index(4), 3);
    assert_eq!(o.focused_index(1), 0);
    o.x_offset = 2500;
    assert_eq!(o.focused_index(4), 0);
}

#[test]
fn draw_order_outer_windows_first() {
    let mut o = Overview::new();
    o.x_offset = -2000;
    assert_eq!(o.draw_order(5), vec![(-2, 0), (-1, 1), (2, 4), (1, 3), (0, 2)]);
    o.x_offset = 0;
    assert_eq!(o.draw_order(3), vec![(2, 2), (1, 1), (0, 0)]);
    o.x_offset = -6000;
    assert_eq!(o.draw_order(5), vec![(-6, 0), (-5, 1), (-4, 2), (-3, 3), (-2, 4)]);
    o.x_offset = 0;
    assert!(o.draw_order(0).is_empty());
}

#[test]
fn drop_target_by_third() {
    let mut o = Overview::new();
    o.last_drag_point = Point { x: 0, y: 66 };
    assert_eq!(o.drop_target(200), DropTarget::Primary);
    o.last_drag_point = Point { x: 0, y: 67 };
    assert_eq!(o.drop_target(200), DropTarget::Cancel);
    o.last_drag_point = Point { x: 0, y: 134 };
    assert_eq!(o.drop_target(200), DropTarget::Secondary);
    o.last_drag_point = Point { x: 0, y: 133 };
    assert_eq!(o.drop_target(200), DropTarget::Cancel);
}

#[test]
fn window_reconfigure_and_bounds() {
    let mut w = Window::new(7, false);
    assert_eq!(w.reconfigure(), Action::Configure { window: 7, size: Size { w: 0, h: 0 }, tiled: false, server_side_decorations: true });
    let mut actions = Vec::new();
    w.update_dimensions(rectangle(10, 20, 300, 200), &mut actions);
    assert!(actions.is_empty());
    assert_eq!(w.reconfigure(), Action::Configure { window: 7, size: Size { w: 300, h: 200 }, tiled: false, server_side_decorations: true });
    assert!(!w.needs_import());
    w.apply_transaction();
    assert_eq!(w.rectangle(), rectangle(10, 20, 300, 200));
    assert_eq!(w.pending_rectangle(), None);
    w.buffers_pending = true;
    assert!(w.needs_import());
    w.imported(Size { w: 100, h: 250 });
    assert!(!w.needs_import());
    assert_eq!(w.draw_bounds(Size { w: 400, h: 400 }), Rect { x: 110, y: 20, w: 400, h: 400 });
    w.initial_configure_sent = true;
    w.update_dimensions(rectangle(10, 20, 300, 200), &mut actions);
    assert!(actions.is_empty());
    w.update_dimensions(rectangle(0, 0, 100, 100), &mut actions);
    assert_eq!(actions, vec![Action::Configure {
        window: 7,
        size: Size { w: 100, h: 100 },
        tiled: false,
        server_side_decorations: true,
    }]);
}

#[test]
fn window_leave_stages_output_size() {
    let output = output();
    let mut w = Window::new(3, true);
    let mut actions = Vec::new();
    w.enter(&mut actions);
    assert!(w.visible());
    w.leave(&output, &mut actions);
    assert!(!w.visible());
    assert_eq!(w.pending_rectangle(), Some(rectangle(0, 0, 100, 200)));
    assert_eq!(actions, vec![Action::Enter { window: 3 }, Action::Leave { window: 3 }]);
}

#[test]
fn release_resets_drag_axis() {
    let output = output();
    let (mut windows, _) = overview_registry(2);
    windows.on_touch_start(Point { x: 0, y: 0 }, rectangle(0, 0, 0, 0), 2000);
    windows.on_drag(&output, Point { x: 0, y: 10 }, 2001);
    assert_eq!(overview(&windows).drag_direction, Some(Direction::Vertical));
    windows.on_drag(&output, Point { x: 100, y: 10 }, 2002);
    assert_eq!(overview(&windows).x_offset, 0);
    windows.on_drag_release(&output, 2003);
    assert_eq!(overview(&windows).drag_direction, None);
    windows.on_touch_start(Point { x: 0, y: 0 }, rectangle(0, 0, 0, 0), 2004);
    windows.on_drag(&output, Point { x: -250, y: 0 }, 2005);
    assert_eq!(overview(&windows).drag_direction, Some(Direction::Horizontal));
    assert_eq!(overview(&windows).x_offset, -1000);
}

#[test]
fn tap_clears_secondary_when_primary_current() {
    let output = output();
    let (mut windows, ids) = overview_registry(3);
    // Page to the last window, then tap it.
    windows.on_touch_start(Point { x: 0, y: 0 }, rectangle(0, 0, 0, 0), 2000);
    windows.on_drag(&output, Point { x: -500, y: 0 }, 2001);
    windows.on_drag_release(&output, 2002);
    let o = overview(&windows);
    assert_eq!(o.focused_index(3), 2);
    windows.on_tap(&output, Point { x: 20, y: 20 }, rectangle(10, 10, 50, 50), 2003);
    let t = windows.transaction().unwrap();
    assert_eq!(t.primary, Some(ids[1]));
    assert_eq!(t.secondary, None);
    assert_eq!(t.view, Some(Arrangement::Workspace));
    let actions = windows.take_actions();
    assert!(actions.contains(&Action::Enter { window: ids[1] }));
    assert!(actions.contains(&Action::Leave { window: ids[2] }));
    assert!(actions.contains(&Action::Leave { window: ids[0] }));
}

#[test]
fn tap_keeps_registry_on_miss() {
    let output = output();
    let (mut windows, _) = overview_registry(2);
    windows.on_touch_start(Point { x: 20, y: 20 }, rectangle(10, 10, 50, 50), 2000);
    assert!(overview(&windows).hold_start.is_some());
    windows.take_actions();
    windows.on_tap(&output, Point { x: 90, y: 90 }, rectangle(10, 10, 50, 50), 2001);
    assert!(overview(&windows).hold_start.is_none());
    assert!(windows.transaction().is_none());
    assert!(windows.take_actions().is_empty());
}

#[test]
fn bottom_drop_keeps_primary_distinct() {
    let output = output();
    let (mut windows, ids) = overview_registry(3);
    windows.on_touch_start(Point { x: 0, y: 0 }, rectangle(0, 0, 0, 0), 2000);
    windows.on_drag(&output, Point { x: -250, y: 0 }, 2001);
    windows.on_drag_release(&output, 2002);
    // Focus moved to the second window, which is the current secondary.
    windows.on_touch_start(Point { x: 20, y: 20 }, rectangle(10, 10, 50, 50), 3000);
    windows.refresh(&output, 3000 + HOLD_DURATION_MS);
    windows.on_drag(&output, Point { x: 20, y: 150 }, 4500);
    windows.on_drag_release(&output, 4600);
    let t = windows.transaction().unwrap();
    assert_eq!(t.secondary, Some(ids[0]));
    assert_eq!(t.primary, Some(ids[2]));
    assert_ne!(t.primary, t.secondary);
}
