use catacomb::{decoration_pixels, Layer, Layers, Point, Rectangle, Size, Window};

fn placed(id: u64, x: i32, y: i32, w: i32, h: i32) -> Window {
    let mut window = Window::new(id, false);
    let mut actions = Vec::new();
    window.update_dimensions(Rectangle { loc: Point { x, y }, size: Size { w, h } }, &mut actions);
    window.apply_transaction();
    window
}

#[test]
fn layers_iterate_bottom_up() {
    let mut layers = Layers::new();
    layers.add(Layer::Overlay, 4);
    layers.add(Layer::Background, 1);
    layers.add(Layer::Top, 3);
    layers.add(Layer::Bottom, 2);
    layers.add(Layer::Background, 5);
    let ids: Vec<u64> = layers.iter().iter().map(|w| w.id()).collect();
    assert_eq!(ids, vec![1, 5, 2, 3, 4]);
}

#[test]
fn dead_layer_windows_removed_on_apply() {
    let mut layers = Layers::new();
    layers.add(Layer::Top, 1);
    layers.add(Layer::Top, 2);
    layers.add(Layer::Overlay, 3);
    layers.mark_dead(2);
    assert_eq!(layers.iter().len(), 3);
    layers.apply_transaction();
    let ids: Vec<u64> = layers.iter().iter().map(|w| w.id()).collect();
    assert_eq!(ids, vec![1, 3]);
}

#[test]
fn layer_windows_at_point() {
    // Freshly added windows have no area, so nothing is found.
    let mut layers = Layers::new();
    layers.add(Layer::Overlay, 1);
    layers.add(Layer::Background, 2);
    assert!(layers.foreground_window_at(Point { x: 0, y: 0 }).is_none());
    assert!(layers.background_window_at(Point { x: 0, y: 0 }).is_none());
    let window = placed(9, 0, 0, 10, 10);
    assert!(window.contains(Point { x: 9, y: 9 }));
    assert!(!window.contains(Point { x: 10, y: 0 }));
}

#[test]
fn decoration_colours() {
    // 6 by 5 pixels, title bar 3 high, borders 1 wide.
    let pixels = decoration_pixels(6, 5, 3, 1);
    assert_eq!(pixels.len(), 6 * 5 * 4);
    let at = |x: usize, y: usize| -> [u8; 4] {
        let i = (y * 6 + x) * 4;
        [pixels[i], pixels[i + 1], pixels[i + 2], pixels[i + 3]]
    };
    let border = [32, 32, 32, 255];
    let title = [64, 64, 64, 255];
    let background = [0, 0, 0, 255];
    // Top border, left and right borders.
    assert_eq!(at(2, 0), border);
    assert_eq!(at(0, 3), border);
    assert_eq!(at(5, 1), border);
    // Title bar row.
    assert_eq!(at(1, 1), title);
    assert_eq!(at(4, 1), title);
    // Border below the title bar.
    assert_eq!(at(2, 2), border);
    // Window area.
    assert_eq!(at(2, 3), background);
    // Bottom border.
    assert_eq!(at(3, 4), border);
}

#[test]
fn decoration_without_borders() {
    let pixels = decoration_pixels(2, 2, 1, 0);
    assert_eq!(pixels, vec![
        64, 64, 64, 255, 64, 64, 64, 255, 0, 0, 0, 255, 0, 0, 0, 255,
    ]);
    assert!(decoration_pixels(0, 3, 0, 0).is_empty());
}

#[test]
fn layer_frames_requested_bottom_up() {
    let mut layers = Layers::new();
    layers.add(Layer::Top, 7);
    layers.add(Layer::Background, 8);
    assert_eq!(layers.request_frames(), vec![8, 7]);
}
