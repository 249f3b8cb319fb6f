use catacomb::{
    damage_for_buffer_age, has_damage, BufferChange, Damage, ImportStep, Rect, Size, SurfaceBuffer, Transform,
    MAX_DAMAGE_AGE,
};

fn rect(x: i64, y: i64, w: i64, h: i64) -> Rect {
    Rect { x, y, w, h }
}

#[test]
fn new_damage_is_empty() {
    let damage = Damage::new();
    assert!(!damage.damaged());
    assert!(damage.buffer().is_empty());
    assert_eq!(damage.physical(), &[Rect::empty(); MAX_DAMAGE_AGE][..]);
}

#[test]
fn add_merges_into_newest_slot() {
    let mut damage = Damage::new();
    damage.add(rect(1, 1, 2, 2), rect(10, 10, 5, 5));
    damage.add(rect(3, 3, 1, 1), rect(20, 0, 5, 5));
    assert!(damage.damaged());
    assert_eq!(damage.buffer(), &[rect(1, 1, 2, 2), rect(3, 3, 1, 1)][..]);
    // The newest slot starts empty at the origin, which the union takes in.
    assert_eq!(damage.physical()[0], rect(0, 0, 25, 15));
    assert_eq!(damage.physical()[1], Rect::empty());
}

#[test]
fn clear_rotates_history() {
    let mut damage = Damage::new();
    damage.add(rect(0, 0, 1, 1), rect(0, 0, 8, 8));
    damage.clear();
    assert!(!damage.damaged());
    assert!(damage.buffer().is_empty());
    assert_eq!(damage.physical()[0], Rect::empty());
    assert_eq!(damage.physical()[1], rect(0, 0, 8, 8));
}

#[test]
fn repeated_clear_empties_history() {
    for n in [2usize, 3, 7] {
        let mut damage = Damage::new();
        damage.add(rect(0, 0, 1, 1), rect(4, 4, 8, 8));
        for _ in 0..n {
            damage.clear();
        }
        assert!(damage.physical().iter().all(|r| *r == Rect::empty()));
        assert!(!damage.damaged());
    }
}

#[test]
fn buffer_age_selects_history() {
    let history = [rect(0, 0, 1, 1), rect(0, 0, 2, 2)];
    let full = rect(0, 0, 100, 100);
    assert_eq!(damage_for_buffer_age(&history, 1, full), vec![rect(0, 0, 1, 1)]);
    assert_eq!(damage_for_buffer_age(&history, 2, full), history.to_vec());
}

#[test]
fn buffer_age_falls_back_to_full_damage() {
    let history = [rect(0, 0, 1, 1), rect(0, 0, 2, 2)];
    let full = rect(0, 0, 100, 100);
    assert_eq!(damage_for_buffer_age(&history, 0, full), vec![full]);
    assert_eq!(damage_for_buffer_age(&history, 3, full), vec![full]);
    assert_eq!(damage_for_buffer_age(&history, u8::MAX, full), vec![full]);
}

#[test]
fn empty_damage_skips_draw() {
    assert!(!has_damage(&[Rect::empty(), Rect::empty()]));
    assert!(!has_damage(&[]));
    assert!(has_damage(&[Rect::empty(), rect(0, 0, 1, 0)]));
    assert!(has_damage(&[rect(5, 0, 0, 0)]));
}

#[test]
fn merge_and_contains() {
    let a = rect(0, 0, 10, 10);
    let b = rect(-5, 5, 5, 20);
    assert_eq!(a.merge(&b), rect(-5, 0, 15, 25));
    assert!(a.contains(0, 0));
    assert!(a.contains(9, 9));
    assert!(!a.contains(10, 5));
    assert!(!a.contains(-1, 5));
}

#[test]
fn surface_buffer_lifecycle() {
    let mut surface: SurfaceBuffer<u32, &str> = SurfaceBuffer::new();
    assert!(surface.buffer().is_none() && surface.texture().is_none());
    assert_eq!(surface.import_step(), ImportStep::Skip);
    assert_eq!(surface.scale(), 1);
    surface.update_buffer(BufferChange::NewBuffer {
        buffer: 7,
        size: Size { w: 10, h: 20 },
        transform: Transform::Rotate90,
        scale: 2,
    });
    assert_eq!(surface.buffer(), Some(&7));
    assert_eq!(surface.size(), Size { w: 10, h: 20 });
    assert_eq!(surface.transform(), Transform::Rotate90);
    assert_eq!(surface.scale(), 2);
    assert_eq!(surface.import_step(), ImportStep::Import);
    surface.add_damage(rect(0, 0, 4, 4), rect(0, 0, 8, 8));
    assert!(surface.damage().damaged());

    // A successful import caches the texture, releases a shared-memory buffer, and closes
    // the damage once.
    surface.imported("texture", true);
    assert_eq!(surface.texture(), Some(&"texture"));
    assert_eq!(surface.import_step(), ImportStep::Reuse);
    assert!(surface.buffer().is_none());
    assert!(!surface.damage().damaged());
    assert_eq!(surface.damage().physical(), &[Rect::empty(), rect(0, 0, 8, 8)][..]);

    // A new buffer invalidates the texture.
    surface.update_buffer(BufferChange::NewBuffer {
        buffer: 8,
        size: Size { w: 10, h: 20 },
        transform: Transform::Normal,
        scale: 1,
    });
    assert!(surface.texture().is_none());
    surface.import_failed();
    assert!(surface.buffer().is_none());

    // Removal resets everything.
    surface.imported("again", false);
    surface.update_buffer(BufferChange::Removed);
    assert!(surface.texture().is_none());
    assert_eq!(surface.size(), Size { w: 0, h: 0 });
    assert_eq!(surface.damage().physical(), &[Rect::empty(), Rect::empty()][..]);
}
