use catacomb::overview_x_position;

#[test]
fn overview_position() {
    assert_eq!(overview_x_position(50, 50, 100, 50, -2), 6);
    assert_eq!(overview_x_position(50, 50, 100, 50, -1), 13);
    assert_eq!(overview_x_position(50, 50, 100, 50, 0), 25);
    assert_eq!(overview_x_position(50, 50, 100, 50, 1), 37);
    assert_eq!(overview_x_position(50, 50, 100, 50, 2), 44);

    assert_eq!(overview_x_position(50, 75, 100, 50, -2), 2);
    assert_eq!(overview_x_position(50, 75, 100, 50, -1), 6);
    assert_eq!(overview_x_position(50, 75, 100, 50, 0), 25);
    assert_eq!(overview_x_position(50, 75, 100, 50, 1), 44);
    assert_eq!(overview_x_position(50, 75, 100, 50, 2), 48);

    assert_eq!(overview_x_position(75, 75, 100, 50, -2), 1);
    assert_eq!(overview_x_position(75, 75, 100, 50, -1), 3);
    assert_eq!(overview_x_position(75, 75, 100, 50, 0), 13);
    assert_eq!(overview_x_position(75, 75, 100, 50, 1), 47);
    assert_eq!(overview_x_position(75, 75, 100, 50, 2), 49);
}

#[test]
fn overview_position_far_and_flat() {
    // Without shrinking every background window keeps the full gap.
    assert_eq!(overview_x_position(50, 0, 100, 50, -13), 25);
    assert_eq!(overview_x_position(50, 0, 100, 50, 13), 25);
    // Full shrinking leaves no gap beyond the focused window.
    assert_eq!(overview_x_position(50, 100, 100, 50, -1), 0);
    assert_eq!(overview_x_position(50, 100, 100, 50, 1), 50);
    // Far out the gap rounds to nothing.
    assert_eq!(overview_x_position(50, 50, 100, 50, -13), 0);
    assert_eq!(overview_x_position(50, 50, 1000, 500, 13), 500);
    // The largest output width.
    assert_eq!(overview_x_position(0, 50, i32::MAX, 0, 0), 1073741824);
}
