use dogwalk::walk::pick_start_row;
use dogwalk::walk::WalkState;

#[test]
fn a_walk_starts_at_column_one() {
    let s = WalkState::new(3);
    assert_eq!(s.x, 1);
    assert_eq!(s.y, 3);
    assert_eq!(s.frame, 0);
    assert!(!s.has_pooped);
    assert!(s.prev.is_none());
}

#[test]
fn each_step_advances_one_column_and_remembers_the_old_position() {
    let mut s = WalkState::new(5);
    s.advance();
    assert_eq!(s.x, 2);
    assert_eq!(s.y, 5);
    assert_eq!(s.prev, Some((1, 5)));
    s.advance();
    assert_eq!(s.x, 3);
    assert_eq!(s.prev, Some((2, 5)));
}

#[test]
fn the_pose_toggles_every_fourth_column() {
    let mut s = WalkState::new(1);
    assert_eq!(s.frame, 0);
    s.advance(); // x = 2
    assert_eq!(s.frame, 0);
    s.advance(); // x = 3
    assert_eq!(s.frame, 0);
    s.advance(); // x = 4
    assert_eq!(s.frame, 1);
    s.advance(); // x = 5
    s.advance(); // x = 6
    s.advance(); // x = 7
    assert_eq!(s.frame, 1);
    s.advance(); // x = 8
    assert_eq!(s.frame, 0);
}

#[test]
fn the_walk_ends_once_the_column_passes_the_width() {
    let width: u16 = 4;
    let mut s = WalkState::new(2);
    let mut steps = 0;
    while !s.done(width) {
        s.advance();
        steps += 1;
    }
    // one step per column: columns 1..=4 are walked, then x == 5 ends it
    assert_eq!(steps, 4);
    assert_eq!(s.x, 5);
}

#[test]
fn the_dog_sits_once_just_past_the_middle() {
    let width: u16 = 10; // half, rounded up: 5
    let mut s = WalkState::new(1);
    while s.x <= 5 {
        assert!(!s.sit_due(width));
        s.advance();
    }
    assert_eq!(s.x, 6);
    assert!(s.sit_due(width));
    s.mark_pooped();
    assert!(!s.sit_due(width));
    s.advance();
    assert!(!s.sit_due(width));
}

#[test]
fn odd_widths_round_the_middle_up() {
    let width: u16 = 11; // half, rounded up: 6
    let mut s = WalkState::new(1);
    while s.x <= 6 {
        assert!(!s.sit_due(width));
        s.advance();
    }
    assert_eq!(s.x, 7);
    assert!(s.sit_due(width));
}

#[test]
fn the_start_row_leaves_room_for_the_sprite_and_the_ground() {
    for _ in 0..100 {
        let r = pick_start_row(20);
        assert!(1 <= r && r <= 14);
    }
    // the smallest height the walk accepts
    for _ in 0..10 {
        assert_eq!(pick_start_row(7), 1);
    }
}
