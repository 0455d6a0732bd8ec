use dogwalk::render::clear_area;
use dogwalk::render::end_write;
use dogwalk::render::render_droppings_frame;
use dogwalk::render::render_sit_frame;
use dogwalk::render::render_walk_frame;
use dogwalk::render::start_write;
use dogwalk::render::write_multi_line_message_from_position;
use dogwalk::sprite::dog_frame_rows;
use dogwalk::sprite::droppings;
use dogwalk::walk::WalkState;

#[test]
fn the_prologue_saves_the_cursor_and_hides_it() {
    assert_eq!(start_write(), "\x1b[s\x1b[?25l");
}

#[test]
fn the_epilogue_restores_the_cursor_and_shows_it() {
    assert_eq!(end_write(), "\x1b[u\x1b[?25h");
}

#[test]
fn each_message_row_is_addressed_to_its_screen_row() {
    let msg = vec![String::from("hi"), String::from("yo")];
    let r = write_multi_line_message_from_position(5, 2, &msg);
    assert_eq!(r, "\x1b[2;5Hhi\x1b[3;5Hyo");
}

#[test]
fn cursor_addresses_use_plain_decimal() {
    let msg = vec![String::from("z")];
    let r = write_multi_line_message_from_position(123, 456, &msg);
    assert_eq!(r, "\x1b[456;123Hz");
}

#[test]
fn clearing_blanks_every_cell_of_the_rectangle() {
    let r = clear_area(1, 1, 2, 2);
    assert_eq!(r, "\x1b[1;1H \x1b[1;2H \x1b[2;1H \x1b[2;2H ");
}

#[test]
fn the_droppings_land_below_and_to_the_right() {
    let r = render_droppings_frame(3, 1);
    assert_eq!(r, "\x1b[6;5H\u{1f4a9}\x1b[u\x1b[?25h");
    assert_eq!(droppings(), "\u{1f4a9}");
}

#[test]
fn the_sitting_pose_is_drawn_row_by_row() {
    let r = render_sit_frame(7, 3);
    let expected = String::from("\x1b[s\x1b[?25l")
        + "\x1b[3;7H"
        + "\x1b[4;7H     ___"
        + "\x1b[5;7H _  / {(''o "
        + "\x1b[6;7H \\\\/   \\_` "
        + "\x1b[7;7H  /_)\u{203e}\\_)\\_)"
        + "\x1b[u\x1b[?25h";
    assert_eq!(r, expected);
}

#[test]
fn the_first_walking_frame_draws_the_whole_sprite() {
    let s = WalkState::new(2);
    let r = render_walk_frame(&s, 80);
    let expected = String::from("\x1b[s\x1b[?25l")
        + "\x1b[2;1H"
        + "\x1b[3;1H _      __ "
        + "\x1b[4;1H \\\\____{(''o "
        + "\x1b[5;1H  (     \\_` "
        + "\x1b[6;1H /_)-/_)_) "
        + "\x1b[u\x1b[?25h";
    assert_eq!(r, expected);
}

#[test]
fn a_later_frame_clears_the_previous_position_first() {
    let s = WalkState { x: 5, y: 1, frame: 1, has_pooped: false, prev: Some((4, 1)) };
    let r = render_walk_frame(&s, 80);
    let mut expected = String::from("\x1b[s\x1b[?25l");
    // the cleared rectangle: 12 columns from column 4, rows 2 through 4
    for row in 2..5 {
        for col in 4..16 {
            expected += &format!("\x1b[{};{}H ", row, col);
        }
    }
    expected += "\x1b[1;5H";
    expected += "\x1b[2;5H _      __ ";
    expected += "\x1b[3;5H \\\\____{(''o ";
    expected += "\x1b[4;5H  (     \\_` ";
    expected += "\x1b[5;5H  \\_)\\_)\\_) ";
    expected += "\x1b[u\x1b[?25h";
    assert_eq!(r, expected);
}

#[test]
fn a_frame_near_the_right_edge_is_trimmed_to_fit() {
    let s = WalkState { x: 5, y: 1, frame: 0, has_pooped: true, prev: None };
    // width 12, column 5: seven columns remain on screen
    let r = render_walk_frame(&s, 12);
    let expected = String::from("\x1b[s\x1b[?25l")
        + "\x1b[1;5H"
        + "\x1b[2;5H _     "
        + "\x1b[3;5H \\\\____"
        + "\x1b[4;5H  (    "
        + "\x1b[5;5H /_)-/_"
        + "\x1b[u\x1b[?25h";
    assert_eq!(r, expected);
}

#[test]
fn the_walking_poses_differ_only_in_the_legs() {
    let a = dog_frame_rows(0);
    let b = dog_frame_rows(1);
    assert_eq!(a.len(), 5);
    assert_eq!(b.len(), 5);
    assert_eq!(a[..4], b[..4]);
    assert_eq!(a[4], " /_)-/_)_) ");
    assert_eq!(b[4], "  \\_)\\_)\\_) ");
}
