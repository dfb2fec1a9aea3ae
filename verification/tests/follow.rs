use pathfinder::follow::{
    choose_angle, direction_from_ray, row_line_cols, tally_angles, AngleChoice, Direction,
};
use pathfinder::mask::Mask;
use std::collections::HashSet;

fn mask(cols: i32, rows: i32, lines: &[usize]) -> Mask {
    let mut pixels = vec![0u8; (cols * rows) as usize];
    for at in lines {
        pixels[*at] = 255;
    }
    Mask::new(cols, rows, pixels).unwrap()
}

#[test]
fn clear_ray_goes_straight() {
    let left = mask(10, 10, &[]);
    let right = mask(10, 10, &[]);
    assert_eq!(direction_from_ray(&left, &right, &vec![85, 75, 65, 55], 200), Direction::Straight);
    assert_eq!(direction_from_ray(&left, &right, &vec![], 200), Direction::Straight);
}

#[test]
fn left_line_turns_right() {
    let left = mask(10, 10, &[65]);
    let right = mask(10, 10, &[]);
    assert_eq!(direction_from_ray(&left, &right, &vec![85, 75, 65, 55], 200), Direction::Right);
}

#[test]
fn right_line_turns_left() {
    let left = mask(10, 10, &[]);
    let right = mask(10, 10, &[75]);
    assert_eq!(direction_from_ray(&left, &right, &vec![85, 75, 65, 55], 200), Direction::Left);
}

#[test]
fn nearest_line_decides() {
    let left = mask(10, 10, &[65]);
    let right = mask(10, 10, &[75]);
    assert_eq!(direction_from_ray(&left, &right, &vec![85, 75, 65, 55], 200), Direction::Left);
    let left = mask(10, 10, &[75]);
    let right = mask(10, 10, &[75]);
    assert_eq!(direction_from_ray(&left, &right, &vec![85, 75, 65, 55], 200), Direction::Right);
}

#[test]
fn line_beyond_the_distance_is_not_seen() {
    let left = mask(10, 10, &[55]);
    let right = mask(10, 10, &[]);
    let ray = vec![85, 75, 65, 55];
    assert_eq!(direction_from_ray(&left, &right, &ray, 5), Direction::Right);
    assert_eq!(direction_from_ray(&left, &right, &ray, 4), Direction::Straight);
    assert_eq!(direction_from_ray(&left, &right, &ray, 0), Direction::Straight);
}

#[test]
fn only_the_line_value_counts() {
    let mut pixels = vec![0u8; 100];
    pixels[75] = 254;
    let left = Mask::new(10, 10, pixels).unwrap();
    let right = mask(10, 10, &[]);
    assert_eq!(direction_from_ray(&left, &right, &vec![85, 75, 65], 200), Direction::Straight);
}

#[test]
fn points_outside_the_masks_are_passed_over() {
    let left = mask(10, 10, &[5]);
    let right = mask(10, 10, &[]);
    assert_eq!(direction_from_ray(&left, &right, &vec![150, -5, 5], 200), Direction::Right);
}

#[test]
fn straight_chooses_the_angle() {
    let mut seen = HashSet::new();
    assert_eq!(choose_angle(0, &mut seen, Direction::Straight), AngleChoice::Chosen(0));
    assert_eq!(choose_angle(-425, &mut seen, Direction::Straight), AngleChoice::Chosen(-425));
    assert!(seen.is_empty());
}

#[test]
fn turns_step_by_two_and_a_half_degrees() {
    let mut seen = HashSet::new();
    assert_eq!(choose_angle(0, &mut seen, Direction::Right), AngleChoice::Next(25));
    assert_eq!(choose_angle(25, &mut seen, Direction::Right), AngleChoice::Next(50));
    assert_eq!(choose_angle(50, &mut seen, Direction::Right), AngleChoice::Next(75));
    assert_eq!(seen, HashSet::from([2, 5, 7]));
    let mut seen = HashSet::new();
    assert_eq!(choose_angle(0, &mut seen, Direction::Left), AngleChoice::Next(-25));
    assert_eq!(choose_angle(-25, &mut seen, Direction::Left), AngleChoice::Next(-50));
    assert_eq!(seen, HashSet::from([-2, -5]));
}

#[test]
fn angle_tried_before_is_chosen() {
    let mut seen = HashSet::new();
    assert_eq!(choose_angle(0, &mut seen, Direction::Right), AngleChoice::Next(25));
    assert_eq!(choose_angle(25, &mut seen, Direction::Left), AngleChoice::Next(0));
    assert_eq!(choose_angle(0, &mut seen, Direction::Right), AngleChoice::Chosen(25));
    assert_eq!(seen, HashSet::from([2, 0]));
}

#[test]
fn whole_degrees_round_toward_zero() {
    let mut seen = HashSet::from([0]);
    assert_eq!(choose_angle(25, &mut seen, Direction::Left), AngleChoice::Chosen(0));
    assert_eq!(choose_angle(-30, &mut seen, Direction::Right), AngleChoice::Chosen(-5));
    assert_eq!(choose_angle(-16, &mut seen, Direction::Right), AngleChoice::Chosen(9));
    assert_eq!(choose_angle(-15, &mut seen, Direction::Right), AngleChoice::Next(10));
}

#[test]
fn limits_are_chosen() {
    let mut seen = HashSet::new();
    assert_eq!(choose_angle(900, &mut seen, Direction::Right), AngleChoice::Chosen(900));
    assert_eq!(choose_angle(925, &mut seen, Direction::Right), AngleChoice::Chosen(900));
    assert_eq!(choose_angle(-900, &mut seen, Direction::Left), AngleChoice::Chosen(-900));
    assert_eq!(choose_angle(-925, &mut seen, Direction::Left), AngleChoice::Chosen(-900));
    assert_eq!(choose_angle(875, &mut seen, Direction::Right), AngleChoice::Next(900));
    assert_eq!(choose_angle(900, &mut seen, Direction::Left), AngleChoice::Next(875));
    assert_eq!(choose_angle(890, &mut seen, Direction::Right), AngleChoice::Next(915));
}

#[test]
fn tally_of_nothing_is_zero() {
    assert_eq!(tally_angles(&vec![]), 0);
}

#[test]
fn tally_selects_the_most_common_whole_degrees() {
    assert_eq!(tally_angles(&vec![25]), 20);
    assert_eq!(tally_angles(&vec![50, 25, 50]), 50);
    assert_eq!(tally_angles(&vec![50, 25, 27, 50, 29]), 20);
    assert_eq!(tally_angles(&vec![-25, -22, 75]), -20);
    assert_eq!(tally_angles(&vec![-5, 5, 9, 100]), 0);
}

#[test]
fn tally_of_a_tie_is_one_of_the_tied() {
    let angle = tally_angles(&vec![50, 25, 50, 25]);
    assert!(angle == 50 || angle == 20);
}

#[test]
fn row_without_a_line_has_no_columns() {
    assert!(row_line_cols(&mask(8, 1, &[])).is_empty());
    assert!(row_line_cols(&Mask::new(0, 0, vec![]).unwrap()).is_empty());
    assert!(row_line_cols(&Mask::new(3, 1, vec![1, 254, 7]).unwrap()).is_empty());
}

#[test]
fn row_gives_the_columns_of_its_line_pixels() {
    assert_eq!(row_line_cols(&mask(8, 1, &[0, 3, 4, 7])), vec![0, 3, 4, 7]);
    assert_eq!(row_line_cols(&Mask::new(4, 1, vec![255, 0, 254, 255]).unwrap()), vec![0, 3]);
    assert_eq!(row_line_cols(&mask(5, 1, &[0, 1, 2, 3, 4])), vec![0, 1, 2, 3, 4]);
}
