use tudi::AbsoluteDirection;
use tudi::AbsoluteDirection::East;
use tudi::AbsoluteDirection::North;
use tudi::AbsoluteDirection::South;
use tudi::AbsoluteDirection::West;
use tudi::RelativeDirection::Left;
use tudi::RelativeDirection::Right;

#[test]
pub fn increment_test() {
    let mut dir = AbsoluteDirection::North;
    let mut decrement_dir = AbsoluteDirection::North;
    for _ in 0..4 {
        dir = dir.increment();
        decrement_dir = decrement_dir.decrement();
    }
    assert_eq!(dir, AbsoluteDirection::North);
    assert_eq!(decrement_dir, AbsoluteDirection::North);
}

#[test]
pub fn simple_direction_test() {
    let mut dir = AbsoluteDirection::North;
    dir = dir.increment();
    assert_eq!(dir, AbsoluteDirection::West);
}

#[test]
pub fn simple_direction_test_two() {
    let dirs = [North, South, East, West];
    for dir in dirs {
        let mut left_dir = dir;
        // incrementing three times one way is the same as incrementing one
        // time the other way.
        left_dir = left_dir.increment();
        left_dir = left_dir.increment();
        left_dir = left_dir.increment();
        let mut right_dir = dir;
        right_dir = right_dir.decrement();
        assert_eq!(left_dir, right_dir);
    }
}

#[test]
pub fn inverse_test() {
    assert_eq!(North.inverse(), South);
    assert_eq!(East.inverse(), West);
    assert_eq!(West.inverse(), East);
}

#[test]
pub fn to_relative_direction_quarter_turns() {
    assert_eq!(AbsoluteDirection::to_relative_direction(&North, &East), Some(Right));
    assert_eq!(AbsoluteDirection::to_relative_direction(&East, &North), Some(Left));
    assert_eq!(AbsoluteDirection::to_relative_direction(&North, &South), None);
    assert_eq!(AbsoluteDirection::to_relative_direction(&North, &West), Some(Left));
}
