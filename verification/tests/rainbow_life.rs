use simulation::rainbow_life::mode;
use simulation::rainbow_life::rule;
use simulation::rainbow_life::State;
use simulation::rainbow_life::State::{Blue, Dead, Green, Red};
use simulation::Frame;

#[test]
fn mode_test() {
    assert_eq!(mode(&[Red, Red, Red]), Red);
    assert_eq!(mode(&[Red, Red, Blue]), Red);
    assert_eq!(mode(&[Red, Red, Blue, Green]), Red);
    assert_eq!(mode(&[Blue, Green, Red, Green, Blue, Red, Blue]), Blue);
    assert!(mode(&[Red, Blue, Green]) != Dead);
}

#[test]
fn still_square_one_color() {
    // Make a square which shouldn't move in game of life
    let mut frame = Frame::<State>::new(3, 3).unwrap();
    *frame.get_mut(0, 0) = Red;
    *frame.get_mut(0, 1) = Red;
    *frame.get_mut(1, 0) = Red;
    *frame.get_mut(1, 1) = Red;

    let frame_new = frame.next_frame(rule);

    assert_eq!(frame, frame_new);
}

#[test]
fn enemy_neighbors_excluded() {
    // A red cell flanked by its enemy color on two sides counts no friendly
    // neighbor and dies, where two green neighbors would keep it alive.
    let mut hostile = Frame::<State>::new(4, 4).unwrap();
    hostile.set(1, 1, Red);
    hostile.set(1, 0, Blue);
    hostile.set(1, 2, Blue);
    let next = hostile.next_frame(rule);
    assert_eq!(*next.get(1, 1), Dead);

    let mut friendly = Frame::<State>::new(4, 4).unwrap();
    friendly.set(1, 1, Red);
    friendly.set(1, 0, Green);
    friendly.set(1, 2, Green);
    let next = friendly.next_frame(rule);
    assert_eq!(*next.get(1, 1), Red);
}

#[test]
fn birth_takes_majority_color() {
    // A dead cell with exactly three live cardinal neighbors, two green and
    // one red, revives as green: the strict mode of its live neighbors.
    let mut frame = Frame::<State>::new(5, 5).unwrap();
    frame.set(1, 2, Green);
    frame.set(3, 2, Green);
    frame.set(2, 1, Red);
    let next = frame.next_frame(rule);
    assert_eq!(*next.get(2, 2), Green);
}
