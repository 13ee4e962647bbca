use simulation::add_modulo;
use simulation::game_of_life;
use simulation::game_of_life::State::Alive;
use simulation::rainbow_averaging;
use simulation::two_color_life;
use simulation::Frame;
use simulation::FrameError;
use simulation::Square;

#[test]
fn advance_preserves_dimensions() {
    let mut frame = Frame::<game_of_life::State>::new(3, 5).unwrap();
    frame.set(1, 1, Alive);
    frame.set(2, 4, Alive);
    let next = frame.next_frame(game_of_life::rule);
    assert_eq!(next.width(), 3);
    assert_eq!(next.height(), 5);
}

#[test]
fn offset_zero_is_anchor() {
    let mut frame = Frame::<i32>::new(4, 3).unwrap();
    for x in 0..4 {
        for y in 0..3 {
            frame.set(x, y, (10 * x + y) as i32);
        }
    }
    for x in 0..4 {
        for y in 0..3 {
            let square = Square { frame: &frame, point: (x, y) };
            assert_eq!(square.get(0, 0), frame.get(x, y));
            assert_eq!(square.coordinate(), (x, y));
        }
    }
}

#[test]
fn offset_wraps_toroidally() {
    let mut frame = Frame::<i32>::new(4, 3).unwrap();
    for x in 0..4 {
        for y in 0..3 {
            frame.set(x, y, (10 * x + y) as i32);
        }
    }
    for y in 0..3 {
        let square = Square { frame: &frame, point: (0, y) };
        // one step left of column 0 lands on the last column
        assert_eq!(square.get(-1, 0), frame.get(3, y));
    }
    // one step up from row 0 lands on the last row
    let square = Square { frame: &frame, point: (0, 0) };
    assert_eq!(square.get(0, -1), frame.get(0, 2));
}

#[test]
fn wrap_formula() {
    assert_eq!(add_modulo(0, -1, 10), 9);
    assert_eq!(add_modulo(9, 3, 10), 2);
    assert_eq!(add_modulo(4, 0, 10), 4);
    assert_eq!(add_modulo(4, -4, 10), 0);
}

#[test]
fn ortholinear_order() {
    let mut frame = Frame::<i32>::new(4, 4).unwrap();
    for x in 0..4 {
        for y in 0..4 {
            frame.set(x, y, (10 * x + y) as i32);
        }
    }
    let square = Square { frame: &frame, point: (2, 2) };
    // left, right, up, down
    assert_eq!(square.within_ortholinear(1), vec![12, 32, 21, 23]);
    // at distance 2 on a 4x4 frame the right offset wraps to column 0
    assert_eq!(square.within_ortholinear(2), vec![2, 2, 20, 20]);
}

#[test]
fn advance_is_deterministic() {
    let mut frame = Frame::<game_of_life::State>::new(4, 4).unwrap();
    frame.set(1, 0, Alive);
    frame.set(1, 1, Alive);
    frame.set(1, 2, Alive);
    let first = frame.next_frame(game_of_life::rule);
    let second = frame.next_frame(game_of_life::rule);
    assert_eq!(first, second);
    let first = game_of_life::advance(&frame);
    let second = game_of_life::advance(&frame);
    assert_eq!(first, second);
}

#[test]
fn advance_leaves_source_unchanged() {
    let build = || {
        let mut frame = Frame::<game_of_life::State>::new(4, 4).unwrap();
        frame.set(1, 0, Alive);
        frame.set(1, 1, Alive);
        frame.set(1, 2, Alive);
        frame
    };
    let frame = build();
    let snapshot = build();
    let _ = frame.next_frame(game_of_life::rule);
    assert_eq!(frame, snapshot);
}

#[test]
fn averaging_revives_with_mean_color() {
    let mut frame = Frame::<rainbow_averaging::State>::new(3, 3).unwrap();
    frame.set(1, 0, rainbow_averaging::State::Alive(3));
    frame.set(0, 1, rainbow_averaging::State::Alive(2));
    frame.set(2, 1, rainbow_averaging::State::Alive(1));
    let next = frame.next_frame(rainbow_averaging::rule);
    // the average of 3, 2 and 1 truncates to 2
    assert_eq!(*next.get(1, 1), rainbow_averaging::State::Alive(2));
}

#[test]
fn two_color_keeps_intensity_and_never_births() {
    // a 2x2 block survives on two live cardinal neighbors each, intensities kept
    let mut frame = Frame::<two_color_life::State>::new(4, 4).unwrap();
    frame.set(0, 0, two_color_life::State::Alive(7));
    frame.set(0, 1, two_color_life::State::Alive(9));
    frame.set(1, 0, two_color_life::State::Alive(11));
    frame.set(1, 1, two_color_life::State::Alive(13));
    let next = frame.next_frame(two_color_life::rule);
    assert_eq!(frame, next);

    // a dead cell with exactly three live cardinal neighbors stays dead
    let mut frame = Frame::<two_color_life::State>::new(5, 5).unwrap();
    frame.set(1, 2, two_color_life::State::Alive(1));
    frame.set(3, 2, two_color_life::State::Alive(1));
    frame.set(2, 1, two_color_life::State::Alive(1));
    let next = frame.next_frame(two_color_life::rule);
    assert_eq!(*next.get(2, 2), two_color_life::State::Dead);
}

#[test]
fn zero_dimension_rejected() {
    assert_eq!(Frame::<i32>::new(0, 5), Err(FrameError::ZeroDimension));
    assert_eq!(Frame::<i32>::new(5, 0), Err(FrameError::ZeroDimension));
    assert_eq!(Frame::<i32>::new(0, 0), Err(FrameError::ZeroDimension));
}

#[test]
fn iterator_visits_in_order_and_restarts() {
    let mut frame = Frame::<i32>::new(2, 3).unwrap();
    for x in 0..2 {
        for y in 0..3 {
            frame.set(x, y, (10 * x + y) as i32);
        }
    }
    let expected = vec![
        (0, 0, 0),
        (0, 1, 1),
        (0, 2, 2),
        (1, 0, 10),
        (1, 1, 11),
        (1, 2, 12),
    ];
    for _round in 0..2 {
        // a fresh iterator re-walks the frame from the origin
        let mut iter = frame.square_iterator();
        let mut seen = Vec::new();
        while let Some((x, y, value)) = iter.next() {
            seen.push((x, y, *value));
        }
        assert_eq!(seen, expected);
        assert_eq!(iter.next(), None);
    }
}
