use simulation::Frame;

#[test]
fn frame_frame_init() {
    let frame = Frame::<i32>::new(10, 10).unwrap();
    assert_eq!(frame.width(), 10);
    assert_eq!(frame.height(), 10);
    for x in 0..9 {
        for y in 0..9 {
            assert_eq!(*frame.get(x, y), i32::default());
        }
    }
}

#[test]
fn frame_frame_mut() {
    let mut frame = Frame::<i32>::new(2, 2).unwrap();
    *frame.get_mut(1, 1) = 1;
    assert_eq!(*frame.get(1, 1), 1)
}

#[test]
fn frame_frame_next() {
    let mut frame1 = Frame::<i32>::new(2, 2).unwrap();

    let frame2 = frame1.next_frame(|sq| sq.get(0, 0) + 1);

    let val = i32::default() + 1;
    *frame1.get_mut(0, 0) = val;
    *frame1.get_mut(0, 1) = val;
    *frame1.get_mut(1, 0) = val;
    *frame1.get_mut(1, 1) = val;

    assert_eq!(frame1, frame2);
}
