use sovits::decoder::{pred_semantic, refer_frames, y_length, DecodeLoop, Step, EOS_TOKEN, MAX_DECODE_STEPS};

#[test]
fn loop_stops_on_end_token() {
    let mut l = DecodeLoop::new(10, 4);
    assert_eq!(l.mask_columns(), 15);
    assert_eq!(l.on_step(3, 5), Step::Continue);
    assert_eq!(l.mask_columns(), 16);
    assert_eq!(l.on_step(EOS_TOKEN, 7), Step::Done(2));
    let mut l = DecodeLoop::new(1, 1);
    assert_eq!(l.on_step(7, EOS_TOKEN), Step::Done(1));
}

#[test]
fn loop_stops_at_step_limit() {
    let mut l = DecodeLoop::new(1, 1);
    let mut continued = 0;
    loop {
        match l.on_step(1, 2) {
            Step::Continue => continued += 1,
            Step::LimitExceeded => break,
            Step::Done(_) => panic!("no end token was given"),
        }
    }
    assert_eq!(continued, MAX_DECODE_STEPS - 1);
    assert_eq!(l.steps, MAX_DECODE_STEPS);
}

#[test]
fn tokens_and_lengths_for_the_vocoder() {
    let y = vec![5, 6, 7, 8, 1024];
    assert_eq!(pred_semantic(&y, 3), vec![7, 8, 0]);
    assert_eq!(pred_semantic(&y, 0), Vec::<i64>::new());
    assert_eq!(y_length(3), 6);
    assert_eq!(refer_frames(640), 1);
    assert_eq!(refer_frames(32000), 50);
    assert_eq!(refer_frames(1279), 1);
}
