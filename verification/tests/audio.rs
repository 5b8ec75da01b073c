use binaural::audio::Channel;
use binaural::audio::FrameCursor;

#[test]
fn yields_interleaved_frames_in_order() {
    let mut cursor = FrameCursor::new();
    let steps: Vec<_> = (0..4).map(|_| cursor.advance()).collect();
    assert_eq!(steps[0].channel, Channel::Left);
    assert_eq!(steps[1].channel, Channel::Right);
    assert_eq!(steps[0].frame, 0);
    assert_eq!(steps[1].frame, 0);
    assert_eq!(steps[2].frame, 1);
    assert_eq!(steps[3].frame, 1);
    assert_eq!(cursor.frame, 2);
}

#[test]
fn draws_one_noise_sample_per_frame() {
    let mut cursor = FrameCursor::new();
    let left = cursor.advance();
    let right = cursor.advance();
    assert!(left.draws_noise);
    assert!(!right.draws_noise);
    assert_eq!(left.frame, right.frame);
}
