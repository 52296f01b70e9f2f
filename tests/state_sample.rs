use std::sync::Arc;
use tracker_voice::state_sample::StateSample;
use tracker_voice::waveform::{LoopMode, Waveform};

fn wave(data: Vec<i16>, mode: LoopMode, start: u32, length: u32) -> Arc<Waveform> {
    Arc::new(Waveform::new(data, mode, start, length, 16, 16384, 32768, 0, 0).unwrap())
}

fn tuned(relative_note: i8, finetune: i16) -> StateSample {
    let w = Waveform::new(vec![0, 1], LoopMode::No, 0, 0, 8, 0, 0, relative_note, finetune).unwrap();
    StateSample::new(Arc::new(w), 44100)
}

fn pull(s: &mut StateSample, n: usize) -> Vec<Option<i16>> {
    (0..n).map(|_| s.next()).collect()
}

#[test]
fn no_loop_plays_each_frame_then_disables() {
    let mut s = StateSample::new(wave(vec![100, 200, 300, 400], LoopMode::No, 0, 0), 1);
    s.set_step(256);
    assert_eq!(pull(&mut s, 4), vec![Some(100), Some(200), Some(300), Some(400)]);
    assert!(!s.is_enabled());
    assert_eq!(s.next(), None);
    assert_eq!(s.next(), None);
}

#[test]
fn half_step_interpolates_and_tail_fades_to_zero() {
    let mut s = StateSample::new(wave(vec![100, 200, 300, 400], LoopMode::No, 0, 0), 1);
    s.set_step(128);
    let got = pull(&mut s, 9);
    let want: Vec<Option<i16>> = vec![100, 150, 200, 250, 300, 350, 400, 200]
        .into_iter()
        .map(Some)
        .chain(std::iter::once(None))
        .collect();
    assert_eq!(got, want);
}

#[test]
fn interpolation_rounds_down() {
    let mut s = StateSample::new(wave(vec![0, -1], LoopMode::No, 0, 0), 1);
    s.set_step(128);
    assert_eq!(pull(&mut s, 2), vec![Some(0), Some(-1)]);
}

#[test]
fn forward_loop_wraps_when_step_exceeds_loop() {
    let data: Vec<i16> = (0..8).map(|i| i * 10).collect();
    let mut s = StateSample::new(wave(data, LoopMode::Forward, 2, 3), 1);
    s.set_step(7 * 256);
    assert_eq!(pull(&mut s, 4), vec![Some(0), Some(40), Some(20), Some(30)]);
    assert!(s.is_enabled());
}

#[test]
fn forward_loop_keeps_playing() {
    let mut s = StateSample::new(wave(vec![1, 2, 3], LoopMode::Forward, 0, 3), 1);
    s.set_step(256);
    let got = pull(&mut s, 7);
    assert_eq!(got, vec![Some(1), Some(2), Some(3), Some(1), Some(2), Some(3), Some(1)]);
}

#[test]
fn ping_pong_turns_at_both_ends() {
    let mut s = StateSample::new(wave(vec![0, 10, 20, 30, 40, 50], LoopMode::PingPong, 1, 3), 1);
    s.set_step(256);
    let got = pull(&mut s, 9);
    let want: Vec<Option<i16>> =
        vec![0, 10, 20, 30, 40, 30, 20, 10, 20].into_iter().map(Some).collect();
    assert_eq!(got, want);
}

#[test]
fn ping_pong_backward_whole_frames_are_exact() {
    let mut s = StateSample::new(wave(vec![0, 10, 20, 30, 40, 50], LoopMode::PingPong, 0, 5), 1);
    s.set_step(256);
    let got = pull(&mut s, 8);
    let want: Vec<Option<i16>> =
        vec![0, 10, 20, 30, 40, 50, 40, 30].into_iter().map(Some).collect();
    assert_eq!(got, want);
}

#[test]
fn ping_pong_backward_blends_toward_previous_frame() {
    let mut s = StateSample::new(wave(vec![0, 10, 20, 30, 40, 50], LoopMode::PingPong, 0, 5), 2);
    s.set_step(256);
    let got = pull(&mut s, 13);
    let want: Vec<Option<i16>> = vec![0, 5, 10, 15, 20, 25, 30, 35, 40, 40, 50, 35, 40]
        .into_iter()
        .map(Some)
        .collect();
    assert_eq!(got, want);
}

#[test]
fn reset_rewinds_a_disabled_cursor() {
    let mut s = StateSample::new(wave(vec![7, 8], LoopMode::No, 0, 0), 1);
    s.set_step(256);
    assert_eq!(pull(&mut s, 3), vec![Some(7), Some(8), None]);
    s.reset();
    assert!(s.is_enabled());
    assert_eq!(s.next(), Some(7));
}

#[test]
fn reset_restores_forward_direction() {
    let mut s = StateSample::new(wave(vec![0, 10, 20, 30], LoopMode::PingPong, 0, 2), 1);
    s.set_step(256);
    pull(&mut s, 3);
    s.reset();
    assert_eq!(pull(&mut s, 2), vec![Some(0), Some(10)]);
}

#[test]
fn empty_waveform_starts_disabled() {
    let mut s = StateSample::new(wave(vec![], LoopMode::No, 0, 0), 48000);
    assert!(!s.is_enabled());
    s.reset();
    assert!(!s.is_enabled());
    assert_eq!(s.next(), None);
}

#[test]
fn set_position_seeks_or_disables() {
    let mut s = StateSample::new(wave(vec![5, 6, 7], LoopMode::No, 0, 0), 1);
    s.set_position(2);
    assert_eq!(s.next(), Some(7));
    s.set_position(3);
    assert!(!s.is_enabled());
    s.set_position(1);
    assert!(s.is_enabled());
    s.disable();
    assert_eq!(s.next(), None);
}

#[test]
fn whole_frame_position_is_exact() {
    let mut s = StateSample::new(wave(vec![-300, 900, 17], LoopMode::Forward, 0, 3), 1);
    s.set_position(1);
    assert_eq!(s.next(), Some(900));
}

#[test]
fn step_is_frequency_over_rate() {
    let mut s = StateSample::new(wave(vec![0, 100, 200, 300, 400], LoopMode::No, 0, 0), 2);
    s.set_step(256);
    assert_eq!(pull(&mut s, 3), vec![Some(0), Some(50), Some(100)]);
}

#[test]
fn queries_read_the_waveform() {
    let w = Waveform::new(vec![1], LoopMode::No, 0, 0, 8, 100, 200, -3, 40).unwrap();
    let s = StateSample::new(Arc::new(w), 8000);
    assert_eq!(s.bits(), 8);
    assert_eq!(s.get_panning(), 100);
    assert_eq!(s.get_volume(), 200);
    assert_eq!(s.get_finetune(), 40);
    assert_eq!(s.waveform().data, vec![1]);
}

#[test]
fn finetuned_note_uses_override_when_non_zero() {
    let s = tuned(2, 10);
    assert_eq!(s.get_finetuned_note(0), 2 * 256 + 10);
    assert_eq!(s.get_finetuned_note(-5), 2 * 256 - 5);
}

#[test]
fn c4_rate_linear_reference() {
    assert_eq!(tuned(0, 0).get_sample_c4_rate(true), Some(8372 << 8));
}

#[test]
fn c4_rate_linear_octave_up() {
    assert_eq!(tuned(12, 0).get_sample_c4_rate(true), Some(2 * (8372 << 8)));
}

#[test]
fn c4_rate_amiga_is_some() {
    let f = tuned(0, 0).get_sample_c4_rate(false).unwrap();
    assert!(f > 0);
}

#[test]
fn c4_rate_out_of_range_is_none() {
    assert_eq!(tuned(71, 0).get_sample_c4_rate(true), None);
    assert_eq!(tuned(127, 0).get_sample_c4_rate(false), None);
    assert_eq!(tuned(-1, 0).get_sample_c4_rate(true), None);
    assert_eq!(tuned(-128, 0).get_sample_c4_rate(false), None);
}

#[test]
fn c4_rate_range_edges_are_some() {
    assert!(tuned(70, 0).get_sample_c4_rate(true).is_some());
    assert!(tuned(0, 0).get_sample_c4_rate(false).is_some());
}

#[test]
fn waveform_rejects_bad_loops_and_finetune() {
    assert!(Waveform::new(vec![1, 2], LoopMode::Forward, 0, 0, 8, 0, 0, 0, 0).is_none());
    assert!(Waveform::new(vec![1, 2], LoopMode::PingPong, 1, 2, 8, 0, 0, 0, 0).is_none());
    assert!(Waveform::new(vec![1, 2], LoopMode::No, 1, 2, 8, 0, 0, 0, 0).is_some());
    assert!(Waveform::new(vec![1, 2], LoopMode::No, 0, 0, 8, 0, 0, 0, 257).is_none());
    assert!(Waveform::new(vec![1, 2], LoopMode::Forward, 1, 1, 8, 0, 0, 0, -256).is_some());
}
