use tundra::waveform::{
    EventStatus, PathOp, PathPoint, WaveForm, WaveFormState, ZOOM_LIMIT,
};

fn wave(samples: Vec<i16>) -> WaveForm {
    WaveForm { samples, bits_per_sample: 16, sample_rate: 44100, cache: None }
}

#[test]
fn downmix_of_constant_stereo_stream_is_constant() {
    for v in [0i16, 1, -1, 1234, -20000, 20000, i16::MAX, i16::MIN] {
        let stream = vec![v; 16];
        let w = WaveForm::from_interleaved(&stream, 2, 48000);
        assert_eq!(w.samples, vec![v; 8]);
        assert_eq!(w.sample_rate, 48000);
        assert_eq!(w.bits_per_sample, 16);
    }
}

#[test]
fn downmix_averages_each_frame_toward_zero() {
    let stream = vec![1i16, 2, 3, 4, -1, -2, 7, -8, 100];
    let w = WaveForm::from_interleaved(&stream, 2, 8000);
    // (1+2)/2 = 1, (3+4)/2 = 3, (-1-2)/2 = -1, (7-8)/2 = 0; the ninth sample is dropped.
    assert_eq!(w.samples, vec![1, 3, -1, 0]);
}

#[test]
fn downmix_drops_trailing_partial_frame() {
    let stream = vec![3i16, 6, 9, 30, 60, 90, 5, 5];
    let w = WaveForm::from_interleaved(&stream, 3, 8000);
    assert_eq!(w.samples, vec![6, 60]);
}

#[test]
fn downmix_of_one_channel_is_the_stream() {
    let stream = vec![5i16, -7, 0, i16::MIN, i16::MAX];
    let w = WaveForm::from_interleaved(&stream, 1, 8000);
    assert_eq!(w.samples, stream);
}

#[test]
fn downmix_does_not_overflow_on_loud_frames() {
    let stream = vec![i16::MAX, i16::MAX, i16::MIN, i16::MIN, i16::MAX, i16::MIN];
    let w = WaveForm::from_interleaved(&stream, 2, 8000);
    assert_eq!(w.samples, vec![i16::MAX, i16::MIN, 0]);
}

#[test]
fn downmix_of_empty_stream_is_empty() {
    let w = WaveForm::from_interleaved(&Vec::new(), 2, 8000);
    assert!(w.samples.is_empty());
}

#[test]
fn decimation_by_one_keeps_every_sample() {
    let w = wave(vec![1, -2, 3, -4]);
    assert_eq!(w.decimate(1), vec![1, -2, 3, -4]);
}

#[test]
fn decimation_picks_largest_magnitude_per_chunk() {
    let w = wave(vec![1, -5, 3, 2, 2, -1, 7]);
    assert_eq!(w.decimate(3), vec![-5, 2, 7]);
}

#[test]
fn decimation_takes_the_last_of_equal_magnitudes() {
    let w = wave(vec![4, -4, 1, -6, 6, 6]);
    assert_eq!(w.decimate(3), vec![-4, 6]);
    let w = wave(vec![-4, 4]);
    assert_eq!(w.decimate(2), vec![4]);
}

#[test]
fn decimation_handles_the_most_negative_sample() {
    let w = wave(vec![i16::MAX, i16::MIN, 0]);
    assert_eq!(w.decimate(3), vec![i16::MIN]);
}

#[test]
fn decimation_of_nothing_is_nothing() {
    let w = wave(Vec::new());
    assert!(w.decimate(4).is_empty());
}

#[test]
fn decimation_with_a_factor_beyond_the_length_gives_one_sample() {
    let w = wave(vec![1, 2, -3]);
    assert_eq!(w.decimate(usize::MAX), vec![-3]);
}

#[test]
fn amplitude_range_of_sixteen_bits() {
    assert_eq!(wave(vec![]).amplitude_range(), 65536);
    let w = WaveForm { samples: vec![], bits_per_sample: 0, sample_rate: 1, cache: None };
    assert_eq!(w.amplitude_range(), 1);
    let w = WaveForm { samples: vec![], bits_per_sample: 30, sample_rate: 1, cache: None };
    assert_eq!(w.amplitude_range(), 1 << 30);
}

#[test]
fn staircase_runs_then_jumps() {
    let w = wave(vec![100, -200]);
    let state = WaveFormState::default();
    let ops = w.to_path(&state, 1);
    let h0 = PathPoint { x: 0, y: 32768 };
    let v0 = PathPoint { x: 0, y: 32868 };
    let h1 = PathPoint { x: 1, y: 32868 };
    let v1 = PathPoint { x: 1, y: 32568 };
    assert_eq!(
        ops,
        vec![
            PathOp::LineTo(h0),
            PathOp::MoveTo(h0),
            PathOp::LineTo(v0),
            PathOp::MoveTo(v0),
            PathOp::LineTo(h1),
            PathOp::MoveTo(h1),
            PathOp::LineTo(v1),
            PathOp::MoveTo(v1),
            PathOp::Close,
        ]
    );
}

#[test]
fn staircase_of_no_samples_only_closes() {
    let w = wave(Vec::new());
    assert_eq!(w.to_path(&WaveFormState::default(), 1), vec![PathOp::Close]);
}

#[test]
fn staircase_positions_scale_with_zoom_and_decimation() {
    let w = wave(vec![1, 2, 3, 4, 5]);
    let state = WaveFormState { zoom: 3, scroll: 0 };
    let ops = w.to_path(&state, 2);
    assert_eq!(ops.len(), 13);
    // chunks start at samples 0, 2, 4; horizontal units are start * zoom
    assert_eq!(ops[0], PathOp::LineTo(PathPoint { x: 0, y: 32768 }));
    assert_eq!(ops[2], PathOp::LineTo(PathPoint { x: 0, y: 32770 }));
    assert_eq!(ops[4], PathOp::LineTo(PathPoint { x: 6, y: 32770 }));
    assert_eq!(ops[6], PathOp::LineTo(PathPoint { x: 6, y: 32772 }));
    assert_eq!(ops[8], PathOp::LineTo(PathPoint { x: 12, y: 32772 }));
    assert_eq!(ops[11], PathOp::MoveTo(PathPoint { x: 12, y: 32773 }));
    assert_eq!(ops[12], PathOp::Close);
}

#[test]
fn staircase_with_negative_zoom_is_mirrored() {
    let w = wave(vec![0, 0, 0]);
    let state = WaveFormState { zoom: -2, scroll: 0 };
    let ops = w.to_path(&state, 1);
    assert_eq!(ops[8], PathOp::LineTo(PathPoint { x: -4, y: 32768 }));
}

#[test]
fn default_view_has_zoom_one() {
    let state = WaveFormState::default();
    assert_eq!(state.zoom, 1);
    assert_eq!(state.scroll, 0);
}

#[test]
fn zoom_keys_change_zoom_by_whole_units() {
    let mut w = wave(vec![]);
    let mut state = WaveFormState::default();
    assert_eq!(w.update(&mut state, '+'), EventStatus::Captured);
    assert_eq!(state.zoom, 2);
    assert_eq!(w.update(&mut state, '='), EventStatus::Captured);
    assert_eq!(state.zoom, 3);
    assert_eq!(w.update(&mut state, '-'), EventStatus::Captured);
    assert_eq!(state.zoom, 2);
    assert_eq!(w.update(&mut state, 'x'), EventStatus::Ignored);
    assert_eq!(state.zoom, 2);
}

#[test]
fn zoom_has_no_floor_at_zero() {
    let mut w = wave(vec![]);
    let mut state = WaveFormState::default();
    w.update(&mut state, '-');
    assert_eq!(state.zoom, 0);
    w.update(&mut state, '-');
    assert_eq!(state.zoom, -1);
}

#[test]
fn zoom_stops_at_the_limit() {
    let mut state = WaveFormState { zoom: ZOOM_LIMIT - 1, scroll: 0 };
    state.zoom_in();
    assert_eq!(state.zoom, ZOOM_LIMIT);
    state.zoom_in();
    assert_eq!(state.zoom, ZOOM_LIMIT);
    let mut state = WaveFormState { zoom: -ZOOM_LIMIT, scroll: 0 };
    state.zoom_out();
    assert_eq!(state.zoom, -ZOOM_LIMIT);
    let mut state = WaveFormState { zoom: i32::MAX, scroll: 5 };
    state.zoom_in();
    assert_eq!(state.zoom, i32::MAX);
    assert_eq!(state.scroll, 5);
    // the limit is where adding one to a single precision value stops changing it
    assert_eq!(ZOOM_LIMIT as f32 + 1.0, ZOOM_LIMIT as f32);
    assert_ne!((ZOOM_LIMIT - 1) as f32 + 1.0, (ZOOM_LIMIT - 1) as f32);
}

#[test]
fn freshly_loaded_waveform_keeps_no_outline() {
    let w = WaveForm::from_interleaved(&vec![1, 2], 1, 8000);
    assert_eq!(w.cache, None);
}

#[test]
fn draw_keeps_the_outline_and_zoom_drops_it() {
    let mut w = wave(vec![10, -10]);
    let mut state = WaveFormState::default();
    let drawn = w.draw(&state);
    assert_eq!(drawn, w.to_path(&state, 1));
    assert_eq!(w.cache.as_ref(), Some(&drawn));
    // a key that is not a zoom key leaves the outline in place
    w.update(&mut state, 'q');
    assert_eq!(w.cache.as_ref(), Some(&drawn));
    w.update(&mut state, '+');
    assert_eq!(w.cache, None);
    let again = w.draw(&state);
    assert_ne!(again, drawn);
    assert_eq!(again[4], PathOp::LineTo(PathPoint { x: 2, y: 32778 }));
    assert_eq!(w.cache, Some(again));
    w.update(&mut state, '-');
    assert_eq!(w.cache, None);
    assert_eq!(w.samples, vec![10, -10]);
}
