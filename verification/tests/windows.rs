use handy_net::windows::{
    pause_frames, pick_split, quietest, requires_chunking, WindowPlan, OVERLAP_SAMPLES,
    PAUSE_FRAME_SAMPLES, PAUSE_FRAME_STEP, SAMPLE_RATE, SHORTEST_CUT_SAMPLES, SPLIT_SEARCH_SAMPLES,
    WINDOW_SAMPLES,
};

/// How loud a frame is: the mean of its absolute amplitudes.
fn amplitude(pcm: &[f32], start: usize) -> f32 {
    let frame = &pcm[start..start + PAUSE_FRAME_SAMPLES];
    frame.iter().map(|sample| sample.abs()).sum::<f32>() / PAUSE_FRAME_SAMPLES as f32
}

fn find_pause(pcm: &[f32], target: usize, search: usize) -> Option<usize> {
    let frames = pause_frames(pcm.len(), target, search);
    let amplitudes: Vec<f32> = frames.iter().map(|&at| amplitude(pcm, at)).collect();
    let levels: Vec<u32> = amplitudes.iter().map(|level| level.to_bits()).collect();
    let total: f64 = amplitudes.iter().map(|&level| f64::from(level)).sum();
    let is_pause = match quietest(&levels) {
        Some(index) => amplitudes[index] <= (total / frames.len() as f64) as f32 * 0.30,
        None => false,
    };
    pick_split(pcm.len(), target, search, &levels, is_pause)
}

fn audio_windows(pcm: &[f32]) -> Vec<&[f32]> {
    let mut plan = WindowPlan::new(pcm.len());
    while let Some(asked) = plan.pending() {
        let rest = &pcm[asked.start..];
        assert_eq!(rest.len(), asked.length);
        plan.answer(find_pause(rest, asked.target, asked.search));
    }
    plan.windows()
        .iter()
        .map(|&(start, end)| &pcm[start..end])
        .collect()
}

#[test]
fn short_audio_stays_in_one_window() {
    let pcm = vec![0.0; WINDOW_SAMPLES];
    let windows = audio_windows(&pcm);

    assert_eq!(windows.len(), 1);
    assert_eq!(windows[0].len(), WINDOW_SAMPLES);
}

#[test]
fn long_audio_uses_bounded_overlapping_windows() {
    let pcm = vec![0.5; WINDOW_SAMPLES * 2];
    let windows = audio_windows(&pcm);

    assert_eq!(windows.len(), 3);
    assert!(windows.iter().all(|window| window.len() <= WINDOW_SAMPLES));
    assert_eq!(
        windows[0].as_ptr_range().end,
        windows[1][OVERLAP_SAMPLES..].as_ptr()
    );
}

#[test]
fn window_boundary_prefers_a_pause() {
    let mut pcm = vec![0.5; WINDOW_SAMPLES + SAMPLE_RATE];
    let pause_start = WINDOW_SAMPLES - 2 * SAMPLE_RATE;
    pcm[pause_start..pause_start + SAMPLE_RATE].fill(0.0);

    let windows = audio_windows(&pcm);

    assert_eq!(windows.len(), 2);
    assert!((pause_start..pause_start + SAMPLE_RATE).contains(&windows[0].len()));
}

#[test]
fn a_pause_far_back_is_found_by_the_wide_search() {
    let mut pcm = vec![0.5; WINDOW_SAMPLES + SAMPLE_RATE];
    let pause_start = WINDOW_SAMPLES - SPLIT_SEARCH_SAMPLES - 3 * SAMPLE_RATE;
    pcm[pause_start..pause_start + SAMPLE_RATE].fill(0.0);

    let windows = audio_windows(&pcm);

    assert_eq!(windows.len(), 2);
    assert!((pause_start..pause_start + SAMPLE_RATE).contains(&windows[0].len()));
}

#[test]
fn no_sample_is_left_out() {
    let total = WINDOW_SAMPLES * 3 + 12_345;
    let mut plan = WindowPlan::new(total);
    let mut answers = [Some(400_000), None, Some(300_000), None, None].iter().cycle();
    while plan.pending().is_some() {
        plan.answer(*answers.next().unwrap());
    }
    let windows = plan.windows();
    assert_eq!(windows[0].0, 0);
    assert_eq!(windows.last().unwrap().1, total);
    for pair in windows.windows(2) {
        assert_eq!(pair[0].1 - pair[1].0, OVERLAP_SAMPLES);
    }
    for &(start, end) in windows {
        assert!(end - start <= WINDOW_SAMPLES);
        assert!(end == total || end - start >= SHORTEST_CUT_SAMPLES);
    }
    assert_eq!(SHORTEST_CUT_SAMPLES, 280_160);
}

#[test]
fn an_empty_recording_is_one_empty_window() {
    let plan = WindowPlan::new(0);
    assert!(plan.pending().is_none());
    assert_eq!(plan.windows(), &[(0, 0)]);
}

#[test]
fn chunking_starts_above_the_window() {
    assert!(!requires_chunking(WINDOW_SAMPLES));
    assert!(requires_chunking(WINDOW_SAMPLES + 1));
    assert_eq!(WINDOW_SAMPLES, 560_000);
}

#[test]
fn the_search_widens_before_it_gives_up() {
    let mut plan = WindowPlan::new(WINDOW_SAMPLES + 1);
    let narrow = plan.pending().unwrap();
    assert_eq!((narrow.start, narrow.length), (0, WINDOW_SAMPLES + 1));
    assert_eq!((narrow.target, narrow.search), (WINDOW_SAMPLES, 140_000));
    plan.answer(None);
    assert_eq!(plan.pending().unwrap().search, 280_000);
    plan.answer(None);
    assert!(plan.pending().is_none());
    assert_eq!(
        plan.windows(),
        &[
            (0, WINDOW_SAMPLES),
            (WINDOW_SAMPLES - OVERLAP_SAMPLES, WINDOW_SAMPLES + 1)
        ]
    );
}

#[test]
fn frames_lie_before_the_target() {
    let frames = pause_frames(10_000, 2_000, 1_000);
    assert_eq!(frames[0], 1_000);
    assert_eq!(frames[1] - frames[0], PAUSE_FRAME_STEP);
    assert_eq!(*frames.last().unwrap(), 1_640);
    assert_eq!(frames.len(), 5);
    let near = pause_frames(10_000, 2_000, 5_000);
    assert_eq!(near[0], PAUSE_FRAME_SAMPLES);
    assert!(pause_frames(2_000, 2_000, 1_000).is_empty());
    assert!(pause_frames(10_000, 2_000, 2 * PAUSE_FRAME_SAMPLES - 1).is_empty());
    assert!(pause_frames(10_000, 2 * PAUSE_FRAME_SAMPLES - 1, 1_000).is_empty());
}

#[test]
fn the_first_of_the_quietest_frames_is_split() {
    assert_eq!(quietest(&[]), None);
    assert_eq!(quietest(&[7, 3, 9, 3]), Some(1));
    let levels = [5, 2, 4, 2, 6];
    assert_eq!(
        pick_split(10_000, 2_000, 1_000, &levels, true),
        Some(1_000 + PAUSE_FRAME_STEP + PAUSE_FRAME_SAMPLES / 2)
    );
    assert_eq!(pick_split(10_000, 2_000, 1_000, &levels, false), None);
    assert_eq!(pick_split(2_000, 2_000, 1_000, &[], true), None);
}
