use homevoice::segmenter::{frame_is_quiet, Segmenter, SegmenterConfig, VoicePipeline};
use homevoice::vad::vad_new_16khz_aggressive;

fn silent_frame() -> Vec<i16> {
    vec![0; 320]
}

fn loud_frame() -> Vec<i16> {
    vec![5000; 320]
}

#[test]
fn energy_gate_classifies_frames() {
    assert!(frame_is_quiet(1000, &silent_frame()));
    assert!(frame_is_quiet(1000, &vec![999, -999, 0]));
    assert!(!frame_is_quiet(1000, &loud_frame()));
    assert!(!frame_is_quiet(1000, &vec![0, 0, 1000]));
    assert!(!frame_is_quiet(1000, &vec![-1000, 0]));
    // An empty frame has every sample inside the limit.
    assert!(frame_is_quiet(1000, &Vec::new()));
}

/// The single-utterance scenario: leading silence builds pre-roll, the first
/// voiced frame hands the pre-roll over, trailing silence is still fed and
/// the threshold-length run flushes exactly once.
#[test]
fn one_utterance_flushes_once() {
    let cfg = SegmenterConfig::default();
    let mut seg = Segmenter::new();
    let mut flushes = 0;
    let mut fed: Vec<Vec<i16>> = Vec::new();

    // Five silent frames: only the newest three are kept as pre-roll.
    for _ in 0..5 {
        let (feed, flush) = seg.step(&cfg, silent_frame(), false);
        assert!(feed.is_empty());
        assert!(!flush);
        assert!(!seg.speech_detected());
    }

    // Two voiced frames: the first carries the pre-roll with it.
    let (feed, flush) = seg.step(&cfg, loud_frame(), true);
    assert_eq!(feed.len(), 4); // three pre-roll frames plus the voiced frame
    assert!(!flush);
    assert!(seg.speech_detected());
    fed.extend(feed);
    let (feed, flush) = seg.step(&cfg, loud_frame(), true);
    assert_eq!(feed.len(), 1);
    assert!(!flush);
    fed.extend(feed);

    // Three silent frames: each is still fed; the third ends the utterance.
    for i in 0..3 {
        let (feed, flush) = seg.step(&cfg, silent_frame(), false);
        assert_eq!(feed.len(), 1);
        fed.extend(feed);
        if flush {
            flushes += 1;
            assert_eq!(i, 2);
        }
    }
    assert_eq!(flushes, 1);
    assert!(!seg.speech_detected());

    // Pre-roll, both voiced frames and the three trailing silent frames,
    // in order, nothing duplicated and nothing dropped.
    let expected: Vec<Vec<i16>> = vec![
        silent_frame(),
        silent_frame(),
        silent_frame(),
        loud_frame(),
        loud_frame(),
        silent_frame(),
        silent_frame(),
        silent_frame(),
    ];
    assert_eq!(fed, expected);

    // Afterwards the segmenter is idle again: more silence never flushes.
    for _ in 0..10 {
        let (feed, flush) = seg.step(&cfg, silent_frame(), false);
        assert!(feed.is_empty());
        assert!(!flush);
    }
}

/// The short-pause scenario: a silent run shorter than the threshold between
/// two voiced frames flushes nothing and speech stays confirmed.
#[test]
fn short_pause_keeps_session_open() {
    let cfg = SegmenterConfig::default();
    let mut seg = Segmenter::new();

    let (_, flush) = seg.step(&cfg, loud_frame(), true);
    assert!(!flush);
    assert!(seg.speech_detected());

    // Two silent frames: one short of the threshold of three.
    for _ in 0..2 {
        let (feed, flush) = seg.step(&cfg, silent_frame(), false);
        assert_eq!(feed.len(), 1); // silence is still fed while speaking
        assert!(!flush);
        assert!(seg.speech_detected());
    }

    // Speech resumes: the run is back at zero, so three more silent frames
    // are needed before any flush.
    let (_, flush) = seg.step(&cfg, loud_frame(), true);
    assert!(!flush);
    assert!(seg.speech_detected());
    for _ in 0..2 {
        let (_, flush) = seg.step(&cfg, silent_frame(), false);
        assert!(!flush);
    }
    let (_, flush) = seg.step(&cfg, silent_frame(), false);
    assert!(flush);
    assert!(!seg.speech_detected());
}

/// A quiet frame while idle never consults the classifier, so the pipeline
/// entry point behaves exactly like the machine on a silent input.
#[test]
fn process_frame_stays_idle_on_quiet_frames() {
    let cfg = SegmenterConfig::default();
    let mut seg = Segmenter::new();
    let mut vad = vad_new_16khz_aggressive();
    for _ in 0..8 {
        let (feed, flush) = seg.process_frame(&cfg, &mut vad, silent_frame());
        assert!(feed.is_empty());
        assert!(!flush);
        assert!(!seg.speech_detected());
    }
}

/// The bundled pipeline behaves like the bare segmenter on quiet frames.
#[test]
fn voice_pipeline_stays_idle_on_quiet_frames() {
    let cfg = SegmenterConfig::default();
    let mut pipeline = VoicePipeline::new();
    assert!(!pipeline.speech_detected());
    for _ in 0..5 {
        let (feed, flush) = pipeline.push_frame(&cfg, silent_frame());
        assert!(feed.is_empty());
        assert!(!flush);
        assert!(!pipeline.speech_detected());
    }
}

#[test]
fn preroll_cap_is_configurable() {
    let cfg = SegmenterConfig { amp_threshold: 1000, silence_frames: 3, preroll_frames: 1 };
    let mut seg = Segmenter::new();
    for _ in 0..4 {
        let (feed, flush) = seg.step(&cfg, silent_frame(), false);
        assert!(feed.is_empty());
        assert!(!flush);
    }
    // Only one frame of pre-roll is kept.
    let (feed, _) = seg.step(&cfg, loud_frame(), true);
    assert_eq!(feed.len(), 2);
}
