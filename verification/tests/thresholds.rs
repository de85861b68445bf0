use whisper_bridge::params::{FullParams, TextSource, WhisperSamplingStrategy};
use whisper_bridge::whisper::Whisper;

fn zeroed() -> FullParams {
    FullParams {
        strategy: WhisperSamplingStrategy::GREEDY,
        best_of: 1,
        beam_size: 1,
        n_threads: 1,
        n_max_text_ctx: 0,
        offset_ms: 0,
        duration_ms: 0,
        translate: false,
        no_context: false,
        no_timestamps: false,
        single_segment: false,
        print_special: false,
        print_progress: false,
        print_realtime: false,
        print_timestamps: false,
        token_timestamps: false,
        thold_pt: 0,
        thold_ptsum: 0,
        max_len: 0,
        split_on_word: false,
        max_tokens: 0,
        debug_mode: false,
        audio_ctx: 0,
        tdrz_enable: false,
        initial_prompt: TextSource::EngineDefault,
        language: TextSource::EngineDefault,
        suppress_blank: false,
        suppress_nst: false,
        temperature: 0,
        max_initial_ts: 0,
        length_penalty: 0,
        temperature_inc: 0,
        entropy_thold: 0,
        logprob_thold: 0,
        no_speech_thold: 0,
    }
}

fn handle() -> Whisper {
    Whisper::new("m.bin".to_string(), None, false, zeroed()).unwrap()
}

fn single(value: f64) -> u32 {
    (value as f32).to_bits()
}

#[test]
fn each_fractional_setter_changes_its_field_only() {
    let mut h = handle();
    h.thold_pt(0.01f64.to_bits());
    assert_eq!(h.full_params(), FullParams { thold_pt: single(0.01), ..zeroed() });
    let mut h = handle();
    h.thold_ptsum(0.02f64.to_bits());
    assert_eq!(h.full_params(), FullParams { thold_ptsum: single(0.02), ..zeroed() });
    let mut h = handle();
    h.temperature(0.7f64.to_bits());
    assert_eq!(h.full_params(), FullParams { temperature: single(0.7), ..zeroed() });
    let mut h = handle();
    h.max_initial_ts(1.0f64.to_bits());
    assert_eq!(h.full_params(), FullParams { max_initial_ts: single(1.0), ..zeroed() });
    let mut h = handle();
    h.length_penalty((-1.0f64).to_bits());
    assert_eq!(h.full_params(), FullParams { length_penalty: single(-1.0), ..zeroed() });
    let mut h = handle();
    h.temperature_inc(0.2f64.to_bits());
    assert_eq!(h.full_params(), FullParams { temperature_inc: single(0.2), ..zeroed() });
    let mut h = handle();
    h.entropy_thold(2.4f64.to_bits());
    assert_eq!(h.full_params(), FullParams { entropy_thold: single(2.4), ..zeroed() });
    let mut h = handle();
    h.logprob_thold((-1.5f64).to_bits());
    assert_eq!(h.full_params(), FullParams { logprob_thold: single(-1.5), ..zeroed() });
    let mut h = handle();
    h.no_speech_thold(0.6f64.to_bits());
    assert_eq!(h.full_params(), FullParams { no_speech_thold: single(0.6), ..zeroed() });
}

#[test]
fn thresholds_are_narrowed_to_the_nearest_single() {
    let mut h = handle();
    h.temperature(0.1f64.to_bits());
    assert_eq!(f32::from_bits(h.full_params().temperature), 0.1f32);
    assert_eq!(h.full_params().temperature, 0x3dcc_cccd);
    h.temperature(1e300f64.to_bits());
    assert_eq!(f32::from_bits(h.full_params().temperature), f32::INFINITY);
    h.temperature((-1e-300f64).to_bits());
    assert_eq!(h.full_params().temperature, 0x8000_0000);
    h.temperature(f64::NAN.to_bits());
    assert!(f32::from_bits(h.full_params().temperature).is_nan());
    h.temperature(0.25f64.to_bits());
    assert_eq!(f32::from_bits(h.full_params().temperature), 0.25);
}
