use whisper_bridge::cstring::c_string;
use whisper_bridge::error::Status;
use whisper_bridge::params::{
    AheadsPreset, ContextParams, FullParams, TextSource, WhisperSamplingStrategy,
};
use whisper_bridge::whisper::{
    worker_count, wrap, ContextState, InferEvent, InferStep, Whisper,
};

fn defaults() -> FullParams {
    FullParams {
        strategy: WhisperSamplingStrategy::GREEDY,
        best_of: 5,
        beam_size: -1,
        n_threads: 4,
        n_max_text_ctx: 16384,
        offset_ms: 0,
        duration_ms: 0,
        translate: false,
        no_context: true,
        no_timestamps: false,
        single_segment: false,
        print_special: false,
        print_progress: true,
        print_realtime: false,
        print_timestamps: true,
        token_timestamps: false,
        thold_pt: 0.01f32.to_bits(),
        thold_ptsum: 0.01f32.to_bits(),
        max_len: 0,
        split_on_word: false,
        max_tokens: 0,
        debug_mode: false,
        audio_ctx: 0,
        tdrz_enable: false,
        initial_prompt: TextSource::EngineDefault,
        language: TextSource::EngineDefault,
        suppress_blank: true,
        suppress_nst: false,
        temperature: 0.0f32.to_bits(),
        max_initial_ts: 1.0f32.to_bits(),
        length_penalty: (-1.0f32).to_bits(),
        temperature_inc: 0.2f32.to_bits(),
        entropy_thold: 2.4f32.to_bits(),
        logprob_thold: (-1.0f32).to_bits(),
        no_speech_thold: 0.6f32.to_bits(),
    }
}

fn handle() -> Whisper {
    Whisper::new("models/ggml-base.bin".to_string(), None, false, defaults()).unwrap()
}

fn loaded() -> Whisper {
    let mut h = handle();
    assert!(h.opened(true));
    h
}

fn silence(samples: usize) -> Vec<u8> {
    wav(1, 16000, 16, &vec![0u8; 2 * samples])
}

fn wav(channels: u16, rate: u32, bits: u16, data: &[u8]) -> Vec<u8> {
    let block_align = channels * (bits / 8);
    let mut out = Vec::new();
    out.extend_from_slice(b"RIFF");
    out.extend_from_slice(&(36 + data.len() as u32).to_le_bytes());
    out.extend_from_slice(b"WAVE");
    out.extend_from_slice(b"fmt ");
    out.extend_from_slice(&16u32.to_le_bytes());
    out.extend_from_slice(&1u16.to_le_bytes());
    out.extend_from_slice(&channels.to_le_bytes());
    out.extend_from_slice(&rate.to_le_bytes());
    out.extend_from_slice(&(rate * block_align as u32).to_le_bytes());
    out.extend_from_slice(&block_align.to_le_bytes());
    out.extend_from_slice(&bits.to_le_bytes());
    out.extend_from_slice(b"data");
    out.extend_from_slice(&(data.len() as u32).to_le_bytes());
    out.extend_from_slice(data);
    out
}

fn start(h: &Whisper, bytes: Vec<u8>, available_parallelism: i32) -> InferStep {
    h.infer(InferEvent::Start { bytes, available_parallelism })
}

fn failure(step: InferStep) -> (Status, String) {
    match step {
        InferStep::Failed { error } => (error.status, error.reason),
        other => panic!("expected a failure, got {:?}", other),
    }
}

#[test]
fn construction_without_gpu() {
    let h = handle();
    let c = h.context_params();
    assert!(!c.use_gpu);
    assert!(!c.flash_attn);
    assert_eq!(c.gpu_device, 0);
    assert!(!c.dtw_token_timestamps);
    assert_eq!(c.dtw_aheads_preset, AheadsPreset::NoPreset);
    assert_eq!(c.dtw_n_top, -1);
    assert_eq!(c.dtw_n_heads, 0);
    assert_eq!(c.dtw_mem_size, 128 * 1024 * 1024);
    assert_eq!(h.full_params(), defaults());
    assert_eq!(h.context(), ContextState::Unopened);
    assert_eq!(h.model_path().as_slice(), b"models/ggml-base.bin\0");
    assert!(h.prompt_target().is_none());
    assert!(h.language_target().is_none());
}

#[test]
fn construction_tells_gpu_zero_from_no_gpu() {
    let with = Whisper::new("m.bin".to_string(), Some(0), true, defaults()).unwrap();
    let without = Whisper::new("m.bin".to_string(), None, true, defaults()).unwrap();
    assert!(with.context_params().use_gpu);
    assert!(!without.context_params().use_gpu);
    assert_eq!(with.context_params().gpu_device, 0);
    assert_eq!(without.context_params().gpu_device, 0);
    assert!(with.context_params().flash_attn);
    let third = Whisper::new("m.bin".to_string(), Some(3), false, defaults()).unwrap();
    assert_eq!(third.context_params().gpu_device, 3);
    assert!(third.context_params().use_gpu);
    assert!(!third.context_params().flash_attn);
}

#[test]
fn construction_is_deterministic() {
    let a = Whisper::new("a.bin".to_string(), Some(2), true, defaults()).unwrap();
    let b = Whisper::new("b.bin".to_string(), Some(2), true, defaults()).unwrap();
    assert_eq!(a.context_params(), b.context_params());
    assert_eq!(a.context_params(), ContextParams::new(Some(2), true));
}

#[test]
fn construction_rejects_a_path_with_a_zero_byte() {
    let err = Whisper::new("mod\0el.bin".to_string(), None, false, defaults()).unwrap_err();
    assert_eq!(err.status, Status::InvalidArg);
    assert_eq!(err.reason, "String must not contain a zero byte");
}

#[test]
fn c_string_appends_one_zero_byte() {
    assert_eq!(c_string("hello").unwrap(), b"hello\0".to_vec());
    assert_eq!(c_string("").unwrap(), vec![0u8]);
    assert_eq!(c_string("é").unwrap(), vec![0xc3, 0xa9, 0]);
    let err = c_string("a\0").unwrap_err();
    assert_eq!(err.status, Status::InvalidArg);
    assert_eq!(err.reason, "String must not contain a zero byte");
}

#[test]
fn only_the_first_report_of_opening_counts() {
    let mut h = handle();
    assert!(h.opened(false));
    assert_eq!(h.context(), ContextState::Absent);
    assert!(!h.opened(true));
    assert_eq!(h.context(), ContextState::Absent);
    let mut g = handle();
    assert!(g.opened(true));
    assert_eq!(g.context(), ContextState::Loaded);
    assert!(!g.opened(false));
    assert_eq!(g.context(), ContextState::Loaded);
}

#[test]
fn the_context_is_freed_exactly_once() {
    let mut h = loaded();
    assert!(h.release());
    assert_eq!(h.context(), ContextState::Released);
    assert!(!h.release());
    assert!(!h.release());
    assert!(!h.opened(true));
    assert_eq!(h.context(), ContextState::Released);
    let mut absent = handle();
    absent.opened(false);
    assert!(absent.release());
    assert!(!absent.release());
}

#[test]
fn inference_on_silence_runs_and_yields_the_engines_text() {
    let h = loaded();
    match start(&h, silence(16000), 8) {
        InferStep::Run { params, clip, workers } => {
            assert_eq!(params, defaults());
            assert_eq!(clip.len(), 16000);
            assert!(clip.samples.iter().all(|b| f32::from_bits(*b) == 0.0));
            assert_eq!(workers, 4);
        }
        other => panic!("expected a run, got {:?}", other),
    }
    assert!(matches!(h.infer(InferEvent::Ran { code: 0 }), InferStep::Collect));
    match h.infer(InferEvent::Segments { texts: Vec::new() }) {
        InferStep::Done { text } => assert_eq!(text, ""),
        other => panic!("expected a transcript, got {:?}", other),
    }
    match h.infer(InferEvent::Segments { texts: vec![b" [BLANK_AUDIO]".to_vec()] }) {
        InferStep::Done { text } => assert_eq!(text, " [BLANK_AUDIO]"),
        other => panic!("expected a transcript, got {:?}", other),
    }
}

#[test]
fn inference_rejects_48_khz() {
    let step = start(&loaded(), wav(1, 48000, 16, &[0u8; 64]), 4);
    assert_eq!(
        failure(step),
        (Status::InvalidArg, "Sample rate must be equal to 16khz".to_string())
    );
}

#[test]
fn inference_rejects_stereo() {
    let step = start(&loaded(), wav(2, 16000, 16, &[0u8; 64]), 4);
    assert_eq!(failure(step), (Status::InvalidArg, "Channels must be equal to 1".to_string()));
}

#[test]
fn inference_rejects_24_bits() {
    let step = start(&loaded(), wav(1, 16000, 24, &[0u8; 63]), 4);
    assert_eq!(
        failure(step),
        (Status::InvalidArg, "Bits per sample must be equal to 16".to_string())
    );
}

#[test]
fn inference_without_a_model_fails_and_the_handle_stays_usable() {
    let mut h = Whisper::new("/no/such/model.bin".to_string(), None, false, defaults()).unwrap();
    assert!(h.opened(false));
    let step = start(&h, silence(160), 4);
    assert_eq!(failure(step), (Status::InvalidArg, "model not properly loaded".to_string()));
    h.n_threads(2);
    assert_eq!(h.full_params().n_threads, 2);
    let again = start(&h, silence(160), 4);
    assert_eq!(failure(again), (Status::InvalidArg, "model not properly loaded".to_string()));
}

#[test]
fn inference_before_opening_and_after_release_fails() {
    let h = handle();
    let step = start(&h, silence(16), 4);
    assert_eq!(failure(step), (Status::InvalidArg, "model not properly loaded".to_string()));
    let mut g = loaded();
    g.release();
    let step = start(&g, silence(16), 4);
    assert_eq!(failure(step), (Status::InvalidArg, "model not properly loaded".to_string()));
}

#[test]
fn bad_audio_is_reported_before_a_missing_model() {
    let mut h = handle();
    h.opened(false);
    let step = start(&h, wav(2, 16000, 16, &[0u8; 8]), 4);
    assert_eq!(failure(step), (Status::InvalidArg, "Channels must be equal to 1".to_string()));
}

#[test]
fn inference_on_an_empty_payload_runs_on_an_empty_clip() {
    match start(&loaded(), Vec::new(), 2) {
        InferStep::Run { clip, workers, .. } => {
            assert_eq!(clip.len(), 0);
            assert_eq!(workers, 2);
        }
        other => panic!("expected a run, got {:?}", other),
    }
}

#[test]
fn a_positive_engine_code_fails_the_inference() {
    let h = loaded();
    for code in [1, 7, i32::MAX] {
        assert_eq!(
            failure(h.infer(InferEvent::Ran { code })),
            (Status::GenericFailure, "failed to run whisper model".to_string())
        );
    }
    for code in [0, -1, i32::MIN] {
        assert!(matches!(h.infer(InferEvent::Ran { code }), InferStep::Collect));
    }
}

#[test]
fn segments_that_are_not_utf8_fail_the_inference() {
    let h = loaded();
    let step = h.infer(InferEvent::Segments { texts: vec![b"ok".to_vec(), vec![0x80]] });
    assert_eq!(
        failure(step),
        (Status::GenericFailure, "Segment text is not valid UTF-8".to_string())
    );
}

#[test]
fn segments_are_concatenated_in_order() {
    let h = loaded();
    let texts = vec![b" one".to_vec(), b" two".to_vec(), b" three".to_vec()];
    match h.infer(InferEvent::Segments { texts }) {
        InferStep::Done { text } => assert_eq!(text, " one two three"),
        other => panic!("expected a transcript, got {:?}", other),
    }
}

#[test]
fn the_worker_count_is_the_smaller_of_the_two() {
    assert_eq!(worker_count(8, 4), 4);
    assert_eq!(worker_count(2, 4), 2);
    assert_eq!(worker_count(4, 4), 4);
    assert_eq!(worker_count(1, 1), 1);
    assert_eq!(worker_count(16, 0), 0);
    assert_eq!(worker_count(16, -3), -3);
    for a in 1..20 {
        for n in 1..20 {
            assert!(worker_count(a, n) >= 1);
            assert_eq!(worker_count(a, n), std::cmp::min(a, n));
        }
    }
}

#[test]
fn the_run_gets_the_capped_worker_count() {
    let mut h = loaded();
    h.n_threads(12);
    match start(&h, silence(16), 8) {
        InferStep::Run { workers, params, .. } => {
            assert_eq!(workers, 8);
            assert_eq!(params.n_threads, 12);
        }
        other => panic!("expected a run, got {:?}", other),
    }
    h.n_threads(3);
    match start(&h, silence(16), 8) {
        InferStep::Run { workers, .. } => assert_eq!(workers, 3),
        other => panic!("expected a run, got {:?}", other),
    }
}

#[test]
fn prompt_language_and_beam_search_reach_the_run() {
    let mut h = loaded();
    h.initial_prompt("hello".to_string()).unwrap();
    h.language("en".to_string()).unwrap();
    h.strategy(WhisperSamplingStrategy::BEAM_SEARCH, 5);
    match start(&h, silence(1600), 4) {
        InferStep::Run { params, clip, workers } => {
            assert_eq!(params.strategy, WhisperSamplingStrategy::BEAM_SEARCH);
            assert_eq!(params.beam_size, 5);
            assert_eq!(params.best_of, defaults().best_of);
            assert_eq!(params.initial_prompt, TextSource::Handle);
            assert_eq!(params.language, TextSource::Handle);
            assert_eq!(clip.len(), 1600);
            assert_eq!(workers, 4);
        }
        other => panic!("expected a run, got {:?}", other),
    }
    assert_eq!(h.prompt_target().unwrap().as_slice(), b"hello\0");
    assert_eq!(h.language_target().unwrap().as_slice(), b"en\0");
    assert_eq!(h.context(), ContextState::Loaded);
}

#[test]
fn setters_chain() {
    let mut h = handle();
    let n = h.n_threads(6).full_params().n_threads;
    assert_eq!(n, 6);
    let t = h.translate(true).full_params();
    assert!(t.translate);
    assert_eq!(t.n_threads, 6);
}

#[test]
fn strategy_writes_the_number_of_the_chosen_strategy_only() {
    let mut h = handle();
    h.strategy(WhisperSamplingStrategy::BEAM_SEARCH, 8);
    let expected = FullParams {
        strategy: WhisperSamplingStrategy::BEAM_SEARCH,
        beam_size: 8,
        ..defaults()
    };
    assert_eq!(h.full_params(), expected);
    h.strategy(WhisperSamplingStrategy::GREEDY, 2);
    let expected = FullParams {
        strategy: WhisperSamplingStrategy::GREEDY,
        best_of: 2,
        beam_size: 8,
        ..defaults()
    };
    assert_eq!(h.full_params(), expected);
}

#[test]
fn numbers_above_the_signed_range_wrap() {
    assert_eq!(wrap(0), 0);
    assert_eq!(wrap(2147483647), 2147483647);
    assert_eq!(wrap(2147483648), -2147483648);
    assert_eq!(wrap(4294967295), -1);
    assert_eq!(wrap(3000000000), 3000000000u32 as i32);
    let mut h = handle();
    h.strategy(WhisperSamplingStrategy::GREEDY, 4294967295);
    assert_eq!(h.full_params().best_of, -1);
    h.offset_ms(4294967294);
    assert_eq!(h.full_params().offset_ms, -2);
    h.offset_ms(1500);
    assert_eq!(h.full_params().offset_ms, 1500);
}

#[test]
fn each_integer_setter_changes_its_field_only() {
    let mut h = handle();
    h.n_threads(7);
    assert_eq!(h.full_params(), FullParams { n_threads: 7, ..defaults() });
    let mut h = handle();
    h.n_max_text_ctx(64);
    assert_eq!(h.full_params(), FullParams { n_max_text_ctx: 64, ..defaults() });
    let mut h = handle();
    h.offset_ms(250);
    assert_eq!(h.full_params(), FullParams { offset_ms: 250, ..defaults() });
    let mut h = handle();
    h.duration_ms(-5);
    assert_eq!(h.full_params(), FullParams { duration_ms: -5, ..defaults() });
    let mut h = handle();
    h.max_len(40);
    assert_eq!(h.full_params(), FullParams { max_len: 40, ..defaults() });
    let mut h = handle();
    h.max_tokens(32);
    assert_eq!(h.full_params(), FullParams { max_tokens: 32, ..defaults() });
    let mut h = handle();
    h.audio_ctx(768);
    assert_eq!(h.full_params(), FullParams { audio_ctx: 768, ..defaults() });
}

#[test]
fn each_flag_setter_changes_its_field_only() {
    let d = defaults();
    let mut h = handle();
    h.translate(!d.translate);
    assert_eq!(h.full_params(), FullParams { translate: !d.translate, ..d });
    let mut h = handle();
    h.no_context(!d.no_context);
    assert_eq!(h.full_params(), FullParams { no_context: !d.no_context, ..d });
    let mut h = handle();
    h.no_timestamps(!d.no_timestamps);
    assert_eq!(h.full_params(), FullParams { no_timestamps: !d.no_timestamps, ..d });
    let mut h = handle();
    h.single_segment(!d.single_segment);
    assert_eq!(h.full_params(), FullParams { single_segment: !d.single_segment, ..d });
    let mut h = handle();
    h.print_special(!d.print_special);
    assert_eq!(h.full_params(), FullParams { print_special: !d.print_special, ..d });
    let mut h = handle();
    h.print_progress(!d.print_progress);
    assert_eq!(h.full_params(), FullParams { print_progress: !d.print_progress, ..d });
    let mut h = handle();
    h.print_realtime(!d.print_realtime);
    assert_eq!(h.full_params(), FullParams { print_realtime: !d.print_realtime, ..d });
    let mut h = handle();
    h.print_timestamps(!d.print_timestamps);
    assert_eq!(h.full_params(), FullParams { print_timestamps: !d.print_timestamps, ..d });
    let mut h = handle();
    h.token_timestamps(!d.token_timestamps);
    assert_eq!(h.full_params(), FullParams { token_timestamps: !d.token_timestamps, ..d });
    let mut h = handle();
    h.split_on_word(!d.split_on_word);
    assert_eq!(h.full_params(), FullParams { split_on_word: !d.split_on_word, ..d });
    let mut h = handle();
    h.debug_mode(!d.debug_mode);
    assert_eq!(h.full_params(), FullParams { debug_mode: !d.debug_mode, ..d });
    let mut h = handle();
    h.tdrz_enable(!d.tdrz_enable);
    assert_eq!(h.full_params(), FullParams { tdrz_enable: !d.tdrz_enable, ..d });
    let mut h = handle();
    h.suppress_blank(!d.suppress_blank);
    assert_eq!(h.full_params(), FullParams { suppress_blank: !d.suppress_blank, ..d });
    let mut h = handle();
    h.suppress_nst(!d.suppress_nst);
    assert_eq!(h.full_params(), FullParams { suppress_nst: !d.suppress_nst, ..d });
}

#[test]
fn setters_leave_the_rest_of_the_handle_alone() {
    let mut h = loaded();
    h.initial_prompt("keep".to_string()).unwrap();
    h.n_threads(9);
    h.translate(true);
    h.strategy(WhisperSamplingStrategy::BEAM_SEARCH, 3);
    assert_eq!(h.context(), ContextState::Loaded);
    assert_eq!(h.context_params(), ContextParams::new(None, false));
    assert_eq!(h.model_path().as_slice(), b"models/ggml-base.bin\0");
    assert_eq!(h.prompt_target().unwrap().as_slice(), b"keep\0");
    assert!(h.language_target().is_none());
}

#[test]
fn the_prompt_buffer_holds_the_text_set_last() {
    let mut h = handle();
    h.initial_prompt("first prompt".to_string()).unwrap();
    assert_eq!(h.prompt_target().unwrap().as_slice(), b"first prompt\0");
    assert_eq!(h.full_params(), FullParams { initial_prompt: TextSource::Handle, ..defaults() });
    h.initial_prompt("t".to_string()).unwrap();
    assert_eq!(h.prompt_target().unwrap().as_slice(), b"t\0");
    h.initial_prompt(String::new()).unwrap();
    assert_eq!(h.prompt_target().unwrap().as_slice(), b"\0");
    assert!(h.language_target().is_none());
}

#[test]
fn the_language_buffer_holds_the_code_set_last() {
    let mut h = handle();
    h.language("de".to_string()).unwrap();
    assert_eq!(h.language_target().unwrap().as_slice(), b"de\0");
    assert_eq!(h.full_params(), FullParams { language: TextSource::Handle, ..defaults() });
    h.language("auto".to_string()).unwrap();
    assert_eq!(h.language_target().unwrap().as_slice(), b"auto\0");
    assert!(h.prompt_target().is_none());
}

#[test]
fn a_text_with_a_zero_byte_is_rejected_and_changes_nothing() {
    let mut h = handle();
    h.initial_prompt("kept".to_string()).unwrap();
    let before = h.full_params();
    let err = h.initial_prompt("bad\0prompt".to_string()).unwrap_err();
    assert_eq!(err.status, Status::InvalidArg);
    assert_eq!(err.reason, "String must not contain a zero byte");
    assert_eq!(h.prompt_target().unwrap().as_slice(), b"kept\0");
    assert_eq!(h.full_params(), before);
    let err = h.language("\0".to_string()).unwrap_err();
    assert_eq!(err.status, Status::InvalidArg);
    assert!(h.language_target().is_none());
    assert_eq!(h.full_params(), before);
}
