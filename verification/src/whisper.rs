//! The handle the host holds on a model.
//!
//! The handle owns the two parameter records and the text buffers that the
//! inference record points at, and it follows the life of the native context:
//! not yet opened, loaded or absent, released. It never touches the engine.
//! The caller opens the context, runs the engine and frees the context, and
//! tells the handle what came of it; the handle decides what happens next.

use crate::audio::{decode, decoded, normalized, AudioClip};
use crate::cstring::{
    c_string, empty_c_string, is_c_string, lemma_terminated_c_string, terminated,
};
use crate::error::{Status, WhisperError};
use crate::narrow::{narrow, narrows_to};
use crate::params::{ContextParams, FullParams, TextSource, WhisperSamplingStrategy};
use crate::transcript::{all_text, join_segments, transcript};
use vstd::prelude::*;
use vstd::utf8::encode_utf8;

verus! {

/// Where the native context of a handle stands.
#[derive(Clone, Copy, Debug, PartialEq, Eq, Structural)]
pub enum ContextState {
    /// The engine has not been asked for a context yet.
    Unopened,
    /// The engine was asked and returned no context.
    Absent,
    /// The engine returned a context, and it has not been freed.
    Loaded,
    /// The context was handed back to the engine.
    Released,
}

/// What a handle holds, as plain values.
pub ghost struct WhisperView {
    pub context: ContextState,
    pub cparams: ContextParams,
    pub wparams: FullParams,
    /// The zero-terminated model path.
    pub model_path: Seq<u8>,
    /// The buffer behind the initial-prompt pointer.
    pub prompt: Seq<u8>,
    /// The buffer behind the language pointer.
    pub language: Seq<u8>,
}

impl WhisperView {
    /// Whether the three buffers are C strings.
    pub open spec fn wf(self) -> bool {
        &&& is_c_string(self.model_path)
        &&& is_c_string(self.prompt)
        &&& is_c_string(self.language)
    }

    /// The bytes the initial-prompt pointer references, where it points into
    /// the handle.
    pub open spec fn prompt_target(self) -> Option<Seq<u8>> {
        match self.wparams.initial_prompt {
            TextSource::Handle => Some(self.prompt),
            TextSource::EngineDefault => None,
        }
    }

    /// The bytes the language pointer references, where it points into the
    /// handle.
    pub open spec fn language_target(self) -> Option<Seq<u8>> {
        match self.wparams.language {
            TextSource::Handle => Some(self.language),
            TextSource::EngineDefault => None,
        }
    }

    /// The handle after its initial prompt is set to `text`: the prompt buffer
    /// holds the text and a zero byte, and the pointer of the inference record
    /// points at that buffer.
    pub open spec fn with_prompt(self, text: Seq<char>) -> WhisperView {
        WhisperView {
            prompt: terminated(encode_utf8(text)),
            wparams: FullParams { initial_prompt: TextSource::Handle, ..self.wparams },
            ..self
        }
    }

    /// The handle after its language is set to `code`: the language buffer
    /// holds the code and a zero byte, and the pointer of the inference record
    /// points at that buffer.
    pub open spec fn with_language(self, code: Seq<char>) -> WhisperView {
        WhisperView {
            language: terminated(encode_utf8(code)),
            wparams: FullParams { language: TextSource::Handle, ..self.wparams },
            ..self
        }
    }

    /// The handle that construction yields.
    pub open spec fn fresh(
        path: Seq<char>,
        gpu: Option<i32>,
        flash_attention: bool,
        defaults: FullParams,
    ) -> WhisperView {
        WhisperView {
            context: ContextState::Unopened,
            cparams: ContextParams::spec_new(gpu, flash_attention),
            wparams: defaults,
            model_path: terminated(encode_utf8(path)),
            prompt: terminated(Seq::empty()),
            language: terminated(Seq::empty()),
        }
    }
}

/// The number of engine workers for a run: the smaller of the parallelism the
/// machine offers and the thread count asked for.
pub open spec fn workers(available: i32, n_threads: i32) -> i32 {
    if available <= n_threads {
        available
    } else {
        n_threads
    }
}

/// The number of engine workers for a run. It is at least 1 when the machine
/// offers at least one thread and at least one was asked for.
pub fn worker_count(available: i32, n_threads: i32) -> (count: i32)
    ensures
        count == workers(available, n_threads),
        count <= available && count <= n_threads,
        count == available || count == n_threads,
        available >= 1 && n_threads >= 1 ==> count >= 1,
{
    if available <= n_threads {
        available
    } else {
        n_threads
    }
}

/// Construction is determined by its inputs: two handles made from the same
/// GPU choice and flash-attention flag carry the same context parameters,
/// field for field, whatever their paths and inference defaults are, and with
/// the same path and defaults the handles are equal altogether.
pub proof fn lemma_construction_deterministic(
    path_a: Seq<char>,
    path_b: Seq<char>,
    gpu: Option<i32>,
    flash_attention: bool,
    defaults_a: FullParams,
    defaults_b: FullParams,
)
    ensures
        WhisperView::fresh(path_a, gpu, flash_attention, defaults_a).cparams == WhisperView::fresh(
            path_b,
            gpu,
            flash_attention,
            defaults_b,
        ).cparams,
        WhisperView::fresh(path_a, gpu, flash_attention, defaults_a).cparams
            == ContextParams::spec_new(gpu, flash_attention),
        path_a == path_b && defaults_a == defaults_b ==> WhisperView::fresh(
            path_a,
            gpu,
            flash_attention,
            defaults_a,
        ) == WhisperView::fresh(path_b, gpu, flash_attention, defaults_b),
{
}

/// The handle owns the text its pointers reference. After the initial prompt
/// is set to `first`, the prompt pointer references the bytes of `first` and a
/// zero byte. After it is then set to `second`, the pointer references the
/// bytes of `second` and a zero byte, and nothing of `first` is left: the
/// handle is as if `first` had never been set. The buffers stay C strings.
pub proof fn lemma_prompt_owned(handle: WhisperView, first: Seq<char>, second: Seq<char>)
    requires
        handle.wf(),
        !encode_utf8(first).contains(0u8),
        !encode_utf8(second).contains(0u8),
    ensures
        handle.with_prompt(first).prompt_target() == Some(terminated(encode_utf8(first))),
        handle.with_prompt(first).with_prompt(second).prompt_target() == Some(
            terminated(encode_utf8(second)),
        ),
        handle.with_prompt(first).with_prompt(second) == handle.with_prompt(second),
        handle.with_prompt(first).language_target() == handle.language_target(),
        handle.with_prompt(first).wf(),
{
    lemma_terminated_c_string(encode_utf8(first));
}

/// The same for the language: the language pointer references the bytes of
/// the code set last and a zero byte, and an earlier code leaves no trace.
pub proof fn lemma_language_owned(handle: WhisperView, first: Seq<char>, second: Seq<char>)
    requires
        handle.wf(),
        !encode_utf8(first).contains(0u8),
        !encode_utf8(second).contains(0u8),
    ensures
        handle.with_language(first).language_target() == Some(terminated(encode_utf8(first))),
        handle.with_language(first).with_language(second).language_target() == Some(
            terminated(encode_utf8(second)),
        ),
        handle.with_language(first).with_language(second) == handle.with_language(second),
        handle.with_language(first).prompt_target() == handle.prompt_target(),
        handle.with_language(first).wf(),
{
    lemma_terminated_c_string(encode_utf8(first));
}

/// A 32-bit unsigned number read as a signed one of the same bits.
pub open spec fn wrapped(value: u32) -> i32 {
    if value <= i32::MAX {
        value as i32
    } else {
        (value - 0x1_0000_0000) as i32
    }
}

/// Reads a 32-bit unsigned number as the signed one of the same bits.
pub fn wrap(value: u32) -> (r: i32)
    ensures
        r == wrapped(value),
        value <= i32::MAX ==> r == value,
        value > i32::MAX ==> r == value - 0x1_0000_0000,
{
    if value <= 0x7fff_ffff {
        value as i32
    } else {
        let low: i32 = (value - 0x8000_0000) as i32;
        low + i32::MIN
    }
}

/// The inference record after a choice of strategy: the tag is set, and the
/// number goes to the field of that strategy.
pub open spec fn with_strategy(
    wparams: FullParams,
    strategy: WhisperSamplingStrategy,
    value: u32,
) -> FullParams {
    match strategy {
        WhisperSamplingStrategy::GREEDY => FullParams {
            strategy: WhisperSamplingStrategy::GREEDY,
            best_of: wrapped(value),
            ..wparams
        },
        WhisperSamplingStrategy::BEAM_SEARCH => FullParams {
            strategy: WhisperSamplingStrategy::BEAM_SEARCH,
            beam_size: wrapped(value),
            ..wparams
        },
    }
}

/// What the caller reports to `Whisper::infer`.
#[derive(Debug)]
pub enum InferEvent {
    /// An inference is asked for on `bytes`, on a machine that offers
    /// `available_parallelism` threads.
    Start { bytes: Vec<u8>, available_parallelism: i32 },
    /// The engine ran and returned `code`.
    Ran { code: i32 },
    /// The engine's segments were read, in order.
    Segments { texts: Vec<Vec<u8>> },
}

/// What `Whisper::infer` tells the caller to do next.
#[derive(Debug)]
pub enum InferStep {
    /// Run the engine on `clip` with `params` and `workers` threads, then
    /// report `InferEvent::Ran`.
    Run { params: FullParams, clip: AudioClip, workers: i32 },
    /// Read every segment of the engine, then report `InferEvent::Segments`.
    Collect,
    /// The inference is over; this is its transcript.
    Done { text: String },
    /// The inference failed.
    Failed { error: WhisperError },
}

/// The handle on a model.
#[derive(Debug)]
pub struct Whisper {
    context: ContextState,
    cparams: ContextParams,
    wparams: FullParams,
    model_path: Vec<u8>,
    prompt: Vec<u8>,
    language: Vec<u8>,
}

impl View for Whisper {
    type V = WhisperView;

    closed spec fn view(&self) -> WhisperView {
        WhisperView {
            context: self.context,
            cparams: self.cparams,
            wparams: self.wparams,
            model_path: self.model_path@,
            prompt: self.prompt@,
            language: self.language@,
        }
    }
}

impl Whisper {
    #[verifier::type_invariant]
    spec fn buffers_terminated(&self) -> bool {
        self@.wf()
    }

    /// Makes the handle for the model at `path`. A GPU is used exactly when
    /// `gpu` names one. The inference record starts as `defaults`, the record
    /// the engine hands out for greedy sampling. The context is not opened
    /// yet: the caller opens it with `model_path` and `context_params` and
    /// reports the outcome to `opened`. A path with a zero byte inside is
    /// rejected as an invalid argument.
    pub fn new(path: String, gpu: Option<i32>, flash_attention: bool, defaults: FullParams) -> (r:
        Result<Whisper, WhisperError>)
        ensures
            r is Ok <==> !path@.contains('\0'),
            match r {
                Ok(handle) => !encode_utf8(path@).contains(0u8) && handle@ == WhisperView::fresh(
                    path@,
                    gpu,
                    flash_attention,
                    defaults,
                ) && handle@.wf(),
                Err(e) => encode_utf8(path@).contains(0u8) && e.carries(
                    Status::InvalidArg,
                    "String must not contain a zero byte"@,
                ),
            },
    {
        let model_path = match c_string(path.as_str()) {
            Ok(buffer) => buffer,
            Err(e) => {
                return Err(e);
            },
        };
        let cparams = ContextParams::new(gpu, flash_attention);
        Ok(
            Whisper {
                context: ContextState::Unopened,
                cparams,
                wparams: defaults,
                model_path,
                prompt: empty_c_string(),
                language: empty_c_string(),
            },
        )
    }

    /// Where the native context stands.
    pub fn context(&self) -> (state: ContextState)
        ensures
            state == self@.context,
    {
        self.context
    }

    /// The parameters the native context is to be created with.
    pub fn context_params(&self) -> (cparams: ContextParams)
        ensures
            cparams == self@.cparams,
    {
        self.cparams
    }

    /// The parameters of the next inference, by value.
    pub fn full_params(&self) -> (wparams: FullParams)
        ensures
            wparams == self@.wparams,
    {
        self.wparams
    }

    /// The model path as the engine reads it: a C string.
    pub fn model_path(&self) -> (path: &Vec<u8>)
        ensures
            path@ == self@.model_path,
            is_c_string(path@),
    {
        proof {
            use_type_invariant(self);
        }
        &self.model_path
    }

    /// The text buffer the handle owns for the initial prompt: a C string,
    /// empty until a prompt is set.
    pub fn prompt_buffer(&self) -> (buffer: &Vec<u8>)
        ensures
            buffer@ == self@.prompt,
            is_c_string(buffer@),
    {
        proof {
            use_type_invariant(self);
        }
        &self.prompt
    }

    /// The text buffer the handle owns for the language: a C string, empty
    /// until a language is set.
    pub fn language_buffer(&self) -> (buffer: &Vec<u8>)
        ensures
            buffer@ == self@.language,
            is_c_string(buffer@),
    {
        proof {
            use_type_invariant(self);
        }
        &self.language
    }

    /// The buffer the initial-prompt pointer must be set to, or `None` where
    /// the pointer stays as the engine's defaults left it.
    pub fn prompt_target(&self) -> (target: Option<&Vec<u8>>)
        ensures
            match target {
                Some(buffer) => self@.prompt_target() == Some(buffer@) && is_c_string(buffer@),
                None => self@.prompt_target() is None,
            },
    {
        proof {
            use_type_invariant(self);
        }
        match self.wparams.initial_prompt {
            TextSource::Handle => Some(&self.prompt),
            TextSource::EngineDefault => None,
        }
    }

    /// The buffer the language pointer must be set to, or `None` where the
    /// pointer stays as the engine's defaults left it.
    pub fn language_target(&self) -> (target: Option<&Vec<u8>>)
        ensures
            match target {
                Some(buffer) => self@.language_target() == Some(buffer@) && is_c_string(buffer@),
                None => self@.language_target() is None,
            },
    {
        proof {
            use_type_invariant(self);
        }
        match self.wparams.language {
            TextSource::Handle => Some(&self.language),
            TextSource::EngineDefault => None,
        }
    }

    /// Records what opening the native context gave. Only the first report
    /// counts: it tells whether the report was taken, so that the caller can
    /// free a context the handle did not take.
    pub fn opened(&mut self, loaded: bool) -> (taken: bool)
        ensures
            taken == (old(self)@.context == ContextState::Unopened),
            final(self)@ == (WhisperView {
                context: if !taken {
                    old(self)@.context
                } else if loaded {
                    ContextState::Loaded
                } else {
                    ContextState::Absent
                },
                ..old(self)@
            }),
    {
        proof {
            use_type_invariant(&*self);
        }
        match self.context {
            ContextState::Unopened => {
                self.context = if loaded {
                    ContextState::Loaded
                } else {
                    ContextState::Absent
                };
                true
            },
            _ => false,
        }
    }

    /// Gives the native context up. It tells whether the caller must hand the
    /// context to the engine's destructor now: on the first call only.
    pub fn release(&mut self) -> (free: bool)
        ensures
            free == (old(self)@.context != ContextState::Released),
            final(self)@ == (WhisperView { context: ContextState::Released, ..old(self)@ }),
    {
        proof {
            use_type_invariant(&*self);
        }
        let free = match self.context {
            ContextState::Released => false,
            _ => true,
        };
        self.context = ContextState::Released;
        free
    }

    /// Chooses the sampling strategy, and with it the number of candidates that
    /// strategy keeps: `best_of` for greedy sampling, `beam_size` for beam
    /// search. The number of the other strategy stays as it was, and so does
    /// everything else. A number above the largest signed value wraps round.
    pub fn strategy(&mut self, strategy: WhisperSamplingStrategy, value: u32) -> (handle: &Self)
        ensures
            final(self)@ == (WhisperView {
                wparams: with_strategy(old(self)@.wparams, strategy, value),
                ..old(self)@
            }),
            *handle == *final(self),
    {
        proof {
            use_type_invariant(&*self);
        }
        let number: i32 = wrap(value);
        let wparams = match strategy {
            WhisperSamplingStrategy::GREEDY => FullParams {
                strategy: WhisperSamplingStrategy::GREEDY,
                best_of: number,
                ..self.wparams
            },
            WhisperSamplingStrategy::BEAM_SEARCH => FullParams {
                strategy: WhisperSamplingStrategy::BEAM_SEARCH,
                beam_size: number,
                ..self.wparams
            },
        };
        self.wparams = wparams;
        self
    }

    /// Sets `n_threads`: the number of threads an inference may use. Nothing
    /// else changes.
    pub fn n_threads(&mut self, num_threads: i32) -> (handle: &Self)
        ensures
            final(self)@ == (WhisperView {
                wparams: FullParams { n_threads: num_threads, ..old(self)@.wparams },
                ..old(self)@
            }),
            *handle == *final(self),
    {
        proof {
            use_type_invariant(&*self);
        }
        self.wparams.n_threads = num_threads;
        self
    }

    /// Sets `n_max_text_ctx`: the most tokens of earlier text the decoder is
    /// given as context. Nothing else changes.
    pub fn n_max_text_ctx(&mut self, context_length: i32) -> (handle: &Self)
        ensures
            final(self)@ == (WhisperView {
                wparams: FullParams { n_max_text_ctx: context_length, ..old(self)@.wparams },
                ..old(self)@
            }),
            *handle == *final(self),
    {
        proof {
            use_type_invariant(&*self);
        }
        self.wparams.n_max_text_ctx = context_length;
        self
    }

    /// Sets `offset_ms`: where in the audio processing starts, in milliseconds.
    /// An offset above the largest signed value wraps round, as the engine's
    /// field is signed. Nothing else changes.
    pub fn offset_ms(&mut self, ms: u32) -> (handle: &Self)
        ensures
            final(self)@ == (WhisperView {
                wparams: FullParams { offset_ms: wrapped(ms), ..old(self)@.wparams },
                ..old(self)@
            }),
            *handle == *final(self),
    {
        proof {
            use_type_invariant(&*self);
        }
        self.wparams.offset_ms = wrap(ms);
        self
    }

    /// Sets `duration_ms`: how much of the audio is processed, in milliseconds.
    /// Nothing else changes.
    pub fn duration_ms(&mut self, ms: i32) -> (handle: &Self)
        ensures
            final(self)@ == (WhisperView {
                wparams: FullParams { duration_ms: ms, ..old(self)@.wparams },
                ..old(self)@
            }),
            *handle == *final(self),
    {
        proof {
            use_type_invariant(&*self);
        }
        self.wparams.duration_ms = ms;
        self
    }

    /// Sets `translate`: whether the transcript is translated to English.
    /// Nothing else changes.
    pub fn translate(&mut self, enable_translation: bool) -> (handle: &Self)
        ensures
            final(self)@ == (WhisperView {
                wparams: FullParams { translate: enable_translation, ..old(self)@.wparams },
                ..old(self)@
            }),
            *handle == *final(self),
    {
        proof {
            use_type_invariant(&*self);
        }
        self.wparams.translate = enable_translation;
        self
    }

    /// Sets `no_context`: whether earlier text is withheld from the decoder.
    /// Nothing else changes.
    pub fn no_context(&mut self, disable_previous_context: bool) -> (handle: &Self)
        ensures
            final(self)@ == (WhisperView {
                wparams: FullParams { no_context: disable_previous_context, ..old(self)@.wparams },
                ..old(self)@
            }),
            *handle == *final(self),
    {
        proof {
            use_type_invariant(&*self);
        }
        self.wparams.no_context = disable_previous_context;
        self
    }

    /// Sets `no_timestamps`: whether timestamps are left out. Nothing else changes.
    pub fn no_timestamps(&mut self, disable_timestamps: bool) -> (handle: &Self)
        ensures
            final(self)@ == (WhisperView {
                wparams: FullParams { no_timestamps: disable_timestamps, ..old(self)@.wparams },
                ..old(self)@
            }),
            *handle == *final(self),
    {
        proof {
            use_type_invariant(&*self);
        }
        self.wparams.no_timestamps = disable_timestamps;
        self
    }

    /// Sets `single_segment`: whether the whole transcript is forced into one
    /// segment. Nothing else changes.
    pub fn single_segment(&mut self, enable_single_segment_output: bool) -> (handle: &Self)
        ensures
            final(self)@ == (WhisperView {
                wparams: FullParams {
                    single_segment: enable_single_segment_output,
                    ..old(self)@.wparams
                },
                ..old(self)@
            }),
            *handle == *final(self),
    {
        proof {
            use_type_invariant(&*self);
        }
        self.wparams.single_segment = enable_single_segment_output;
        self
    }

    /// Sets `print_special`: whether the engine prints special tokens. Nothing
    /// else changes.
    pub fn print_special(&mut self, enable_print_special_tokens: bool) -> (handle: &Self)
        ensures
            final(self)@ == (WhisperView {
                wparams: FullParams {
                    print_special: enable_print_special_tokens,
                    ..old(self)@.wparams
                },
                ..old(self)@
            }),
            *handle == *final(self),
    {
        proof {
            use_type_invariant(&*self);
        }
        self.wparams.print_special = enable_print_special_tokens;
        self
    }

    /// Sets `print_progress`: whether the engine prints its progress. Nothing
    /// else changes.
    pub fn print_progress(&mut self, enable_print_progress: bool) -> (handle: &Self)
        ensures
            final(self)@ == (WhisperView {
                wparams: FullParams { print_progress: enable_print_progress, ..old(self)@.wparams },
                ..old(self)@
            }),
            *handle == *final(self),
    {
        proof {
            use_type_invariant(&*self);
        }
        self.wparams.print_progress = enable_print_progress;
        self
    }

    /// Sets `print_realtime`: whether the engine prints text as it is decoded.
    /// Nothing else changes.
    pub fn print_realtime(&mut self, enable_realtime_print: bool) -> (handle: &Self)
        ensures
            final(self)@ == (WhisperView {
                wparams: FullParams { print_realtime: enable_realtime_print, ..old(self)@.wparams },
                ..old(self)@
            }),
            *handle == *final(self),
    {
        proof {
            use_type_invariant(&*self);
        }
        self.wparams.print_realtime = enable_realtime_print;
        self
    }

    /// Sets `print_timestamps`: whether the engine prints a timestamp with each
    /// segment. Nothing else changes.
    pub fn print_timestamps(&mut self, enable_print_timestamps: bool) -> (handle: &Self)
        ensures
            final(self)@ == (WhisperView {
                wparams: FullParams {
                    print_timestamps: enable_print_timestamps,
                    ..old(self)@.wparams
                },
                ..old(self)@
            }),
            *handle == *final(self),
    {
        proof {
            use_type_invariant(&*self);
        }
        self.wparams.print_timestamps = enable_print_timestamps;
        self
    }

    /// Sets `token_timestamps`: whether timestamps are computed for each token.
    /// Nothing else changes.
    pub fn token_timestamps(&mut self, enable_token_timestamps: bool) -> (handle: &Self)
        ensures
            final(self)@ == (WhisperView {
                wparams: FullParams {
                    token_timestamps: enable_token_timestamps,
                    ..old(self)@.wparams
                },
                ..old(self)@
            }),
            *handle == *final(self),
    {
        proof {
            use_type_invariant(&*self);
        }
        self.wparams.token_timestamps = enable_token_timestamps;
        self
    }

    /// Sets `thold_pt`: the probability threshold for token timestamps. The
    /// number comes as the bit pattern of a double and is stored narrowed to
    /// single precision. Nothing else changes.
    pub fn thold_pt(&mut self, threshold: u64) -> (handle: &Self)
        ensures
            narrows_to(threshold, final(self)@.wparams.thold_pt),
            final(self)@ == (WhisperView {
                wparams: FullParams {
                    thold_pt: final(self)@.wparams.thold_pt,
                    ..old(self)@.wparams
                },
                ..old(self)@
            }),
            *handle == *final(self),
    {
        proof {
            use_type_invariant(&*self);
        }
        self.wparams.thold_pt = narrow(threshold);
        self
    }

    /// Sets `thold_ptsum`: the threshold on the summed probability for token
    /// timestamps. The number comes as the bit pattern of a double and is
    /// stored narrowed to single precision. Nothing else changes.
    pub fn thold_ptsum(&mut self, threshold: u64) -> (handle: &Self)
        ensures
            narrows_to(threshold, final(self)@.wparams.thold_ptsum),
            final(self)@ == (WhisperView {
                wparams: FullParams {
                    thold_ptsum: final(self)@.wparams.thold_ptsum,
                    ..old(self)@.wparams
                },
                ..old(self)@
            }),
            *handle == *final(self),
    {
        proof {
            use_type_invariant(&*self);
        }
        self.wparams.thold_ptsum = narrow(threshold);
        self
    }

    /// Sets `max_len`: the longest segment, in characters. Nothing else changes.
    pub fn max_len(&mut self, segment_length: i32) -> (handle: &Self)
        ensures
            final(self)@ == (WhisperView {
                wparams: FullParams { max_len: segment_length, ..old(self)@.wparams },
                ..old(self)@
            }),
            *handle == *final(self),
    {
        proof {
            use_type_invariant(&*self);
        }
        self.wparams.max_len = segment_length;
        self
    }

    /// Sets `split_on_word`: whether segments are split at words, not at
    /// tokens. Nothing else changes.
    pub fn split_on_word(&mut self, enable_split_on_word: bool) -> (handle: &Self)
        ensures
            final(self)@ == (WhisperView {
                wparams: FullParams { split_on_word: enable_split_on_word, ..old(self)@.wparams },
                ..old(self)@
            }),
            *handle == *final(self),
    {
        proof {
            use_type_invariant(&*self);
        }
        self.wparams.split_on_word = enable_split_on_word;
        self
    }

    /// Sets `max_tokens`: the most tokens in one segment. Nothing else changes.
    pub fn max_tokens(&mut self, token_length: i32) -> (handle: &Self)
        ensures
            final(self)@ == (WhisperView {
                wparams: FullParams { max_tokens: token_length, ..old(self)@.wparams },
                ..old(self)@
            }),
            *handle == *final(self),
    {
        proof {
            use_type_invariant(&*self);
        }
        self.wparams.max_tokens = token_length;
        self
    }

    /// Sets `debug_mode`: whether the engine runs in debug mode. Nothing else
    /// changes.
    pub fn debug_mode(&mut self, enable_debug: bool) -> (handle: &Self)
        ensures
            final(self)@ == (WhisperView {
                wparams: FullParams { debug_mode: enable_debug, ..old(self)@.wparams },
                ..old(self)@
            }),
            *handle == *final(self),
    {
        proof {
            use_type_invariant(&*self);
        }
        self.wparams.debug_mode = enable_debug;
        self
    }

    /// Sets `audio_ctx`: the size of the audio context the encoder uses.
    /// Nothing else changes.
    pub fn audio_ctx(&mut self, context_length: i32) -> (handle: &Self)
        ensures
            final(self)@ == (WhisperView {
                wparams: FullParams { audio_ctx: context_length, ..old(self)@.wparams },
                ..old(self)@
            }),
            *handle == *final(self),
    {
        proof {
            use_type_invariant(&*self);
        }
        self.wparams.audio_ctx = context_length;
        self
    }

    /// Sets `tdrz_enable`: whether speaker turns are detected. Nothing else
    /// changes.
    pub fn tdrz_enable(&mut self, enable_tdrz: bool) -> (handle: &Self)
        ensures
            final(self)@ == (WhisperView {
                wparams: FullParams { tdrz_enable: enable_tdrz, ..old(self)@.wparams },
                ..old(self)@
            }),
            *handle == *final(self),
    {
        proof {
            use_type_invariant(&*self);
        }
        self.wparams.tdrz_enable = enable_tdrz;
        self
    }

    /// Sets the text the decoder is primed with.
    /// The handle keeps its own zero-terminated copy of the text and points
    /// the inference record at it; the copy it held before is dropped. Text
    /// with a zero byte inside is rejected as an invalid argument, and the
    /// handle stays as it was.
    pub fn initial_prompt(&mut self, prompt: String) -> (r: Result<&Self, WhisperError>)
        ensures
            r is Ok <==> !prompt@.contains('\0'),
            match r {
                Ok(handle) => !encode_utf8(prompt@).contains(0u8) && final(self)@ == old(
                    self,
                )@.with_prompt(prompt@) && *handle == *final(self),
                Err(e) => encode_utf8(prompt@).contains(0u8) && final(self)@ == old(self)@
                    && e.carries(Status::InvalidArg, "String must not contain a zero byte"@),
            },
    {
        proof {
            use_type_invariant(&*self);
        }
        let buffer = match c_string(prompt.as_str()) {
            Ok(buffer) => buffer,
            Err(e) => {
                return Err(e);
            },
        };
        self.prompt = buffer;
        self.wparams = FullParams { initial_prompt: TextSource::Handle, ..self.wparams };
        Ok(self)
    }

    /// Sets the language of the audio, by its code.
    /// The handle keeps its own zero-terminated copy of the text and points
    /// the inference record at it; the copy it held before is dropped. Text
    /// with a zero byte inside is rejected as an invalid argument, and the
    /// handle stays as it was.
    pub fn language(&mut self, country_code: String) -> (r: Result<&Self, WhisperError>)
        ensures
            r is Ok <==> !country_code@.contains('\0'),
            match r {
                Ok(handle) => !encode_utf8(country_code@).contains(0u8) && final(self)@ == old(
                    self,
                )@.with_language(country_code@) && *handle == *final(self),
                Err(e) => encode_utf8(country_code@).contains(0u8) && final(self)@ == old(self)@
                    && e.carries(Status::InvalidArg, "String must not contain a zero byte"@),
            },
    {
        proof {
            use_type_invariant(&*self);
        }
        let buffer = match c_string(country_code.as_str()) {
            Ok(buffer) => buffer,
            Err(e) => {
                return Err(e);
            },
        };
        self.language = buffer;
        self.wparams = FullParams { language: TextSource::Handle, ..self.wparams };
        Ok(self)
    }

    /// Sets `suppress_blank`: whether blank output is suppressed. Nothing else
    /// changes.
    pub fn suppress_blank(&mut self, hide_blanks: bool) -> (handle: &Self)
        ensures
            final(self)@ == (WhisperView {
                wparams: FullParams { suppress_blank: hide_blanks, ..old(self)@.wparams },
                ..old(self)@
            }),
            *handle == *final(self),
    {
        proof {
            use_type_invariant(&*self);
        }
        self.wparams.suppress_blank = hide_blanks;
        self
    }

    /// Sets `suppress_nst`: whether tokens that are not speech are suppressed.
    /// Nothing else changes.
    pub fn suppress_nst(&mut self, hide_nst: bool) -> (handle: &Self)
        ensures
            final(self)@ == (WhisperView {
                wparams: FullParams { suppress_nst: hide_nst, ..old(self)@.wparams },
                ..old(self)@
            }),
            *handle == *final(self),
    {
        proof {
            use_type_invariant(&*self);
        }
        self.wparams.suppress_nst = hide_nst;
        self
    }

    /// Sets `temperature`: the sampling temperature to start from. The number
    /// comes as the bit pattern of a double and is stored narrowed to single
    /// precision. Nothing else changes.
    pub fn temperature(&mut self, value: u64) -> (handle: &Self)
        ensures
            narrows_to(value, final(self)@.wparams.temperature),
            final(self)@ == (WhisperView {
                wparams: FullParams {
                    temperature: final(self)@.wparams.temperature,
                    ..old(self)@.wparams
                },
                ..old(self)@
            }),
            *handle == *final(self),
    {
        proof {
            use_type_invariant(&*self);
        }
        self.wparams.temperature = narrow(value);
        self
    }

    /// Sets `max_initial_ts`: the latest the first timestamp may be. The number
    /// comes as the bit pattern of a double and is stored narrowed to single
    /// precision. Nothing else changes.
    pub fn max_initial_ts(&mut self, value: u64) -> (handle: &Self)
        ensures
            narrows_to(value, final(self)@.wparams.max_initial_ts),
            final(self)@ == (WhisperView {
                wparams: FullParams {
                    max_initial_ts: final(self)@.wparams.max_initial_ts,
                    ..old(self)@.wparams
                },
                ..old(self)@
            }),
            *handle == *final(self),
    {
        proof {
            use_type_invariant(&*self);
        }
        self.wparams.max_initial_ts = narrow(value);
        self
    }

    /// Sets `length_penalty`: the penalty on the length of a candidate. The
    /// number comes as the bit pattern of a double and is stored narrowed to
    /// single precision. Nothing else changes.
    pub fn length_penalty(&mut self, penalty: u64) -> (handle: &Self)
        ensures
            narrows_to(penalty, final(self)@.wparams.length_penalty),
            final(self)@ == (WhisperView {
                wparams: FullParams {
                    length_penalty: final(self)@.wparams.length_penalty,
                    ..old(self)@.wparams
                },
                ..old(self)@
            }),
            *handle == *final(self),
    {
        proof {
            use_type_invariant(&*self);
        }
        self.wparams.length_penalty = narrow(penalty);
        self
    }

    /// Sets `temperature_inc`: the step by which the temperature rises when
    /// decoding falls back. The number comes as the bit pattern of a double and
    /// is stored narrowed to single precision. Nothing else changes.
    pub fn temperature_inc(&mut self, increment: u64) -> (handle: &Self)
        ensures
            narrows_to(increment, final(self)@.wparams.temperature_inc),
            final(self)@ == (WhisperView {
                wparams: FullParams {
                    temperature_inc: final(self)@.wparams.temperature_inc,
                    ..old(self)@.wparams
                },
                ..old(self)@
            }),
            *handle == *final(self),
    {
        proof {
            use_type_invariant(&*self);
        }
        self.wparams.temperature_inc = narrow(increment);
        self
    }

    /// Sets `entropy_thold`: the entropy above which decoding falls back. The
    /// number comes as the bit pattern of a double and is stored narrowed to
    /// single precision. Nothing else changes.
    pub fn entropy_thold(&mut self, threshold: u64) -> (handle: &Self)
        ensures
            narrows_to(threshold, final(self)@.wparams.entropy_thold),
            final(self)@ == (WhisperView {
                wparams: FullParams {
                    entropy_thold: final(self)@.wparams.entropy_thold,
                    ..old(self)@.wparams
                },
                ..old(self)@
            }),
            *handle == *final(self),
    {
        proof {
            use_type_invariant(&*self);
        }
        self.wparams.entropy_thold = narrow(threshold);
        self
    }

    /// Sets `logprob_thold`: the average log probability below which decoding
    /// falls back. The number comes as the bit pattern of a double and is
    /// stored narrowed to single precision. Nothing else changes.
    pub fn logprob_thold(&mut self, threshold: u64) -> (handle: &Self)
        ensures
            narrows_to(threshold, final(self)@.wparams.logprob_thold),
            final(self)@ == (WhisperView {
                wparams: FullParams {
                    logprob_thold: final(self)@.wparams.logprob_thold,
                    ..old(self)@.wparams
                },
                ..old(self)@
            }),
            *handle == *final(self),
    {
        proof {
            use_type_invariant(&*self);
        }
        self.wparams.logprob_thold = narrow(threshold);
        self
    }

    /// Sets `no_speech_thold`: the probability above which a segment counts as
    /// silence. The number comes as the bit pattern of a double and is stored
    /// narrowed to single precision. Nothing else changes.
    pub fn no_speech_thold(&mut self, threshold: u64) -> (handle: &Self)
        ensures
            narrows_to(threshold, final(self)@.wparams.no_speech_thold),
            final(self)@ == (WhisperView {
                wparams: FullParams {
                    no_speech_thold: final(self)@.wparams.no_speech_thold,
                    ..old(self)@.wparams
                },
                ..old(self)@
            }),
            *handle == *final(self),
    {
        proof {
            use_type_invariant(&*self);
        }
        self.wparams.no_speech_thold = narrow(threshold);
        self
    }

    /// One step of an inference. The caller reports `Start`, runs the engine
    /// when told to `Run`, reports `Ran`, reads the segments when told to
    /// `Collect`, reports `Segments`, and receives the transcript in `Done`.
    /// `Failed` ends the inference at any step. The handle is not changed.
    ///
    /// On `Start` the payload is decoded first and a rejected payload fails
    /// the inference; then a handle without a loaded context fails it. On
    /// `Ran` a positive code fails it. On `Segments` text that is not UTF-8
    /// fails it.
    pub fn infer(&self, event: InferEvent) -> (step: InferStep)
        ensures
            match event {
                InferEvent::Start { bytes, available_parallelism } => match decoded(bytes@) {
                    Err(reason) => step matches InferStep::Failed { error } && error.carries(
                        Status::InvalidArg,
                        reason,
                    ),
                    Ok(samples) => if self@.context != ContextState::Loaded {
                        step matches InferStep::Failed { error } && error.carries(
                            Status::InvalidArg,
                            "model not properly loaded"@,
                        )
                    } else {
                        step matches InferStep::Run { params, clip, workers: count }
                            && params == self@.wparams && normalized(clip@, samples) && count
                            == workers(available_parallelism, self@.wparams.n_threads)
                    },
                },
                InferEvent::Ran { code } => if code > 0 {
                    step matches InferStep::Failed { error } && error.carries(
                        Status::GenericFailure,
                        "failed to run whisper model"@,
                    )
                } else {
                    step is Collect
                },
                InferEvent::Segments { texts } => if all_text(texts@) {
                    step matches InferStep::Done { text } && text@ == transcript(texts@)
                } else {
                    step matches InferStep::Failed { error } && error.carries(
                        Status::GenericFailure,
                        "Segment text is not valid UTF-8"@,
                    )
                },
            },
    {
        match event {
            InferEvent::Start { bytes, available_parallelism } => {
                let params = self.wparams;
                let clip = match decode(bytes.as_slice()) {
                    Ok(clip) => clip,
                    Err(error) => {
                        return InferStep::Failed { error };
                    },
                };
                match self.context {
                    ContextState::Loaded => {
                        let workers = worker_count(available_parallelism, params.n_threads);
                        InferStep::Run { params, clip, workers }
                    },
                    _ => InferStep::Failed {
                        error: WhisperError::invalid_arg("model not properly loaded"),
                    },
                }
            },
            InferEvent::Ran { code } => {
                if code > 0 {
                    InferStep::Failed {
                        error: WhisperError::generic_failure("failed to run whisper model"),
                    }
                } else {
                    InferStep::Collect
                }
            },
            InferEvent::Segments { texts } => match join_segments(&texts) {
                Ok(text) => InferStep::Done { text },
                Err(error) => InferStep::Failed { error },
            },
        }
    }
}

} // verus!
