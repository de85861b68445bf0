//! The two parameter records the engine consumes.

use vstd::prelude::*;

verus! {

/// How the engine samples tokens.
#[allow(non_camel_case_types)]
#[derive(Clone, Copy, Debug, PartialEq, Eq, Structural)]
pub enum WhisperSamplingStrategy {
    GREEDY,
    BEAM_SEARCH,
}

/// The alignment-heads table used for time warping. The binding never enables
/// time warping, so the only preset it can name is the absent one.
#[derive(Clone, Copy, Debug, PartialEq, Eq, Structural)]
pub enum AheadsPreset {
    NoPreset,
}

/// The memory budget the engine may spend on time warping: 128 MiB.
pub const DTW_MEM_SIZE: usize = 134217728;

/// The parameters a native context is created with. They are fixed at
/// construction.
#[derive(Clone, Copy, Debug, PartialEq, Eq, Structural)]
pub struct ContextParams {
    pub use_gpu: bool,
    pub flash_attn: bool,
    pub gpu_device: i32,
    pub dtw_token_timestamps: bool,
    pub dtw_aheads_preset: AheadsPreset,
    pub dtw_n_top: i32,
    /// The number of custom alignment heads; the table itself is absent.
    pub dtw_n_heads: usize,
    pub dtw_mem_size: usize,
}

impl ContextParams {
    /// The record for a GPU choice and a flash-attention flag: a GPU is used
    /// exactly when an index is given, the index defaults to 0, and time
    /// warping is switched off.
    pub open spec fn spec_new(gpu: Option<i32>, flash_attention: bool) -> ContextParams {
        ContextParams {
            use_gpu: gpu is Some,
            flash_attn: flash_attention,
            gpu_device: match gpu {
                Some(index) => index,
                None => 0,
            },
            dtw_token_timestamps: false,
            dtw_aheads_preset: AheadsPreset::NoPreset,
            dtw_n_top: -1i32,
            dtw_n_heads: 0,
            dtw_mem_size: DTW_MEM_SIZE,
        }
    }

    /// Whether time warping is off, as the binding always leaves it.
    pub open spec fn dtw_disabled(&self) -> bool {
        &&& !self.dtw_token_timestamps
        &&& self.dtw_aheads_preset == AheadsPreset::NoPreset
        &&& self.dtw_n_top == -1
        &&& self.dtw_n_heads == 0
        &&& self.dtw_mem_size == DTW_MEM_SIZE
    }

    /// Whether the record is one the engine can be created with: a device
    /// index that is not negative, and time warping off.
    pub open spec fn wf(&self) -> bool {
        self.gpu_device >= 0 && self.dtw_disabled()
    }

    pub fn new(gpu: Option<i32>, flash_attention: bool) -> (cparams: ContextParams)
        ensures
            cparams == Self::spec_new(gpu, flash_attention),
            cparams.dtw_disabled(),
            cparams.use_gpu == (gpu is Some),
            (gpu matches Some(index) && index < 0) <==> !cparams.wf(),
    {
        let use_gpu = match gpu {
            Some(_) => true,
            None => false,
        };
        let gpu_device = match gpu {
            Some(index) => index,
            None => 0,
        };
        ContextParams {
            use_gpu,
            flash_attn: flash_attention,
            gpu_device,
            dtw_token_timestamps: false,
            dtw_aheads_preset: AheadsPreset::NoPreset,
            dtw_n_top: -1,
            dtw_n_heads: 0,
            dtw_mem_size: DTW_MEM_SIZE,
        }
    }
}

/// Where a text pointer of the inference record points.
#[derive(Clone, Copy, Debug, PartialEq, Eq, Structural)]
pub enum TextSource {
    /// Wherever the engine's defaults left it; the binding owns nothing there.
    EngineDefault,
    /// At the buffer that the handle owns for this field.
    Handle,
}

/// The parameters of one inference run. The fractional fields hold the bit
/// pattern of an IEEE 754 single-precision number.
#[derive(Clone, Copy, Debug, PartialEq, Eq, Structural)]
pub struct FullParams {
    pub strategy: WhisperSamplingStrategy,
    /// The candidates kept under greedy sampling.
    pub best_of: i32,
    /// The beams kept under beam search.
    pub beam_size: i32,
    pub n_threads: i32,
    pub n_max_text_ctx: i32,
    pub offset_ms: i32,
    pub duration_ms: i32,
    pub translate: bool,
    pub no_context: bool,
    pub no_timestamps: bool,
    pub single_segment: bool,
    pub print_special: bool,
    pub print_progress: bool,
    pub print_realtime: bool,
    pub print_timestamps: bool,
    pub token_timestamps: bool,
    pub thold_pt: u32,
    pub thold_ptsum: u32,
    pub max_len: i32,
    pub split_on_word: bool,
    pub max_tokens: i32,
    pub debug_mode: bool,
    pub audio_ctx: i32,
    pub tdrz_enable: bool,
    pub initial_prompt: TextSource,
    pub language: TextSource,
    pub suppress_blank: bool,
    pub suppress_nst: bool,
    pub temperature: u32,
    pub max_initial_ts: u32,
    pub length_penalty: u32,
    pub temperature_inc: u32,
    pub entropy_thold: u32,
    pub logprob_thold: u32,
    pub no_speech_thold: u32,
}

} // verus!
