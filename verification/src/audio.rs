//! Decoding an in-memory WAV payload into normalised samples.
//!
//! The container is parsed by the `hound` crate. What this module adds is the
//! decision which payloads the engine may see (mono, 16 kHz, 16 bits per
//! sample) and the conversion of each sample to the number the engine expects.

use crate::error::{Status, WhisperError};
use crate::single::{is_ratio, lemma_ratio_unique, sample_bits};
use vstd::prelude::*;

verus! {

/// What the format chunk of a WAV payload declares.
#[derive(Clone, Copy, Debug, PartialEq, Eq, Structural)]
pub struct WavFormat {
    pub channels: u16,
    pub sample_rate: u32,
    pub bits_per_sample: u16,
}

/// The only channel count the engine takes.
pub const CHANNELS: u16 = 1;

/// The only sample rate the engine takes, in Hz.
pub const SAMPLE_RATE: u32 = 16000;

/// The only sample width the engine takes, in bits.
pub const BITS_PER_SAMPLE: u16 = 16;

/// The power of two every sample is divided by: samples become `x / 2^15`.
pub const SAMPLE_SCALE: u32 = 15;

impl WavFormat {
    /// The complaint about a format the engine does not take, or `None` for
    /// mono 16 kHz audio of 16 bits per sample. The channel count is looked at
    /// first, then the rate, then the width.
    pub open spec fn complaint(&self) -> Option<Seq<char>> {
        if self.channels != CHANNELS {
            Some("Channels must be equal to 1"@)
        } else if self.sample_rate != SAMPLE_RATE {
            Some("Sample rate must be equal to 16khz"@)
        } else if self.bits_per_sample != BITS_PER_SAMPLE {
            Some("Bits per sample must be equal to 16"@)
        } else {
            None
        }
    }

    /// Accepts mono 16 kHz audio of 16 bits per sample and rejects every other
    /// format as an invalid argument, with the complaint as the message.
    pub fn check(&self) -> (r: Result<(), WhisperError>)
        ensures
            match r {
                Ok(_) => self.complaint() is None,
                Err(e) => self.complaint() is Some && e.carries(
                    Status::InvalidArg,
                    self.complaint().unwrap(),
                ),
            },
    {
        if self.channels != CHANNELS {
            return Err(WhisperError::invalid_arg("Channels must be equal to 1"));
        }
        if self.sample_rate != SAMPLE_RATE {
            return Err(WhisperError::invalid_arg("Sample rate must be equal to 16khz"));
        }
        if self.bits_per_sample != BITS_PER_SAMPLE {
            return Err(WhisperError::invalid_arg("Bits per sample must be equal to 16"));
        }
        Ok(())
    }
}

/// The audio of one inference run: single-precision bit patterns, one for each
/// sample, in the order of the payload.
#[derive(Debug)]
pub struct AudioClip {
    pub samples: Vec<u32>,
}

impl View for AudioClip {
    type V = Seq<u32>;

    open spec fn view(&self) -> Seq<u32> {
        self.samples@
    }
}

/// Whether `clip` holds, sample for sample and in order, the patterns of
/// `pcm[i] / 32768`.
pub open spec fn normalized(clip: Seq<u32>, pcm: Seq<i16>) -> bool {
    &&& clip.len() == pcm.len()
    &&& forall|i: int|
        0 <= i < pcm.len() ==> is_ratio(#[trigger] clip[i], pcm[i] as int, SAMPLE_SCALE as nat)
}

/// Normalisation leaves no choice: two clips that both hold the normalised
/// samples of one payload are the same clip.
pub proof fn lemma_normalized_unique(first: Seq<u32>, second: Seq<u32>, pcm: Seq<i16>)
    requires
        normalized(first, pcm),
        normalized(second, pcm),
    ensures
        first == second,
{
    assert forall|i: int| 0 <= i < first.len() implies first[i] == second[i] by {
        lemma_ratio_unique(first[i], second[i], pcm[i] as int, SAMPLE_SCALE as nat);
    }
    assert(first =~= second);
}

impl AudioClip {
    /// The number of samples.
    pub fn len(&self) -> (n: usize)
        ensures
            n == self@.len(),
    {
        self.samples.len()
    }

    /// Divides every sample by 32768, keeping the order.
    pub fn normalize(pcm: &Vec<i16>) -> (clip: AudioClip)
        ensures
            normalized(clip@, pcm@),
    {
        let mut samples: Vec<u32> = Vec::new();
        let mut i: usize = 0;
        while i < pcm.len()
            invariant
                i <= pcm.len(),
                samples@.len() == i,
                forall|j: int|
                    0 <= j < i ==> is_ratio(
                        #[trigger] samples@[j],
                        pcm@[j] as int,
                        SAMPLE_SCALE as nat,
                    ),
            decreases pcm.len() - i,
        {
            samples.push(sample_bits(pcm[i]));
            i = i + 1;
        }
        AudioClip { samples }
    }

    /// The clip for a payload whose header declared `format` and whose
    /// samples, where they could all be read, are `pcm`. The format is judged
    /// first; a payload of the right format whose samples could not be read is
    /// rejected too.
    pub fn from_wav(format: WavFormat, pcm: Option<Vec<i16>>) -> (r: Result<
        AudioClip,
        WhisperError,
    >)
        ensures
            match r {
                Ok(clip) => clip_of(Some(format), pcm_view(pcm)) matches Ok(samples) && normalized(
                    clip@,
                    samples,
                ),
                Err(e) => clip_of(Some(format), pcm_view(pcm)) matches Err(reason) && e.carries(
                    Status::InvalidArg,
                    reason,
                ),
            },
    {
        match format.check() {
            Err(e) => Err(e),
            Ok(_) => match pcm {
                None => Err(WhisperError::invalid_arg("WAV samples could not be read")),
                Some(samples) => Ok(AudioClip::normalize(&samples)),
            },
        }
    }
}

/// The samples of an optional vector, as a sequence.
pub open spec fn pcm_view(pcm: Option<Vec<i16>>) -> Option<Seq<i16>> {
    match pcm {
        Some(samples) => Some(samples@),
        None => None,
    }
}

/// What becomes of a payload, given the format its header declares (`None`
/// where the header does not parse) and its samples (`None` where they cannot
/// all be read): the samples to normalise, or the message of the rejection.
pub open spec fn clip_of(format: Option<WavFormat>, pcm: Option<Seq<i16>>) -> Result<
    Seq<i16>,
    Seq<char>,
> {
    match format {
        None => Err("WAV data could not be parsed"@),
        Some(format) => match format.complaint() {
            Some(reason) => Err(reason),
            None => match pcm {
                None => Err("WAV samples could not be read"@),
                Some(samples) => Ok(samples),
            },
        },
    }
}

/// The error type of `hound`, carried from the parser to the place where it
/// becomes a failure of this crate.
#[verifier::external_type_specification]
#[verifier::external_body]
pub struct ExHoundError(hound::Error);

/// The format that `hound` finds in the header of a payload: `None` where
/// `hound::WavReader::new` fails.
pub uninterp spec fn wav_format(bytes: Seq<u8>) -> Option<WavFormat>;

/// The samples that `hound` reads from a payload as 16-bit integers: `None`
/// where one of them cannot be read.
pub uninterp spec fn wav_samples(bytes: Seq<u8>) -> Option<Seq<i16>>;

/// Parses a payload with `hound::WavReader::new`, takes the format from
/// `WavReader::spec` and reads every sample through
/// `WavReader::into_samples::<i16>`. Nothing is proved of the parser: the
/// contract only names what it found, as a function of the bytes.
#[verifier::external_body]
fn read_wav(bytes: &[u8]) -> (r: Result<(WavFormat, Result<Vec<i16>, hound::Error>), hound::Error>)
    ensures
        match r {
            Ok((format, Ok(samples))) => wav_format(bytes@) == Some(format) && wav_samples(bytes@)
                == Some(samples@),
            Ok((format, Err(_))) => wav_format(bytes@) == Some(format) && wav_samples(bytes@)
                is None,
            Err(_) => wav_format(bytes@) is None,
        },
{
    let reader = hound::WavReader::new(bytes)?;
    let spec = reader.spec();
    let format = WavFormat {
        channels: spec.channels,
        sample_rate: spec.sample_rate,
        bits_per_sample: spec.bits_per_sample,
    };
    Ok((format, reader.into_samples::<i16>().collect()))
}

/// What `decode` makes of a payload: nothing of an empty one, and of any other
/// what `clip_of` says of its parse.
pub open spec fn decoded(bytes: Seq<u8>) -> Result<Seq<i16>, Seq<char>> {
    if bytes.len() == 0 {
        Ok(Seq::empty())
    } else {
        clip_of(wav_format(bytes), wav_samples(bytes))
    }
}

/// Decodes a WAV payload into a clip. An empty payload gives an empty clip.
/// Any other payload must parse as a WAV container, declare mono 16 kHz audio
/// of 16 bits per sample and hold every sample it announces; it is rejected as
/// an invalid argument otherwise.
pub fn decode(bytes: &[u8]) -> (r: Result<AudioClip, WhisperError>)
    ensures
        match r {
            Ok(clip) => decoded(bytes@) matches Ok(samples) && normalized(clip@, samples),
            Err(e) => decoded(bytes@) matches Err(reason) && e.carries(Status::InvalidArg, reason),
        },
{
    if bytes.len() == 0 {
        return Ok(AudioClip { samples: Vec::new() });
    }
    match read_wav(bytes) {
        Err(_) => Err(WhisperError::invalid_arg("WAV data could not be parsed")),
        Ok((format, Ok(samples))) => AudioClip::from_wav(format, Some(samples)),
        Ok((format, Err(_))) => AudioClip::from_wav(format, None),
    }
}

} // verus!
