//! Turning the engine's segments into one transcript.
//!
//! The engine hands out each segment as bytes that are meant to be UTF-8. The
//! transcript is the text of the segments one after the other, with nothing
//! put between them.

use crate::error::{Status, WhisperError};
use vstd::prelude::*;
use vstd::seq_lib::lemma_flatten_concat;
use vstd::string::{StringExecFns, StringSliceAdditionalSpecFns};
use vstd::utf8::{decode_utf8, encode_utf8_decode_utf8, valid_utf8};

verus! {

/// The error of std's UTF-8 validation; it is only told apart from success.
#[verifier::external_type_specification]
#[verifier::external_body]
pub struct ExUtf8Error(core::str::Utf8Error);

/// `core::str::from_utf8` succeeds exactly on valid UTF-8, and the string it
/// returns is made of the bytes it was given.
pub assume_specification<'a>[ core::str::from_utf8 ](v: &'a [u8]) -> (r: Result<
    &'a str,
    core::str::Utf8Error,
>)
    ensures
        r is Ok <==> valid_utf8(v@),
        r matches Ok(s) ==> s.spec_bytes() == v@,
;

/// The text of a segment, which must be valid UTF-8.
pub fn segment_text(bytes: &[u8]) -> (r: Result<&str, WhisperError>)
    ensures
        match r {
            Ok(text) => valid_utf8(bytes@) && text@ == decode_utf8(bytes@),
            Err(e) => !valid_utf8(bytes@) && e.carries(
                Status::GenericFailure,
                "Segment text is not valid UTF-8"@,
            ),
        },
{
    match core::str::from_utf8(bytes) {
        Ok(text) => {
            proof {
                encode_utf8_decode_utf8(text@);
            }
            Ok(text)
        },
        Err(_) => Err(WhisperError::generic_failure("Segment text is not valid UTF-8")),
    }
}

/// Whether every segment is valid UTF-8.
pub open spec fn all_text(segments: Seq<Vec<u8>>) -> bool {
    forall|i: int| 0 <= i < segments.len() ==> valid_utf8(#[trigger] segments[i]@)
}

/// The texts of the segments, in order.
pub open spec fn texts(segments: Seq<Vec<u8>>) -> Seq<Seq<char>> {
    Seq::new(segments.len(), |i: int| decode_utf8(segments[i]@))
}

/// The transcript of the segments: their texts, in order, end to end.
pub open spec fn transcript(segments: Seq<Vec<u8>>) -> Seq<char> {
    texts(segments).flatten()
}

/// The transcript keeps the order of the segments and puts nothing between
/// them: the transcript of one run of segments followed by another is the
/// transcript of the first followed by the transcript of the second, and the
/// transcript of a single segment is its text.
pub proof fn lemma_transcript_concat(first: Seq<Vec<u8>>, second: Seq<Vec<u8>>)
    ensures
        transcript(first + second) == transcript(first) + transcript(second),
        transcript(Seq::empty()) == Seq::<char>::empty(),
        forall|segment: Vec<u8>| #[trigger]
            transcript(seq![segment]) == decode_utf8(segment@),
{
    assert(texts(first + second) =~= texts(first) + texts(second));
    lemma_flatten_concat(texts(first), texts(second));
    assert(texts(Seq::empty()) =~= Seq::<Seq<char>>::empty());
    assert forall|segment: Vec<u8>| #[trigger]
        transcript(seq![segment]) == decode_utf8(segment@) by {
        assert(texts(seq![segment]) =~= seq![decode_utf8(segment@)]);
        seq![decode_utf8(segment@)].lemma_flatten_one_element();
    }
}

/// Joins the segments into the transcript. A segment that is not valid UTF-8
/// fails the whole transcript; nothing partial is returned.
pub fn join_segments(segments: &Vec<Vec<u8>>) -> (r: Result<String, WhisperError>)
    ensures
        match r {
            Ok(text) => all_text(segments@) && text@ == transcript(segments@),
            Err(e) => !all_text(segments@) && e.carries(
                Status::GenericFailure,
                "Segment text is not valid UTF-8"@,
            ),
        },
{
    let mut output = String::new();
    let mut i: usize = 0;
    assert(texts(segments@.take(0)) =~= Seq::<Seq<char>>::empty());
    while i < segments.len()
        invariant
            i <= segments.len(),
            all_text(segments@.take(i as int)),
            output@ == transcript(segments@.take(i as int)),
        decreases segments.len() - i,
    {
        let text = match segment_text(segments[i].as_slice()) {
            Ok(text) => text,
            Err(e) => {
                return Err(e);
            },
        };
        proof {
            let before = segments@.take(i as int);
            let after = segments@.take(i + 1);
            assert(after =~= before.push(segments@[i as int]));
            assert(texts(after) =~= texts(before).push(text@));
            texts(before).lemma_flatten_push(text@);
            assert forall|j: int| 0 <= j < after.len() implies valid_utf8(
                #[trigger] after[j]@,
            ) by {
                if j < i {
                    assert(after[j] == before[j]);
                }
            }
        }
        output.append(text);
        i = i + 1;
    }
    assert(segments@.take(i as int) =~= segments@);
    Ok(output)
}

} // verus!
