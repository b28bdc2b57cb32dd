//! Speech to text: how the decoder is set up, and what its segments make.

use vstd::prelude::*;

use crate::text;

verus! {

/// How the decoder searches.
#[derive(Debug, Clone, Copy, PartialEq, Eq)]
pub enum Strategy {
    /// Take the likeliest token each time.
    Greedy,
    /// Follow this many candidates.
    BeamSearch(i32),
}

/// How one utterance is decoded.
#[derive(Debug)]
pub struct DecodePlan {
    pub strategy: Strategy,
    /// Text to prime the decoder with.
    pub prompt: Option<String>,
}

/// Why there is no engine.
#[derive(Debug)]
pub enum SttError {
    /// The model's file is not there.
    ModelNotFound { path: String },
}

impl SttError {
    /// The message for this error.
    pub open spec fn text(self) -> Seq<char> {
        match self {
            SttError::ModelNotFound { path } => "Model not found: "@ + path@
                + ". Download with:\n  curl -L -o ~/.local/share/lindiction/models/ggml-small.en.bin https://huggingface.co/ggerganov/whisper.cpp/resolve/main/ggml-small.en.bin"@,
        }
    }

    /// The message for this error.
    pub fn message(&self) -> (r: String)
        ensures
            r@ == self.text(),
    {
        match self {
            SttError::ModelNotFound { path } => text::concat3(
                "Model not found: ",
                path.as_str(),
                ". Download with:\n  curl -L -o ~/.local/share/lindiction/models/ggml-small.en.bin https://huggingface.co/ggerganov/whisper.cpp/resolve/main/ggml-small.en.bin",
            ),
        }
    }
}

/// The settings of a speech-to-text engine.
#[derive(Debug)]
pub struct SttEngine {
    pub beam_size: i32,
    pub initial_prompt: String,
}

/// `beam_size` within what the decoder takes: at least one, at most what its
/// integer holds.
pub open spec fn clamped(beam_size: u32) -> int {
    if beam_size == 0 {
        1
    } else if beam_size > i32::MAX {
        i32::MAX as int
    } else {
        beam_size as int
    }
}

impl SttEngine {
    /// The settings of an engine for the model at `model_path`, where `present`
    /// says whether its file is there.
    pub fn load(model_path: &str, present: bool, beam_size: u32, initial_prompt: String) -> (r:
        Result<Self, SttError>)
        ensures
            match r {
                Ok(e) => present && e.beam_size == clamped(beam_size) && e.initial_prompt
                    == initial_prompt,
                Err(e) => !present && (e matches SttError::ModelNotFound { path } && path@
                    == model_path@),
            },
    {
        if !present {
            return Err(SttError::ModelNotFound { path: model_path.to_owned() });
        }
        let beam: i32 = if beam_size == 0 {
            1
        } else if beam_size > i32::MAX as u32 {
            i32::MAX
        } else {
            beam_size as i32
        };
        Ok(SttEngine { beam_size: beam, initial_prompt })
    }

    /// How to decode an utterance of `samples` samples. An empty one is not
    /// decoded at all; an empty prompt is not passed on.
    pub fn plan(&self, samples: usize) -> (r: Option<DecodePlan>)
        ensures
            match r {
                Some(p) => {
                    &&& samples > 0
                    &&& p.strategy == if self.beam_size > 1 {
                        Strategy::BeamSearch(self.beam_size)
                    } else {
                        Strategy::Greedy
                    }
                    &&& match p.prompt {
                        Some(t) => self.initial_prompt@.len() > 0 && t@ == self.initial_prompt@,
                        None => self.initial_prompt@.len() == 0,
                    }
                },
                None => samples == 0,
            },
    {
        if samples == 0 {
            return None;
        }
        let strategy = if self.beam_size > 1 {
            Strategy::BeamSearch(self.beam_size)
        } else {
            Strategy::Greedy
        };
        let prompt = if self.initial_prompt.as_str().is_empty() {
            None
        } else {
            Some(self.initial_prompt.clone())
        };
        Some(DecodePlan { strategy, prompt })
    }
}

/// Whether the decoder may use a GPU: in a build for one.
pub fn use_gpu() -> (r: bool)
    ensures
        r == (crate::COMPILED_BACKEND@ != "cpu"@),
{
    !text::same(crate::COMPILED_BACKEND, "cpu")
}

/// Whether `c` may stand inside a marker.
pub open spec fn in_marker(c: char) -> bool {
    text::is_upper(c) || c == '_' || c == ' '
}

/// Whether `s` is a marker such as `[BLANK_AUDIO]`: capitals, underscores and
/// spaces, at least one, between square brackets.
pub open spec fn is_marker(s: Seq<char>) -> bool {
    &&& s.len() >= 3
    &&& s[0] == '['
    &&& s.last() == ']'
    &&& forall|i: int| 1 <= i < s.len() - 1 ==> in_marker(#[trigger] s[i])
}

/// Whether `s` is one of the markers that the decoder writes for audio without
/// speech. Anything else in brackets is taken for real speech.
pub fn is_non_speech_marker(s: &str) -> (r: bool)
    ensures
        r == is_marker(s@),
{
    let chars = text::chars_of(s);
    let n: usize = chars.len();
    if n < 3 || chars[0] != '[' || chars[n - 1] != ']' {
        return false;
    }
    for i in 1..n - 1
        invariant
            n == chars@.len(),
            n >= 3,
            chars@ == s@,
            forall|j: int| 1 <= j < i ==> in_marker(#[trigger] chars@[j]),
    {
        let c = chars[i];
        if !(('A' <= c && c <= 'Z') || c == '_' || c == ' ') {
            return false;
        }
    }
    true
}

/// The texts of several segments, one after the other.
pub open spec fn joined(segments: Seq<Seq<char>>) -> Seq<char>
    decreases segments.len(),
{
    if segments.len() == 0 {
        Seq::empty()
    } else {
        joined(segments.drop_last()) + segments.last()
    }
}

/// The transcript of the given segments.
pub open spec fn transcript(segments: Seq<Seq<char>>) -> Seq<char> {
    let t = text::trimmed(joined(segments));
    if is_marker(t) {
        Seq::empty()
    } else {
        t
    }
}

/// The transcript of an utterance: its segments joined and trimmed, or nothing
/// where that is only a marker.
pub fn finish_transcript(segments: &Vec<String>) -> (r: String)
    ensures
        r@ == transcript(text::texts(segments@)),
{
    let ghost all = text::texts(segments@);
    let mut out: String = String::new();
    assert(out@ =~= joined(all.take(0)));
    for i in 0..segments.len()
        invariant
            all == text::texts(segments@),
            out@ == joined(all.take(i as int)),
    {
        assert(all.take(i + 1).drop_last() == all.take(i as int));
        assert(all.take(i + 1).last() == segments@[i as int]@);
        out.append(segments[i].as_str());
    }
    assert(all.take(segments@.len() as int) == all);
    let kept = text::trim(out.as_str());
    if is_non_speech_marker(kept.as_str()) {
        String::new()
    } else {
        kept
    }
}

/// A transcript is never a marker, and has no white space at its ends.
pub proof fn markers_never_get_through(segments: Seq<Seq<char>>)
    ensures
        !is_marker(transcript(segments)),
        text::trimmed(transcript(segments)) == transcript(segments),
{
    text::trim_is_idempotent(joined(segments));
}

// ---------------------------------------------------------------------------
// Laws
// ---------------------------------------------------------------------------

/// No segment is lost: the texts of two lists of segments, one behind the other,
/// are the texts of the two, one behind the other, and one segment is its text.
pub proof fn segments_follow_each_other(a: Seq<Seq<char>>, b: Seq<Seq<char>>, one: Seq<char>)
    ensures
        joined(a + b) == joined(a) + joined(b),
        joined(seq![one]) == one,
        joined(Seq::<Seq<char>>::empty()).len() == 0,
    decreases b.len(),
{
    assert(seq![one].drop_last() =~= Seq::<Seq<char>>::empty());
    reveal_with_fuel(joined, 2);
    assert(Seq::<char>::empty() + one =~= one);
    if b.len() == 0 {
        assert(a + b =~= a);
        assert(joined(a) + joined(b) =~= joined(a));
    } else {
        segments_follow_each_other(a, b.drop_last(), one);
        assert((a + b).drop_last() =~= a + b.drop_last());
        assert(joined(a) + (joined(b.drop_last()) + b.last()) =~= (joined(a) + joined(
            b.drop_last(),
        )) + b.last());
    }
}

/// How long the texts are together.
pub open spec fn total_len(segments: Seq<Seq<char>>) -> nat
    decreases segments.len(),
{
    if segments.len() == 0 {
        0
    } else {
        total_len(segments.drop_last()) + segments.last().len()
    }
}

/// The transcript of an utterance is everything that its segments say, in order,
/// without the white space at the two ends; or nothing, where that is a marker.
pub proof fn transcripts_are_complete(segments: Vec<String>, r: String) -> (cut: (int, int))
    requires
        call_ensures(finish_transcript, (&segments,), r),
    ensures
        ({
            let all = joined(text::texts(segments@));
            let said = all.subrange(cut.0, cut.1);
            &&& all.len() == total_len(text::texts(segments@))
            &&& 0 <= cut.0 <= cut.1 <= all.len()
            &&& text::blank(all.take(cut.0))
            &&& text::blank(all.skip(cut.1))
            &&& r@ == if is_marker(said) {
                Seq::empty()
            } else {
                said
            }
        }),
{
    joined_is_as_long(text::texts(segments@));
    text::trimming_cuts_white_space_only(joined(text::texts(segments@)))
}

proof fn joined_is_as_long(segments: Seq<Seq<char>>)
    ensures
        joined(segments).len() == total_len(segments),
    decreases segments.len(),
{
    if segments.len() > 0 {
        joined_is_as_long(segments.drop_last());
    }
}

/// A text in brackets is a marker exactly where between them stand capitals,
/// underscores and spaces, at least one; a text without the brackets never is.
pub proof fn markers_are_in_brackets(body: Seq<char>, s: Seq<char>)
    ensures
        is_marker(seq!['['] + body + seq![']']) <==> body.len() > 0 && forall|i: int|
            0 <= i < body.len() ==> ('A' <= #[trigger] body[i] <= 'Z' || body[i] == '_' || body[i]
                == ' '),
        is_marker(s) ==> s.len() > 2 && s[0] == '[' && s[s.len() - 1] == ']',
{
    let m = seq!['['] + body + seq![']'];
    assert forall|i: int| 0 <= i < body.len() implies #[trigger] body[i] == m[i + 1] by {}
    if is_marker(m) {
        assert forall|i: int| 0 <= i < body.len() implies ('A' <= #[trigger] body[i] <= 'Z' || body[i]
            == '_' || body[i] == ' ') by {
            assert(in_marker(m[i + 1]));
        }
    }
    if body.len() > 0 && forall|i: int|
        0 <= i < body.len() ==> ('A' <= #[trigger] body[i] <= 'Z' || body[i] == '_' || body[i]
            == ' ') {
        assert forall|j: int| 1 <= j < m.len() - 1 implies in_marker(#[trigger] m[j]) by {
            assert(body[j - 1] == m[j]);
        }
    }
}

/// The engine follows as many candidates as were asked for, at least one and as
/// many as its integer holds, and is primed with the prompt as it stands.
pub proof fn engines_do_as_they_are_told(
    path: &str,
    present: bool,
    beam: u32,
    prompt: String,
    loaded: Result<SttEngine, SttError>,
)
    requires
        call_ensures(SttEngine::load, (path, present, beam, prompt), loaded),
    ensures
        loaded is Ok <==> present,
        loaded matches Ok(e) ==> {
            &&& e.initial_prompt@ == prompt@
            &&& e.beam_size >= 1
            &&& 1 <= beam <= 0x7fff_ffff ==> e.beam_size == beam
            &&& beam == 0 ==> e.beam_size == 1
            &&& beam > 0x7fff_ffff ==> e.beam_size == 0x7fff_ffff
        },
        loaded matches Err(SttError::ModelNotFound { path: p }) ==> p@ == path@,
{
}

/// An utterance is decoded exactly where it has samples: with a beam search where
/// more than one candidate is followed, and with the prompt where there is one.
pub proof fn plans_follow_the_engine(engine: SttEngine, samples: usize, r: Option<DecodePlan>)
    requires
        call_ensures(SttEngine::plan, (&engine, samples), r),
    ensures
        r is Some <==> samples > 0,
        r matches Some(p) ==> {
            &&& engine.beam_size > 1 ==> p.strategy == Strategy::BeamSearch(engine.beam_size)
            &&& engine.beam_size <= 1 ==> p.strategy is Greedy
            &&& p.prompt is Some <==> engine.initial_prompt@.len() > 0
            &&& p.prompt matches Some(t) ==> t@ == engine.initial_prompt@
        },
{
}

/// The decoder may use a GPU exactly in a build that is for one.
pub proof fn gpu_builds_use_the_gpu(r: bool, hw: crate::hw_detect::HardwareProfile)
    requires
        call_ensures(use_gpu, (), r),
    ensures
        r <==> !(crate::reconciled(crate::COMPILED_BACKEND@, hw) is CpuBuildNoGpu
            || crate::reconciled(crate::COMPILED_BACKEND@, hw) is CpuBuildWithGpu),
{
}

/// A model that is missing is named, and how to get one is told.
pub proof fn missing_models_are_named(path: String)
    ensures
        ("Model not found: "@ + path@ + ". Download with:\n  curl -L -o "@).is_prefix_of(
            (SttError::ModelNotFound { path }).text(),
        ),
        "https://huggingface.co/ggerganov/whisper.cpp/resolve/main/ggml-small.en.bin"@.is_suffix_of(
            (SttError::ModelNotFound { path }).text(),
        ),
{
    reveal_strlit(". Download with:\n  curl -L -o ");
    reveal_strlit("https://huggingface.co/ggerganov/whisper.cpp/resolve/main/ggml-small.en.bin");
    reveal_strlit(
        ". Download with:\n  curl -L -o ~/.local/share/lindiction/models/ggml-small.en.bin https://huggingface.co/ggerganov/whisper.cpp/resolve/main/ggml-small.en.bin",
    );
    let told = (SttError::ModelNotFound { path }).text();
    let front = "Model not found: "@ + path@ + ". Download with:\n  curl -L -o "@;
    let back = "https://huggingface.co/ggerganov/whisper.cpp/resolve/main/ggml-small.en.bin"@;
    assert(told.subrange(0, front.len() as int) =~= front);
    assert(told.subrange(told.len() - back.len(), told.len() as int) =~= back);
}

/// Whether a text is a marker is told as it is.
pub proof fn markers_are_recognized(text: &str, r: bool)
    requires
        call_ensures(is_non_speech_marker, (text,), r),
    ensures
        r <==> text@.len() > 2 && text@[0] == '[' && text@[text@.len() - 1] == ']' && forall|i: int|
            1 <= i < text@.len() - 1 ==> {
                let c = #[trigger] text@[i];
                'A' <= c <= 'Z' || c == '_' || c == ' '
            },
{
    if r {
        assert forall|i: int| 1 <= i < text@.len() - 1 implies {
            let c = #[trigger] text@[i];
            'A' <= c <= 'Z' || c == '_' || c == ' '
        } by {
            assert(in_marker(text@[i]));
        }
    }
}

/// The message of an error is its text, and two errors with the same text give the
/// same message.
pub proof fn messages_are_their_text(a: SttError, b: SttError, one: String, other: String)
    requires
        call_ensures(SttError::message, (&a,), one),
        call_ensures(SttError::message, (&b,), other),
    ensures
        one@ == a.text(),
        a.text() == b.text() <==> one@ == other@,
{
}

} // verus!
