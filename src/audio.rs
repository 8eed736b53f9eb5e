use vstd::prelude::*;
use vstd::string::StringExecFns;
use crate::constants::{CHANNELS, SAMPLE_RATE};
use crate::converter::LJSpeechError;
use crate::text::{decimal, decimal_string, extension, extension_of, with_extension, with_extension_of};

verus! {

/// The directories whose audio files are normalized.
pub struct Audio {
    pub abs_paths: Vec<String>,
}

/// The kind of an audio file, by its extension.
#[derive(Clone, Copy, Debug, PartialEq, Eq, Structural)]
pub enum AudioFormat {
    Wav,
    Mp3,
    Unknown,
}

/// The kind of the file at `p`: `wav` and `mp3` are known, all else is not.
pub open spec fn format_of(p: Seq<char>) -> AudioFormat {
    let e = extension_of(p);
    if e == seq!['w', 'a', 'v'] {
        AudioFormat::Wav
    } else if e == seq!['m', 'p', '3'] {
        AudioFormat::Mp3
    } else {
        AudioFormat::Unknown
    }
}

/// The arguments of the transcoder call that normalizes `input` into `output`.
pub open spec fn transcoder_args_spec(input: Seq<char>, output: Seq<char>) -> Seq<Seq<char>> {
    seq![
        seq!['-', 'i'],
        input,
        seq!['-', 'a', 'r'],
        decimal(SAMPLE_RATE as nat),
        seq!['-', 'a', 'c'],
        decimal(CHANNELS as nat),
        seq!['-', 's', 'a', 'm', 'p', 'l', 'e', '_', 'f', 'm', 't'],
        seq!['s', '1', '6'],
        output,
    ]
}

fn owned(s: &str) -> (r: String)
    ensures
        r@ == s@,
{
    String::from_str(s)
}

impl Audio {
    pub fn new(abs_paths: Vec<String>) -> (r: Result<Self, LJSpeechError>)
        ensures
            r is Ok && r->Ok_0.abs_paths == abs_paths,
    {
        Ok(Audio { abs_paths })
    }

    /// The kind of the audio file at `file_path`.
    pub fn read_audio_file(&self, file_path: &str) -> (r: AudioFormat)
        ensures
            r == format_of(file_path@),
    {
        proof {
            reveal_strlit("wav");
            reveal_strlit("mp3");
            assert("wav"@ =~= seq!['w', 'a', 'v']);
            assert("mp3"@ =~= seq!['m', 'p', '3']);
        }
        let e = extension(file_path);
        if e == owned("wav") {
            AudioFormat::Wav
        } else if e == owned("mp3") {
            AudioFormat::Mp3
        } else {
            AudioFormat::Unknown
        }
    }

    /// Where the normalized copy of `file_path` goes: the same path with a `wav` extension.
    pub fn converted_path(file_path: &str) -> (r: String)
        ensures
            r@ == with_extension_of(file_path@, seq!['w', 'a', 'v']),
    {
        proof { reveal_strlit("wav"); }
        with_extension(file_path, "wav")
    }

    /// Whether the source is removed: only a lossy one, and only after it
    /// was converted.
    pub fn removes_source_after(format: AudioFormat, converted: bool) -> (r: bool)
        ensures
            r == (converted && format == AudioFormat::Mp3),
    {
        converted && match format {
            AudioFormat::Mp3 => true,
            _ => false,
        }
    }

    /// The transcoder's arguments for normalizing `input` into `output`:
    /// the sample rate, the channel count and 16-bit samples.
    pub fn transcoder_args(input: &str, output: &str) -> (r: Vec<String>)
        ensures
            r@.map_values(|s: String| s@) == transcoder_args_spec(input@, output@),
    {
        proof {
            reveal_strlit("-i");
            reveal_strlit("-ar");
            reveal_strlit("-ac");
            reveal_strlit("-sample_fmt");
            reveal_strlit("s16");
            assert("-i"@ =~= seq!['-', 'i']);
            assert("-ar"@ =~= seq!['-', 'a', 'r']);
            assert("-ac"@ =~= seq!['-', 'a', 'c']);
            assert("-sample_fmt"@ =~= seq!['-', 's', 'a', 'm', 'p', 'l', 'e', '_', 'f', 'm', 't']);
            assert("s16"@ =~= seq!['s', '1', '6']);
        }
        let mut r: Vec<String> = Vec::new();
        r.push(owned("-i"));
        r.push(owned(input));
        r.push(owned("-ar"));
        r.push(decimal_string(SAMPLE_RATE as u64));
        r.push(owned("-ac"));
        r.push(decimal_string(CHANNELS as u64));
        r.push(owned("-sample_fmt"));
        r.push(owned("s16"));
        r.push(owned(output));
        assert(r@.map_values(|s: String| s@) =~= transcoder_args_spec(input@, output@));
        r
    }
}

} // verus!
