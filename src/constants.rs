use vstd::prelude::*;

verus! {

/// The sample rate of the audio files, 22050 Hz as LJSpeech has it.
pub const SAMPLE_RATE: u32 = 22050;

/// The bit depth of the audio files, 16-bit PCM.
pub const BIT_DEPTH: u16 = 16;

/// The number of channels: mono.
pub const CHANNELS: u16 = 1;

} // verus!
