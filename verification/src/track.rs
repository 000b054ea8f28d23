use vstd::prelude::*;

verus! {

/// Why a stream's metadata was rejected.
#[derive(Clone, Copy, Debug, PartialEq, Eq, Structural)]
pub enum ConfigError {
    /// The stream declares no channels.
    NoChannels,
    /// The declared bits per sample lie outside 1..=32.
    InvalidBitsPerSample,
    /// The declared sample rate is zero.
    InvalidSampleRate,
    /// The declared frame count times the channel count does not fit in 64 bits.
    SampleCountOverflow,
}

/// Immutable per-stream metadata, fixed when the stream is opened.
#[derive(Clone, Copy, Debug, PartialEq, Eq, Structural)]
pub struct TrackInfo {
    pub channels: usize,
    pub n_frames: u64,
    pub sample_rate: u32,
    pub bits_per_sample: u32,
}

impl TrackInfo {
    /// Metadata the analysis can work with: at least one channel, a sample
    /// width of 1..=32 bits, a positive sample rate, and an expected total
    /// sample count that fits in 64 bits.
    pub open spec fn wf(&self) -> bool {
        &&& self.channels >= 1
        &&& 1 <= self.bits_per_sample <= 32
        &&& self.sample_rate >= 1
        &&& (self.n_frames as int) * (self.channels as int) <= u64::MAX as int
    }

    /// Validate stream metadata before any processing starts; invalid fields
    /// are rejected immediately, in the order the fields are listed.
    pub fn new(channels: usize, bits_per_sample: u32, sample_rate: u32, n_frames: u64) -> (r:
        Result<TrackInfo, ConfigError>)
        ensures
            match r {
                Ok(info) => {
                    &&& info.channels == channels
                    &&& info.bits_per_sample == bits_per_sample
                    &&& info.sample_rate == sample_rate
                    &&& info.n_frames == n_frames
                    &&& info.wf()
                },
                Err(e) => match e {
                    ConfigError::NoChannels => channels == 0,
                    ConfigError::InvalidBitsPerSample => {
                        &&& channels >= 1
                        &&& !(1 <= bits_per_sample <= 32)
                    },
                    ConfigError::InvalidSampleRate => {
                        &&& channels >= 1
                        &&& 1 <= bits_per_sample <= 32
                        &&& sample_rate == 0
                    },
                    ConfigError::SampleCountOverflow => {
                        &&& channels >= 1
                        &&& 1 <= bits_per_sample <= 32
                        &&& sample_rate >= 1
                        &&& (n_frames as int) * (channels as int) > u64::MAX as int
                    },
                },
            },
            r is Ok <==> {
                &&& channels >= 1
                &&& 1 <= bits_per_sample <= 32
                &&& sample_rate >= 1
                &&& (n_frames as int) * (channels as int) <= u64::MAX as int
            },
    {
        if channels == 0 {
            return Err(ConfigError::NoChannels);
        }
        if bits_per_sample == 0 || bits_per_sample > 32 {
            return Err(ConfigError::InvalidBitsPerSample);
        }
        if sample_rate == 0 {
            return Err(ConfigError::InvalidSampleRate);
        }
        if n_frames.checked_mul(channels as u64).is_none() {
            return Err(ConfigError::SampleCountOverflow);
        }
        Ok(TrackInfo { channels, n_frames, sample_rate, bits_per_sample })
    }

    /// Expected total sample count across all channels: declared frames times
    /// channels.
    pub fn expected_samples(&self) -> (n: u64)
        requires
            self.wf(),
        ensures
            n == (self.n_frames as int) * (self.channels as int),
    {
        self.n_frames * (self.channels as u64)
    }
}

} // verus!
