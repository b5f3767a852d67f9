use vstd::prelude::*;

verus! {

/// Highest and lowest volume level.
pub const MIN_VOLUME: i32 = 1;

pub const MAX_VOLUME: i32 = 9;

/// Processing modes: standard, noise reduction, voice enhancement, full duplex, custom.
pub const MAX_PROCESSING_MODE: i32 = 4;

/// Microphone modes: directional, omnidirectional, cardioid, beamforming.
pub const MAX_MICROPHONE_MODE: i32 = 3;

/// Settings of the audio processing engine.
#[derive(Debug, Clone, Copy, PartialEq, Eq, Structural)]
pub struct AudioConfig {
    /// 1 to 9
    pub volume_level: i32,
    /// 0 to 4
    pub processing_mode: i32,
    /// 0 to 3
    pub microphone_mode: i32,
    pub echo_cancel: bool,
    pub noise_reduction: bool,
    pub auto_gain_control: bool,
}

/// The settings an engine starts with.
pub open spec fn default_audio_config() -> AudioConfig {
    AudioConfig {
        volume_level: 5,
        processing_mode: 0,
        microphone_mode: 1,
        echo_cancel: true,
        noise_reduction: true,
        auto_gain_control: true,
    }
}

impl Default for AudioConfig {
    fn default() -> (r: Self)
        ensures
            r == default_audio_config(),
    {
        AudioConfig {
            volume_level: 5,
            processing_mode: 0,
            microphone_mode: 1,
            echo_cancel: true,
            noise_reduction: true,
            auto_gain_control: true,
        }
    }
}

/// `v` brought into `[lo, hi]`.
pub open spec fn clamped(v: i32, lo: i32, hi: i32) -> i32 {
    if v < lo {
        lo
    } else if v > hi {
        hi
    } else {
        v
    }
}

fn clamp_to(v: i32, lo: i32, hi: i32) -> (r: i32)
    ensures
        r == clamped(v, lo, hi),
{
    if v < lo {
        lo
    } else if v > hi {
        hi
    } else {
        v
    }
}

/// The audio processing engine's settings; the signal processing itself runs
/// outside this library.
pub struct AudioProcessor {
    config: AudioConfig,
}

impl View for AudioProcessor {
    type V = AudioConfig;

    closed spec fn view(&self) -> AudioConfig {
        self.config
    }
}

impl AudioProcessor {
    /// An engine with the default settings.
    pub fn new() -> (r: Self)
        ensures
            r@ == default_audio_config(),
    {
        AudioProcessor { config: AudioConfig::default() }
    }

    /// The current settings.
    pub fn config(&self) -> (r: AudioConfig)
        ensures
            r == self@,
    {
        self.config
    }

    /// Replaces all settings.
    pub fn set_config(&mut self, config: AudioConfig)
        ensures
            final(self)@ == config,
    {
        self.config = config;
    }

    /// Sets the volume level, brought into 1..=9.
    pub fn set_volume_level(&mut self, level: i32)
        ensures
            final(self)@ == (AudioConfig {
                volume_level: clamped(level, MIN_VOLUME, MAX_VOLUME),
                ..old(self)@
            }),
    {
        self.config.volume_level = clamp_to(level, MIN_VOLUME, MAX_VOLUME);
    }

    /// Sets the processing mode, brought into 0..=4.
    pub fn set_processing_mode(&mut self, mode: i32)
        ensures
            final(self)@ == (AudioConfig {
                processing_mode: clamped(mode, 0, MAX_PROCESSING_MODE),
                ..old(self)@
            }),
    {
        self.config.processing_mode = clamp_to(mode, 0, MAX_PROCESSING_MODE);
    }

    /// Sets the microphone mode, brought into 0..=3.
    pub fn set_microphone_mode(&mut self, mode: i32)
        ensures
            final(self)@ == (AudioConfig {
                microphone_mode: clamped(mode, 0, MAX_MICROPHONE_MODE),
                ..old(self)@
            }),
    {
        self.config.microphone_mode = clamp_to(mode, 0, MAX_MICROPHONE_MODE);
    }

    /// Turns echo cancellation on or off.
    pub fn set_echo_cancel(&mut self, enabled: bool)
        ensures
            final(self)@ == (AudioConfig { echo_cancel: enabled, ..old(self)@ }),
    {
        self.config.echo_cancel = enabled;
    }

    /// Turns noise reduction on or off.
    pub fn set_noise_reduction(&mut self, enabled: bool)
        ensures
            final(self)@ == (AudioConfig { noise_reduction: enabled, ..old(self)@ }),
    {
        self.config.noise_reduction = enabled;
    }

    /// Turns automatic gain control on or off.
    pub fn set_auto_gain_control(&mut self, enabled: bool)
        ensures
            final(self)@ == (AudioConfig { auto_gain_control: enabled, ..old(self)@ }),
    {
        self.config.auto_gain_control = enabled;
    }
}

} // verus!
