use vstd::prelude::*;

use crate::device::DeviceManager;
use crate::audio::{
    AudioConfig, AudioProcessor, MAX_MICROPHONE_MODE, MAX_PROCESSING_MODE, MAX_VOLUME, MIN_VOLUME,
    clamped,
};

verus! {

/// Sets the engine's volume level, brought into 1..=9.
pub fn set_volume_level(processor: &mut AudioProcessor, level: i32) -> (r: bool)
    ensures
        r,
        final(processor)@ == (AudioConfig {
            volume_level: clamped(level, MIN_VOLUME, MAX_VOLUME),
            ..old(processor)@
        }),
{
    processor.set_volume_level(level);
    true
}

/// Sets the engine's processing mode, brought into 0..=4.
pub fn set_audio_processing_mode(processor: &mut AudioProcessor, mode: i32) -> (r: bool)
    ensures
        r,
        final(processor)@ == (AudioConfig {
            processing_mode: clamped(mode, 0, MAX_PROCESSING_MODE),
            ..old(processor)@
        }),
{
    processor.set_processing_mode(mode);
    true
}

/// Sets the engine's microphone mode, brought into 0..=3.
pub fn set_microphone_mode(processor: &mut AudioProcessor, mode: i32) -> (r: bool)
    ensures
        r,
        final(processor)@ == (AudioConfig {
            microphone_mode: clamped(mode, 0, MAX_MICROPHONE_MODE),
            ..old(processor)@
        }),
{
    processor.set_microphone_mode(mode);
    true
}

/// Turns the engine's echo cancellation on or off.
pub fn set_echo_cancel(processor: &mut AudioProcessor, enabled: bool) -> (r: bool)
    ensures
        r,
        final(processor)@ == (AudioConfig { echo_cancel: enabled, ..old(processor)@ }),
{
    processor.set_echo_cancel(enabled);
    true
}

/// Turns the engine's noise reduction on or off.
pub fn set_noise_reduction(processor: &mut AudioProcessor, enabled: bool) -> (r: bool)
    ensures
        r,
        final(processor)@ == (AudioConfig { noise_reduction: enabled, ..old(processor)@ }),
{
    processor.set_noise_reduction(enabled);
    true
}

/// Turns the engine's automatic gain control on or off.
pub fn set_auto_gain_control(processor: &mut AudioProcessor, enabled: bool) -> (r: bool)
    ensures
        r,
        final(processor)@ == (AudioConfig { auto_gain_control: enabled, ..old(processor)@ }),
{
    processor.set_auto_gain_control(enabled);
    true
}

/// Passes a device configuration request to the device manager.
pub fn configure_audio_device(manager: &mut DeviceManager, device_id: &str, device_type: &str) -> (r:
    bool)
    ensures
        r,
        final(manager)@ == old(manager)@,
{
    manager.configure_device(device_id, device_type)
}

/// Applies a whole set of engine settings at once, each brought into range as
/// the single setters do.
pub fn configure_processing(
    processor: &mut AudioProcessor,
    mode: i32,
    echo_cancel: bool,
    noise_reduction: bool,
    auto_gain_control: bool,
    microphone_mode: i32,
    volume_level: i32,
)
    ensures
        final(processor)@ == (AudioConfig {
            volume_level: clamped(volume_level, MIN_VOLUME, MAX_VOLUME),
            processing_mode: clamped(mode, 0, MAX_PROCESSING_MODE),
            microphone_mode: clamped(microphone_mode, 0, MAX_MICROPHONE_MODE),
            echo_cancel,
            noise_reduction,
            auto_gain_control,
        }),
{
    processor.set_processing_mode(mode);
    processor.set_echo_cancel(echo_cancel);
    processor.set_noise_reduction(noise_reduction);
    processor.set_auto_gain_control(auto_gain_control);
    processor.set_microphone_mode(microphone_mode);
    processor.set_volume_level(volume_level);
}

} // verus!
