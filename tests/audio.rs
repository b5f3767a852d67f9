use teleconference::api;
use teleconference::audio::{AudioConfig, AudioProcessor};
use teleconference::device::DeviceManager;

#[test]
fn processor_starts_with_defaults() {
    let p = AudioProcessor::new();
    let c = p.config();
    assert_eq!(c, AudioConfig::default());
    assert_eq!(c.volume_level, 5);
    assert_eq!(c.processing_mode, 0);
    assert_eq!(c.microphone_mode, 1);
    assert!(c.echo_cancel && c.noise_reduction && c.auto_gain_control);
}

#[test]
fn setters_clamp_into_range() {
    let mut p = AudioProcessor::new();
    p.set_volume_level(42);
    assert_eq!(p.config().volume_level, 9);
    p.set_volume_level(-3);
    assert_eq!(p.config().volume_level, 1);
    p.set_processing_mode(7);
    assert_eq!(p.config().processing_mode, 4);
    p.set_microphone_mode(-1);
    assert_eq!(p.config().microphone_mode, 0);
    p.set_microphone_mode(2);
    assert_eq!(p.config().microphone_mode, 2);
    p.set_echo_cancel(false);
    p.set_noise_reduction(false);
    p.set_auto_gain_control(false);
    let c = p.config();
    assert!(!c.echo_cancel && !c.noise_reduction && !c.auto_gain_control);
}

#[test]
fn set_config_replaces_everything() {
    let mut p = AudioProcessor::new();
    let c = AudioConfig {
        volume_level: 3,
        processing_mode: 2,
        microphone_mode: 3,
        echo_cancel: false,
        noise_reduction: true,
        auto_gain_control: false,
    };
    p.set_config(c);
    assert_eq!(p.config(), c);
}

#[test]
fn engine_functions_report_success() {
    let mut p = AudioProcessor::new();
    assert!(api::set_volume_level(&mut p, 10));
    assert!(api::set_audio_processing_mode(&mut p, 3));
    assert!(api::set_microphone_mode(&mut p, 9));
    assert!(api::set_echo_cancel(&mut p, false));
    assert!(api::set_noise_reduction(&mut p, false));
    assert!(api::set_auto_gain_control(&mut p, true));
    let c = p.config();
    assert_eq!(c.volume_level, 9);
    assert_eq!(c.processing_mode, 3);
    assert_eq!(c.microphone_mode, 3);
    assert!(!c.echo_cancel && !c.noise_reduction && c.auto_gain_control);
    api::configure_processing(&mut p, -2, true, true, false, 1, 0);
    let c = p.config();
    assert_eq!((c.processing_mode, c.microphone_mode, c.volume_level), (0, 1, 1));
    assert!(c.echo_cancel && c.noise_reduction && !c.auto_gain_control);
}

#[test]
fn detection_reports_one_usb_device() {
    let mut m = DeviceManager::new();
    let devices = m.detect_devices();
    assert_eq!(devices.len(), 1);
    assert_eq!(devices[0].device_id, "usb-audio-device-1");
    assert_eq!(devices[0].device_type, "USB-C");
    assert!(devices[0].is_connected);
}

#[test]
fn device_configuration_is_accepted_and_keeps_devices() {
    let mut m = DeviceManager::new();
    m.detect_devices();
    assert!(api::configure_audio_device(&mut m, "usb-audio-device-1", "USB-C"));
    assert_eq!(m.detect_devices().len(), 1);
}
