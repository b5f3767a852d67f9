use vstd::prelude::*;

verus! {

/// An audio device attached to the machine.
#[derive(Debug, Clone)]
pub struct AudioDevice {
    pub device_id: String,
    pub device_type: String,
    pub is_connected: bool,
}

pub ghost struct AudioDeviceView {
    pub device_id: Seq<char>,
    pub device_type: Seq<char>,
    pub is_connected: bool,
}

impl View for AudioDevice {
    type V = AudioDeviceView;

    open spec fn view(&self) -> AudioDeviceView {
        AudioDeviceView {
            device_id: self.device_id@,
            device_type: self.device_type@,
            is_connected: self.is_connected,
        }
    }
}

impl AudioDevice {
    /// A value with the same view as this one.
    pub fn duplicate(&self) -> (r: AudioDevice)
        ensures
            r@ == self@,
    {
        AudioDevice {
            device_id: self.device_id.clone(),
            device_type: self.device_type.clone(),
            is_connected: self.is_connected,
        }
    }
}

pub open spec fn devices_view(v: Seq<AudioDevice>) -> Seq<AudioDeviceView> {
    v.map_values(|d: AudioDevice| d@)
}

/// The device that detection reports: one connected USB-C audio device.
pub open spec fn detected_device() -> AudioDeviceView {
    AudioDeviceView {
        device_id: "usb-audio-device-1"@,
        device_type: "USB-C"@,
        is_connected: true,
    }
}

/// The audio devices known to the engine.
pub struct DeviceManager {
    devices: Vec<AudioDevice>,
}

impl View for DeviceManager {
    type V = Seq<AudioDeviceView>;

    closed spec fn view(&self) -> Seq<AudioDeviceView> {
        devices_view(self.devices@)
    }
}

impl DeviceManager {
    /// A manager that knows no device yet.
    pub fn new() -> (r: Self)
        ensures
            r@ == Seq::<AudioDeviceView>::empty(),
    {
        let r = DeviceManager { devices: Vec::new() };
        proof {
            assert(r@ =~= Seq::<AudioDeviceView>::empty());
        }
        r
    }

    /// Accepts a configuration request for device `device_id` of kind
    /// `device_type`; the known devices stay as they are, and the platform
    /// side carries the request out.
    pub fn configure_device(&mut self, device_id: &str, device_type: &str) -> (r: bool)
        ensures
            r,
            final(self)@ == old(self)@,
    {
        true
    }

    /// Detects the attached devices, records them and returns them.
    pub fn detect_devices(&mut self) -> (r: Vec<AudioDevice>)
        ensures
            final(self)@ == seq![detected_device()],
            devices_view(r@) == seq![detected_device()],
    {
        let mut devices: Vec<AudioDevice> = Vec::new();
        devices.push(
            AudioDevice {
                device_id: "usb-audio-device-1".to_owned(),
                device_type: "USB-C".to_owned(),
                is_connected: true,
            },
        );
        let r = devices[0].duplicate();
        let mut out: Vec<AudioDevice> = Vec::new();
        out.push(r);
        self.devices = devices;
        proof {
            assert(self@ =~= seq![detected_device()]);
            assert(devices_view(out@) =~= seq![detected_device()]);
        }
        out
    }
}

} // verus!
