//! Audio devices.
use crate::audio::sample;
use vstd::prelude::*;
use vstd::string::StringExecFns;

verus! {

/// What a device without a name is called.
pub const UNKNOWN_DEVICE_NAME: &'static str = "unknown device";

pub trait AudioDevice: Sized {
    /// The device's own name, if it has one.
    open spec fn own_name(&self) -> Option<Seq<char>> {
        sample::unsaid::<Self, Option<Seq<char>>>(*self)
    }

    fn try_name(&self) -> (name: Option<String>)
        ensures
            match self.own_name() {
                Some(own) => name matches Some(name) && name@ == own,
                None => name is None,
            },
    ;

    fn name(&self) -> (name: String)
        ensures
            name@ == match self.own_name() {
                Some(own) => own,
                None => UNKNOWN_DEVICE_NAME@,
            },
    {
        match self.try_name() {
            Some(name) => name,
            None => UNKNOWN_DEVICE_NAME.to_owned(),
        }
    }
}

pub trait AudioDeviceRegistry<DeviceT: AudioDevice> {
    fn list_devices() -> Vec<DeviceT>;

    fn default_device() -> Option<DeviceT>;
}

/// What is said of a device that cannot be found. `kind` says what it was wanted for.
pub fn unknown_device(kind: &str, id: &str, name: &str) -> (message: String)
    ensures
        message@ == "Unknown "@ + kind@ + " device id: "@ + id@ + ", name: "@ + name@,
{
    let mut message: String = "Unknown ".to_owned();
    message.append(kind);
    message.append(" device id: ");
    message.append(id);
    message.append(", name: ");
    message.append(name);
    message
}

} // verus!
