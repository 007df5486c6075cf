//! The record kept for one network interface.

use vstd::prelude::*;

verus! {

/// Mathematical value of a [`Device`]: its three fields as character sequences.
pub struct DeviceView {
    pub name: Seq<char>,
    pub ip: Seq<char>,
    pub mac: Seq<char>,
}

/// One local network interface: its name as the system reports it, the text
/// of its address, and the text that stands for its hardware address.
#[derive(Debug, PartialEq, Eq)]
pub struct Device {
    pub name: String,
    pub ip: String,
    pub mac: String,
}

impl View for Device {
    type V = DeviceView;

    open spec fn view(&self) -> DeviceView {
        DeviceView { name: self.name@, ip: self.ip@, mac: self.mac@ }
    }
}

impl DeepView for Device {
    type V = DeviceView;

    open spec fn deep_view(&self) -> DeviceView {
        self@
    }
}

impl Clone for Device {
    fn clone(&self) -> (copy: Self)
        ensures
            copy@ == self@,
    {
        Device { name: self.name.clone(), ip: self.ip.clone(), mac: self.mac.clone() }
    }
}

impl Device {
    /// Builds a device from its three texts.
    pub fn new(name: &str, ip: &str, mac: &str) -> (device: Self)
        ensures
            device@ == (DeviceView { name: name@, ip: ip@, mac: mac@ }),
    {
        Device { name: name.to_owned(), ip: ip.to_owned(), mac: mac.to_owned() }
    }
}

/// Copies a list of devices, element by element.
pub fn clone_devices(devices: &Vec<Device>) -> (copy: Vec<Device>)
    ensures
        copy.deep_view() == devices.deep_view(),
{
    let mut copy: Vec<Device> = Vec::new();
    let mut i: usize = 0;
    while i < devices.len()
        invariant
            i <= devices.len(),
            copy.len() == i,
            forall|k: int| 0 <= k < i ==> copy[k]@ == devices[k]@,
        decreases devices.len() - i,
    {
        copy.push(devices[i].clone());
        i += 1;
    }
    assert(copy.deep_view() =~= devices.deep_view());
    copy
}

} // verus!
