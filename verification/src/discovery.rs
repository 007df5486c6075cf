//! Discovery of the local network interfaces: enumerate them, look up each
//! one's hardware address, and keep the first of every set of duplicates.

use vstd::prelude::*;
use crate::dedup::{dedup, dedup_devices, distinct, lemma_dedup_members};
use crate::device::{Device, DeviceView};
use crate::hardware::{lookup_by_name, lookup_text, mac_field, MacLookup};

verus! {

/// One interface as the system reports it, with the outcome of the lookup
/// of its hardware address.
#[derive(Debug, PartialEq, Eq)]
pub struct Interface {
    pub name: String,
    pub ip: String,
    pub hardware: MacLookup,
}

/// The device that an interface gives before duplicates are removed: its
/// name, its address, and the text for the outcome of the hardware lookup.
pub open spec fn candidate(interface: Interface) -> DeviceView {
    DeviceView { name: interface.name@, ip: interface.ip@, mac: lookup_text(interface.hardware) }
}

/// The candidates of a list of interfaces, one for each and in the same order.
pub open spec fn candidates(interfaces: Seq<Interface>) -> Seq<DeviceView> {
    Seq::new(interfaces.len(), |i: int| candidate(interfaces[i]))
}

/// Some outcome of a hardware lookup leaves `text` in a device's hardware
/// field: the field is never left without one of the three kinds of text.
pub open spec fn is_lookup_text(text: Seq<char>) -> bool {
    exists|lookup: MacLookup| text == #[trigger] lookup_text(lookup)
}

/// Calls `local_ip_address::list_afinet_netifas` and hands on each
/// interface's name with the text of its address, in the order given, or
/// `None` where the enumeration failed. Nothing is promised of the list:
/// it is whatever the system reports.
#[verifier::external_body]
fn list_interfaces() -> (found: Option<Vec<(String, String)>>) {
    match local_ip_address::list_afinet_netifas() {
        Ok(list) => Some(list.into_iter().map(|(name, ip)| (name, ip.to_string())).collect()),
        Err(_) => None,
    }
}

/// Builds the candidate device of one interface. A failed or empty lookup
/// still gives a device: its hardware field then holds the text that says so.
pub fn candidate_device(interface: &Interface) -> (device: Device)
    ensures
        device@ == candidate(*interface),
{
    Device {
        name: interface.name.clone(),
        ip: interface.ip.clone(),
        mac: mac_field(&interface.hardware),
    }
}

/// The devices that a list of interfaces gives: the candidates in the order
/// of the list, each dropped if it shares its name or its hardware text with
/// a device accepted before it.
pub fn devices_of(interfaces: &Vec<Interface>) -> (devices: Vec<Device>)
    ensures
        devices.deep_view() == dedup(candidates(interfaces@)),
        distinct(devices.deep_view()),
{
    let mut raw: Vec<Device> = Vec::new();
    let mut i: usize = 0;
    while i < interfaces.len()
        invariant
            i <= interfaces.len(),
            raw.len() == i,
            forall|k: int| 0 <= k < i ==> (#[trigger] raw[k])@ == candidate(interfaces[k]),
        decreases interfaces.len() - i,
    {
        raw.push(candidate_device(&interfaces[i]));
        i += 1;
    }
    assert(raw.deep_view() =~= candidates(interfaces@));
    dedup_devices(&raw)
}

/// Looks up the hardware address of every listed interface, in order.
fn resolve(listed: Vec<(String, String)>) -> (interfaces: Vec<Interface>)
    ensures
        interfaces.len() == listed.len(),
        forall|i: int|
            0 <= i < listed.len() ==> (#[trigger] interfaces[i]).name@ == listed[i].0@
                && interfaces[i].ip@ == listed[i].1@,
{
    let mut interfaces: Vec<Interface> = Vec::new();
    let mut i: usize = 0;
    while i < listed.len()
        invariant
            i <= listed.len(),
            interfaces.len() == i,
            forall|k: int|
                0 <= k < i ==> (#[trigger] interfaces[k]).name@ == listed[k].0@
                    && interfaces[k].ip@ == listed[k].1@,
        decreases listed.len() - i,
    {
        let hardware = lookup_by_name(listed[i].0.as_str());
        interfaces.push(
            Interface { name: listed[i].0.clone(), ip: listed[i].1.clone(), hardware },
        );
        i += 1;
    }
    interfaces
}

/// Discovers the devices of this machine: lists the interfaces, looks up the
/// hardware address of each, and hands the outcome to [`devices_of_listing`],
/// which says what is returned for every outcome.
///
/// Which interfaces there are is the system's matter; whatever it reports,
/// no two devices of the result share a name or a hardware text, and every
/// hardware field holds an address, the text for a missing one, or the
/// message of a failed lookup.
pub fn get_mac_address() -> (devices: Vec<Device>)
    ensures
        distinct(devices.deep_view()),
        forall|i: int| 0 <= i < devices.len() ==> is_lookup_text(#[trigger] devices[i].mac@),
{
    let listing = match list_interfaces() {
        Some(listed) => Some(resolve(listed)),
        None => None,
    };
    let devices = devices_of_listing(&listing);
    proof {
        if let Some(interfaces) = listing {
            let raw = candidates(interfaces@);
            lemma_dedup_members(raw);
            assert forall|i: int| 0 <= i < devices.len() implies is_lookup_text(
                #[trigger] devices[i].mac@,
            ) by {
                assert(devices.deep_view()[i] == devices[i]@);
                let k = choose|k: int| 0 <= k < raw.len() && raw[k] == dedup(raw)[i];
                assert(devices[i].mac@ == lookup_text(interfaces[k].hardware));
            }
        } else {
            assert(devices.deep_view().len() == devices.len());
        }
    }
    devices
}

/// What a discovery gives for the outcome of the listing: the deduplicated
/// candidates of the interfaces listed, and nothing where the listing failed.
pub open spec fn discovered(listing: Option<Vec<Interface>>) -> Seq<DeviceView> {
    match listing {
        Some(interfaces) => dedup(candidates(interfaces@)),
        None => Seq::empty(),
    }
}

/// The devices for the outcome of a listing. A failed listing is no error:
/// it gives an empty list, as a machine without interfaces does.
pub fn devices_of_listing(listing: &Option<Vec<Interface>>) -> (devices: Vec<Device>)
    ensures
        devices.deep_view() == discovered(*listing),
        distinct(devices.deep_view()),
{
    match listing {
        Some(interfaces) => devices_of(interfaces),
        None => {
            let devices: Vec<Device> = Vec::new();
            assert(devices.deep_view() =~= Seq::<DeviceView>::empty());
            devices
        },
    }
}

} // verus!
