use device_api::device::Device;
use device_api::discovery::{
    candidate_device, devices_of, devices_of_listing, get_mac_address, Interface,
};
use device_api::hardware::{mac_field, MacLookup, LOOKUP_ERROR_PREFIX, NO_MAC_TEXT};

fn interface(name: &str, ip: &str, hardware: MacLookup) -> Interface {
    Interface { name: name.to_string(), ip: ip.to_string(), hardware }
}

#[test]
fn found_address_is_written_in_capital_hex_with_colons() {
    let lookup = MacLookup::Found([0xAA, 0xBB, 0xCC, 0xDD, 0xEE, 0xFF]);
    assert_eq!(mac_field(&lookup), "AA:BB:CC:DD:EE:FF");
}

#[test]
fn found_address_keeps_leading_zeros() {
    assert_eq!(mac_field(&MacLookup::Found([0x00, 0x01, 0x0a, 0x10, 0x9f, 0xf0])), "00:01:0A:10:9F:F0");
    assert_eq!(mac_field(&MacLookup::Found([0; 6])), "00:00:00:00:00:00");
    assert_eq!(mac_field(&MacLookup::Found([128, 250, 91, 65, 16, 107])), "80:FA:5B:41:10:6B");
}

#[test]
fn missing_address_gives_the_fixed_text() {
    assert_eq!(mac_field(&MacLookup::Missing), "No MAC address found");
    assert_eq!(NO_MAC_TEXT, "No MAC address found");
}

#[test]
fn failed_lookup_gives_the_message_behind_its_prefix() {
    let lookup = MacLookup::Failed("Internal API error".to_string());
    assert_eq!(mac_field(&lookup), "Error: Internal API error");
    assert_eq!(mac_field(&MacLookup::Failed(String::new())), "Error: ");
    assert_eq!(LOOKUP_ERROR_PREFIX, "Error: ");
}

#[test]
fn candidate_takes_name_and_ip_over() {
    let device = candidate_device(&interface(
        "eth0",
        "192.168.1.5",
        MacLookup::Found([0xAA, 0xBB, 0xCC, 0xDD, 0xEE, 0xFF]),
    ));
    assert_eq!(device, Device::new("eth0", "192.168.1.5", "AA:BB:CC:DD:EE:FF"));
}

#[test]
fn two_interfaces_with_one_address_give_one_device() {
    let interfaces = vec![
        interface("eth0", "10.0.0.1", MacLookup::Found([0; 6])),
        interface("eth1", "10.0.0.2", MacLookup::Found([0; 6])),
    ];
    let devices = devices_of(&interfaces);
    assert_eq!(devices, vec![Device::new("eth0", "10.0.0.1", "00:00:00:00:00:00")]);
}

#[test]
fn interfaces_without_address_share_the_fixed_text() {
    // Both carry the text for a missing address, so the second is a duplicate.
    let interfaces = vec![
        interface("lo", "127.0.0.1", MacLookup::Missing),
        interface("tun0", "10.8.0.1", MacLookup::Missing),
        interface("eth0", "10.0.0.1", MacLookup::Found([2, 0, 0, 0, 0, 1])),
    ];
    let devices = devices_of(&interfaces);
    assert_eq!(
        devices,
        vec![
            Device::new("lo", "127.0.0.1", "No MAC address found"),
            Device::new("eth0", "10.0.0.1", "02:00:00:00:00:01"),
        ]
    );
}

#[test]
fn failed_lookup_still_gives_a_device() {
    let interfaces = vec![interface("eth0", "10.0.0.1", MacLookup::Failed("Internal API error".to_string()))];
    let devices = devices_of(&interfaces);
    assert_eq!(devices, vec![Device::new("eth0", "10.0.0.1", "Error: Internal API error")]);
}

#[test]
fn both_addresses_of_one_interface_give_one_device() {
    let interfaces = vec![
        interface("eth0", "192.168.1.5", MacLookup::Found([0xAA, 0xBB, 0xCC, 0xDD, 0xEE, 0xFF])),
        interface("eth0", "fe80::a8bb:ccff:fedd:eeff", MacLookup::Found([0xAA, 0xBB, 0xCC, 0xDD, 0xEE, 0xFF])),
        interface("wlan0", "192.168.1.6", MacLookup::Found([0xAA, 0xBB, 0xCC, 0xDD, 0xEE, 0x00])),
    ];
    let devices = devices_of(&interfaces);
    assert_eq!(
        devices,
        vec![
            Device::new("eth0", "192.168.1.5", "AA:BB:CC:DD:EE:FF"),
            Device::new("wlan0", "192.168.1.6", "AA:BB:CC:DD:EE:00"),
        ]
    );
}

#[test]
fn no_interfaces_give_no_devices() {
    assert!(devices_of(&Vec::new()).is_empty());
}

#[test]
fn discovery_on_this_machine_has_no_duplicates() {
    let devices = get_mac_address();
    for i in 0..devices.len() {
        for j in (i + 1)..devices.len() {
            assert_ne!(devices[i].name, devices[j].name);
            assert_ne!(devices[i].mac, devices[j].mac);
        }
    }
    for device in &devices {
        assert!(!device.mac.is_empty());
    }
}

#[test]
fn discovery_is_built_afresh_each_time() {
    let first = get_mac_address();
    let second = get_mac_address();
    for device in first.iter().chain(second.iter()) {
        let hex = device.mac.len() == 17 && device.mac.matches(':').count() == 5;
        assert!(hex || device.mac == NO_MAC_TEXT || device.mac.starts_with(LOOKUP_ERROR_PREFIX));
    }
}

#[test]
fn failed_listing_gives_no_devices() {
    assert!(devices_of_listing(&None).is_empty());
}

#[test]
fn empty_listing_gives_no_devices() {
    assert!(devices_of_listing(&Some(Vec::new())).is_empty());
}

#[test]
fn listing_gives_the_devices_of_its_interfaces() {
    let interfaces = vec![
        interface("lo", "127.0.0.1", MacLookup::Missing),
        interface("eth0", "10.0.0.1", MacLookup::Found([2, 0, 0, 0, 0, 1])),
        interface("eth0", "fe80::1", MacLookup::Found([2, 0, 0, 0, 0, 1])),
        interface("wlan0", "10.0.0.2", MacLookup::Failed("Internal API error".to_string())),
    ];
    let expected = devices_of(&interfaces);
    let devices = devices_of_listing(&Some(interfaces));
    assert_eq!(devices, expected);
    assert_eq!(
        devices,
        vec![
            Device::new("lo", "127.0.0.1", "No MAC address found"),
            Device::new("eth0", "10.0.0.1", "02:00:00:00:00:01"),
            Device::new("wlan0", "10.0.0.2", "Error: Internal API error"),
        ]
    );
}
