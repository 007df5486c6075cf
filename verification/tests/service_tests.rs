use device_api::device::Device;
use device_api::service::{
    CorsPolicy, Endpoint, Method, Reply, ServiceState, BANNER, DEVICES_PATH, ROOT_PATH,
};

#[test]
fn root_answers_the_banner() {
    let state = ServiceState::new(Vec::new());
    assert_eq!(state.respond(Endpoint::Root), Reply::Text("Device API Server".to_string()));
    assert_eq!(BANNER, "Device API Server");
}

#[test]
fn endpoints_have_their_paths() {
    assert_eq!(Endpoint::Root.path(), "/");
    assert_eq!(Endpoint::Devices.path(), "/api/devices");
    assert_eq!(ROOT_PATH, "/");
    assert_eq!(DEVICES_PATH, "/api/devices");
}

#[test]
fn endpoints_answer_to_get() {
    assert_eq!(Endpoint::Root.method(), Method::Get);
    assert_eq!(Endpoint::Devices.method(), Method::Get);
}

#[test]
fn empty_state_answers_an_empty_list() {
    let state = ServiceState::new(Vec::new());
    assert_eq!(state.respond(Endpoint::Devices), Reply::Devices(Vec::new()));
    assert!(state.snapshot().is_empty());
}

#[test]
fn one_device_is_answered_field_for_field() {
    let state = ServiceState::new(vec![Device::new("eth0", "192.168.1.5", "AA:BB:CC:DD:EE:FF")]);
    match state.respond(Endpoint::Devices) {
        Reply::Devices(devices) => {
            assert_eq!(devices.len(), 1);
            assert_eq!(devices[0].name, "eth0");
            assert_eq!(devices[0].ip, "192.168.1.5");
            assert_eq!(devices[0].mac, "AA:BB:CC:DD:EE:FF");
        }
        Reply::Text(_) => panic!("the device endpoint answers a list"),
    }
}

#[test]
fn many_devices_are_answered_in_order() {
    let devices: Vec<Device> = (0..50)
        .map(|i| Device::new(&format!("if{}", i), &format!("10.0.0.{}", i), &format!("mac{}", i)))
        .collect();
    let expected: Vec<Device> = devices.iter().map(|d| d.clone()).collect();
    let state = ServiceState::new(devices);
    assert_eq!(state.respond(Endpoint::Devices), Reply::Devices(expected));
}

#[test]
fn state_keeps_duplicates_that_it_was_given() {
    let devices = vec![Device::new("a", "1", "m"), Device::new("a", "1", "m")];
    let state = ServiceState::new(devices);
    assert_eq!(state.snapshot().len(), 2);
}

#[test]
fn answers_do_not_change_the_state() {
    let state = ServiceState::new(vec![Device::new("eth0", "10.0.0.1", "m1")]);
    let first = state.respond(Endpoint::Devices);
    let _ = state.respond(Endpoint::Root);
    let second = state.respond(Endpoint::Devices);
    assert_eq!(first, second);
}

#[test]
fn policy_allows_any_origin_any_header_and_four_methods() {
    let policy = CorsPolicy::permissive();
    assert!(policy.any_origin);
    assert!(policy.any_header);
    assert_eq!(policy.methods, vec![Method::Get, Method::Post, Method::Put, Method::Delete]);
}
