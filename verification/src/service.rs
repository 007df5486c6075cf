//! What the HTTP service answers: its state, its two endpoints, and the
//! cross-origin policy under which it is served.

use vstd::prelude::*;
use crate::device::{clone_devices, Device, DeviceView};

verus! {

/// The body of the answer at the root path.
pub const BANNER: &'static str = "Device API Server";

/// The path that identifies the service.
pub const ROOT_PATH: &'static str = "/";

/// The path under which the device list is served.
pub const DEVICES_PATH: &'static str = "/api/devices";

/// An HTTP method that the cross-origin policy can allow.
#[derive(Debug, Clone, Copy, PartialEq, Eq, Structural)]
pub enum Method {
    Get,
    Post,
    Put,
    Delete,
}

/// The routes of the service. Both answer to `GET`.
#[derive(Debug, Clone, Copy, PartialEq, Eq, Structural)]
pub enum Endpoint {
    /// Identifies the service.
    Root,
    /// Serves the device list.
    Devices,
}

/// What an endpoint answers.
#[derive(Debug, PartialEq, Eq)]
pub enum Reply {
    /// A plain text body.
    Text(String),
    /// A list of devices, to be sent as an array of objects.
    Devices(Vec<Device>),
}

/// Mathematical value of a [`Reply`].
pub enum ReplyView {
    Text(Seq<char>),
    Devices(Seq<DeviceView>),
}

impl View for Reply {
    type V = ReplyView;

    open spec fn view(&self) -> ReplyView {
        match self {
            Reply::Text(text) => ReplyView::Text(text@),
            Reply::Devices(devices) => ReplyView::Devices(devices.deep_view()),
        }
    }
}

/// The path of an endpoint.
pub open spec fn path_of(endpoint: Endpoint) -> Seq<char> {
    match endpoint {
        Endpoint::Root => ROOT_PATH@,
        Endpoint::Devices => DEVICES_PATH@,
    }
}

/// What the service answers at `endpoint` while it holds `devices`.
pub open spec fn answer(devices: Seq<DeviceView>, endpoint: Endpoint) -> ReplyView {
    match endpoint {
        Endpoint::Root => ReplyView::Text(BANNER@),
        Endpoint::Devices => ReplyView::Devices(devices),
    }
}

impl Endpoint {
    /// The path at which the endpoint is registered.
    pub fn path(self) -> (path: &'static str)
        ensures
            path@ == path_of(self),
    {
        match self {
            Endpoint::Root => ROOT_PATH,
            Endpoint::Devices => DEVICES_PATH,
        }
    }

    /// The method to which the endpoint answers.
    pub fn method(self) -> (method: Method)
        ensures
            method == Method::Get,
    {
        Method::Get
    }
}

/// The device list that a running service holds. It is set when the
/// service is made and only read afterwards.
pub struct ServiceState {
    devices: Vec<Device>,
}

impl View for ServiceState {
    type V = Seq<DeviceView>;

    closed spec fn view(&self) -> Seq<DeviceView> {
        self.devices.deep_view()
    }
}

impl ServiceState {
    /// Takes the device list over, as it is: empty, or with duplicates.
    pub fn new(devices: Vec<Device>) -> (state: Self)
        ensures
            state@ == devices.deep_view(),
    {
        ServiceState { devices }
    }

    /// A copy of the device list as it stands.
    pub fn snapshot(&self) -> (devices: Vec<Device>)
        ensures
            devices.deep_view() == self@,
    {
        clone_devices(&self.devices)
    }

    /// The answer at `endpoint`. The device list is answered field for
    /// field and in order, whatever its length; an empty list is an answer
    /// like any other.
    pub fn respond(&self, endpoint: Endpoint) -> (reply: Reply)
        ensures
            reply@ == answer(self@, endpoint),
    {
        match endpoint {
            Endpoint::Root => Reply::Text(BANNER.to_owned()),
            Endpoint::Devices => Reply::Devices(self.snapshot()),
        }
    }
}

/// The device endpoint answers exactly the list that the service holds,
/// whatever its length, and the root endpoint never depends on it.
pub proof fn lemma_answer_is_the_list(devices: Seq<DeviceView>)
    ensures
        answer(devices, Endpoint::Devices) == ReplyView::Devices(devices),
        answer(devices, Endpoint::Root) == ReplyView::Text(BANNER@),
{
}

/// A service without devices still answers at the device endpoint: with an
/// empty list.
pub proof fn lemma_empty_state_answers()
    ensures
        answer(Seq::empty(), Endpoint::Devices) == ReplyView::Devices(Seq::empty()),
{
}

/// Under which conditions a page of another origin may call the service.
#[derive(Debug, PartialEq, Eq)]
pub struct CorsPolicy {
    /// Requests of every origin are allowed.
    pub any_origin: bool,
    /// Every request header is allowed.
    pub any_header: bool,
    /// The methods that are allowed.
    pub methods: Vec<Method>,
}

impl CorsPolicy {
    /// The policy of the service: any origin, any request header, and the
    /// methods `GET`, `POST`, `PUT` and `DELETE`. It allows more methods
    /// than the endpoints answer to, so that a new route needs no new policy.
    pub fn permissive() -> (policy: Self)
        ensures
            policy.any_origin,
            policy.any_header,
            policy.methods@ == seq![Method::Get, Method::Post, Method::Put, Method::Delete],
    {
        let mut methods: Vec<Method> = Vec::new();
        methods.push(Method::Get);
        methods.push(Method::Post);
        methods.push(Method::Put);
        methods.push(Method::Delete);
        assert(methods@ =~= seq![Method::Get, Method::Post, Method::Put, Method::Delete]);
        CorsPolicy { any_origin: true, any_header: true, methods }
    }
}

} // verus!
