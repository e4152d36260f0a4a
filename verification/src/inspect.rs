//! What the engine reports of a container, and how it is read.

use crate::address::{ip_value, parse_ip, IpAddress, IpValue};
use crate::request::{port_key, port_key_string};
use crate::text::{opt_text, parse_port, port_number};
use vstd::prelude::*;

verus! {

/// The two families of internet addresses.
#[derive(Clone, Copy, Debug, PartialEq, Eq, Structural)]
pub enum IpFamily {
    V4,
    V6,
}

/// The family of the address that the text in an address field denotes;
/// none where the field is left out and where its text denotes no address.
pub open spec fn family_of(field: Option<Seq<char>>) -> Option<IpFamily> {
    match field {
        Some(text) => match ip_value(text) {
            Some(IpValue::V4 { octets }) => Some(IpFamily::V4),
            Some(IpValue::V6 { segments }) => Some(IpFamily::V6),
            None => None,
        },
        None => None,
    }
}

/// A live binding of a container port on the host.
#[derive(Debug, PartialEq, Eq)]
pub struct LiveBinding {
    pub host_ip: Option<String>,
    pub host_port: Option<String>,
}

pub struct LiveBindingView {
    pub host_ip: Option<Seq<char>>,
    pub host_port: Option<Seq<char>>,
}

impl View for LiveBinding {
    type V = LiveBindingView;

    open spec fn view(&self) -> LiveBindingView {
        LiveBindingView { host_ip: opt_text(self.host_ip), host_port: opt_text(self.host_port) }
    }
}

/// The views of a list of live bindings.
pub open spec fn live_binding_views(v: Seq<LiveBinding>) -> Seq<LiveBindingView> {
    Seq::new(v.len(), |i: int| v[i]@)
}

/// The live bindings that the engine reports under one port key.
#[derive(Debug, PartialEq, Eq)]
pub struct LivePort {
    pub key: String,
    pub bindings: Option<Vec<LiveBinding>>,
}

pub struct LivePortView {
    pub key: Seq<char>,
    pub bindings: Option<Seq<LiveBindingView>>,
}

impl View for LivePort {
    type V = LivePortView;

    open spec fn view(&self) -> LivePortView {
        LivePortView {
            key: self.key@,
            bindings: match self.bindings {
                Some(b) => Some(live_binding_views(b@)),
                None => None,
            },
        }
    }
}

/// The views of a list of reported ports.
pub open spec fn live_port_views(v: Seq<LivePort>) -> Seq<LivePortView> {
    Seq::new(v.len(), |i: int| v[i]@)
}

/// A network that the container is attached to.
#[derive(Debug, PartialEq, Eq)]
pub struct Endpoint {
    pub network: String,
    pub ip_address: Option<String>,
}

pub struct EndpointView {
    pub network: Seq<char>,
    pub ip_address: Option<Seq<char>>,
}

impl View for Endpoint {
    type V = EndpointView;

    open spec fn view(&self) -> EndpointView {
        EndpointView { network: self.network@, ip_address: opt_text(self.ip_address) }
    }
}

/// The views of a list of endpoints.
pub open spec fn endpoint_views(v: Seq<Endpoint>) -> Seq<EndpointView> {
    Seq::new(v.len(), |i: int| v[i]@)
}

/// The network settings of a report.
#[derive(Debug, PartialEq, Eq)]
pub struct NetworkSettings {
    pub bridge: Option<String>,
    pub ports: Option<Vec<LivePort>>,
    pub networks: Option<Vec<Endpoint>>,
}

pub struct NetworkSettingsView {
    pub bridge: Option<Seq<char>>,
    pub ports: Option<Seq<LivePortView>>,
    pub networks: Option<Seq<EndpointView>>,
}

impl View for NetworkSettings {
    type V = NetworkSettingsView;

    open spec fn view(&self) -> NetworkSettingsView {
        NetworkSettingsView {
            bridge: opt_text(self.bridge),
            ports: match self.ports {
                Some(p) => Some(live_port_views(p@)),
                None => None,
            },
            networks: match self.networks {
                Some(n) => Some(endpoint_views(n@)),
                None => None,
            },
        }
    }
}

/// What a health check says of a container.
#[derive(Clone, Copy, Debug, PartialEq, Eq, Structural)]
pub enum HealthStatus {
    /// The status field is there and empty.
    Empty,
    /// The container has no health check.
    Unchecked,
    Starting,
    Healthy,
    Unhealthy,
}

/// The health part of a container's state.
#[derive(Clone, Copy, Debug, PartialEq, Eq, Structural)]
pub struct Health {
    pub status: Option<HealthStatus>,
}

/// The state part of a report.
#[derive(Clone, Copy, Debug, PartialEq, Eq, Structural)]
pub struct ContainerState {
    pub health: Option<Health>,
}

/// What the engine reports when a container is inspected.
#[derive(Debug, PartialEq, Eq)]
pub struct ContainerInspect {
    pub state: Option<ContainerState>,
    pub network_settings: Option<NetworkSettings>,
}

pub struct InspectView {
    pub state: Option<ContainerState>,
    pub network_settings: Option<NetworkSettingsView>,
}

impl View for ContainerInspect {
    type V = InspectView;

    open spec fn view(&self) -> InspectView {
        InspectView {
            state: self.state,
            network_settings: match self.network_settings {
                Some(n) => Some(n@),
                None => None,
            },
        }
    }
}

/// `binding` publishes a port on an address of `family`, under a host port
/// that can be read.
#[verifier::opaque]
pub open spec fn serves(binding: LiveBindingView, family: IpFamily) -> bool {
    &&& family_of(binding.host_ip) == Some(family)
    &&& binding.host_port matches Some(text)
    &&& port_number(text) is Some
}

/// The host port of the last of `bindings` that serves `family`.
pub open spec fn host_port_in(bindings: Seq<LiveBindingView>, family: IpFamily) -> Option<u16>
    decreases bindings.len(),
{
    if bindings.len() == 0 {
        None
    } else if serves(bindings.last(), family) {
        port_number(bindings.last().host_port->0)
    } else {
        host_port_in(bindings.drop_last(), family)
    }
}

/// The first of `ports` that stands under `key`.
pub open spec fn port_entry(ports: Seq<LivePortView>, key: Seq<char>) -> Option<LivePortView>
    decreases ports.len(),
{
    if ports.len() == 0 {
        None
    } else if ports[0].key == key {
        Some(ports[0])
    } else {
        port_entry(ports.drop_first(), key)
    }
}

/// The host port on which the report shows the container's TCP port
/// `internal` for addresses of `family`.
pub open spec fn resolve(report: InspectView, internal: u16, family: IpFamily) -> Option<u16> {
    match report.network_settings {
        None => None,
        Some(settings) => match settings.ports {
            None => None,
            Some(ports) => match port_entry(ports, port_key(internal)) {
                None => None,
                Some(entry) => match entry.bindings {
                    None => None,
                    Some(bindings) => host_port_in(bindings, family),
                },
            },
        },
    }
}

/// Whether the text in `field` denotes an address of `family`.
fn is_of_family(field: &Option<String>, family: IpFamily) -> (yes: bool)
    ensures
        yes == (family_of(opt_text(*field)) == Some(family)),
{
    match field {
        Some(text) => match parse_ip(text.as_str()) {
            Some(IpAddress::V4(_)) => match family {
                IpFamily::V4 => true,
                IpFamily::V6 => false,
            },
            Some(IpAddress::V6(_)) => match family {
                IpFamily::V4 => false,
                IpFamily::V6 => true,
            },
            None => false,
        },
        None => false,
    }
}

/// The host port of the last of `bindings` that serves `family`.
fn last_host_port(bindings: &Vec<LiveBinding>, family: IpFamily) -> (port: Option<u16>)
    ensures
        port == host_port_in(live_binding_views(bindings@), family),
{
    let ghost all = live_binding_views(bindings@);
    let mut i: usize = bindings.len();
    assert(all.take(i as int) =~= all);
    while i > 0
        invariant
            i <= bindings.len(),
            all == live_binding_views(bindings@),
            host_port_in(all, family) == host_port_in(all.take(i as int), family),
        decreases i,
    {
        i = i - 1;
        reveal(serves);
        let ghost upto = all.take(i + 1);
        assert(upto.last() == bindings@[i as int]@);
        assert(upto.drop_last() =~= all.take(i as int));
        if is_of_family(&bindings[i].host_ip, family) {
            match &bindings[i].host_port {
                Some(text) => {
                    let port = parse_port(text.as_str());
                    if port.is_some() {
                        return port;
                    }
                },
                None => {},
            }
        }
    }
    None
}

/// The host port on which `report` shows the container's TCP port `internal`
/// for addresses of `family`, if it shows one.
#[verifier::loop_isolation(false)]
pub fn resolve_host_port(report: &ContainerInspect, internal: u16, family: IpFamily) -> (port:
    Option<u16>)
    ensures
        port == resolve(report@, internal, family),
{
    let settings = match &report.network_settings {
        Some(settings) => settings,
        None => {
            return None;
        },
    };
    let ports = match &settings.ports {
        Some(ports) => ports,
        None => {
            return None;
        },
    };
    let key = port_key_string(internal);
    let ghost all = live_port_views(ports@);
    let mut i: usize = 0;
    assert(all.skip(0) =~= all);
    while i < ports.len()
        invariant
            i <= ports.len(),
            key@ == port_key(internal),
            all == live_port_views(ports@),
            port_entry(all, key@) == port_entry(all.skip(i as int), key@),
        decreases ports.len() - i,
    {
        let ghost rest = all.skip(i as int);
        assert(rest[0] == ports@[i as int]@);
        assert(rest.drop_first() =~= all.skip(i + 1));
        if ports[i].key == key {
            return match &ports[i].bindings {
                Some(bindings) => last_host_port(bindings, family),
                None => None,
            };
        }
        i = i + 1;
    }
    assert(all.skip(i as int).len() == 0);
    None
}

/// Why the address of a container on its network could not be told.
#[derive(Clone, Copy, Debug, PartialEq, Eq, Structural)]
pub enum BridgeError {
    /// The report has no network settings.
    NoNetworkSettings,
    /// The network settings list no networks.
    NoNetworks,
    /// Neither the image nor the report names the network.
    MissingBridgeName,
    /// The container is not on the network, or has no address there.
    MissingBridgeIp,
    /// What stands in the address field is no address.
    InvalidBridgeIp,
}

/// The first of `endpoints` on the network `network`.
pub open spec fn endpoint_on(endpoints: Seq<EndpointView>, network: Seq<char>) -> Option<
    EndpointView,
>
    decreases endpoints.len(),
{
    if endpoints.len() == 0 {
        None
    } else if endpoints[0].network == network {
        Some(endpoints[0])
    } else {
        endpoint_on(endpoints.drop_first(), network)
    }
}

/// The network on which a container is looked up: the one that its image
/// chose, else the engine's default bridge as the report names it.
pub open spec fn effective_network(chosen: Option<Seq<char>>, bridge: Option<Seq<char>>) -> Option<
    Seq<char>,
> {
    if chosen is Some {
        chosen
    } else {
        bridge
    }
}

/// The address of a container on its effective network, or what is missing
/// to tell it.
pub open spec fn bridge_ip(chosen: Option<Seq<char>>, report: InspectView) -> Result<
    IpValue,
    BridgeError,
> {
    match report.network_settings {
        None => Err(BridgeError::NoNetworkSettings),
        Some(settings) => match settings.networks {
            None => Err(BridgeError::NoNetworks),
            Some(endpoints) => match effective_network(chosen, settings.bridge) {
                None => Err(BridgeError::MissingBridgeName),
                Some(network) => match endpoint_on(endpoints, network) {
                    None => Err(BridgeError::MissingBridgeIp),
                    Some(endpoint) => match endpoint.ip_address {
                        None => Err(BridgeError::MissingBridgeIp),
                        Some(text) => match ip_value(text) {
                            None => Err(BridgeError::InvalidBridgeIp),
                            Some(address) => Ok(address),
                        },
                    },
                },
            },
        },
    }
}

/// The view of an address or of the reason why there is none.
pub open spec fn address_or_error(address: Result<IpAddress, BridgeError>) -> Result<
    IpValue,
    BridgeError,
> {
    match address {
        Ok(a) => Ok(a@),
        Err(e) => Err(e),
    }
}

/// The address of a container on its effective network: on `chosen` where
/// the image chose a network, else on the default bridge.
#[verifier::loop_isolation(false)]
pub fn bridge_ip_address(chosen: &Option<String>, report: &ContainerInspect) -> (address: Result<
    IpAddress,
    BridgeError,
>)
    ensures
        address_or_error(address) == bridge_ip(opt_text(*chosen), report@),
{
    let settings = match &report.network_settings {
        Some(settings) => settings,
        None => {
            return Err(BridgeError::NoNetworkSettings);
        },
    };
    let endpoints = match &settings.networks {
        Some(endpoints) => endpoints,
        None => {
            return Err(BridgeError::NoNetworks);
        },
    };
    let network = match chosen {
        Some(network) => network,
        None => match &settings.bridge {
            Some(network) => network,
            None => {
                return Err(BridgeError::MissingBridgeName);
            },
        },
    };
    assert(effective_network(opt_text(*chosen), opt_text(settings.bridge)) == Some(network@));
    let ghost all = endpoint_views(endpoints@);
    let mut i: usize = 0;
    assert(all.skip(0) =~= all);
    while i < endpoints.len()
        invariant
            i <= endpoints.len(),
            all == endpoint_views(endpoints@),
            endpoint_on(all, network@) == endpoint_on(all.skip(i as int), network@),
        decreases endpoints.len() - i,
    {
        let ghost rest = all.skip(i as int);
        assert(rest[0] == endpoints@[i as int]@);
        assert(rest.drop_first() =~= all.skip(i + 1));
        if endpoints[i].network == *network {
            return match &endpoints[i].ip_address {
                None => Err(BridgeError::MissingBridgeIp),
                Some(text) => match parse_ip(text.as_str()) {
                    None => Err(BridgeError::InvalidBridgeIp),
                    Some(address) => Ok(address),
                },
            };
        }
        i = i + 1;
    }
    assert(all.skip(i as int).len() == 0);
    Err(BridgeError::MissingBridgeIp)
}

/// `port_entry` finds the first entry under the key: where it finds one, the
/// entry stands in the list under that key and no entry before it does;
/// where it finds none, no entry stands under the key.
pub proof fn lemma_port_entry_is_first(ports: Seq<LivePortView>, key: Seq<char>)
    ensures
        match port_entry(ports, key) {
            Some(entry) => exists|i: int|
                0 <= i < ports.len() && #[trigger] ports[i] == entry && entry.key == key
                    && forall|j: int| 0 <= j < i ==> (#[trigger] ports[j]).key != key,
            None => forall|j: int| 0 <= j < ports.len() ==> (#[trigger] ports[j]).key != key,
        },
    decreases ports.len(),
{
    if ports.len() > 0 && ports[0].key != key {
        let rest = ports.drop_first();
        lemma_port_entry_is_first(rest, key);
        match port_entry(rest, key) {
            Some(entry) => {
                let i = choose|i: int|
                    0 <= i < rest.len() && #[trigger] rest[i] == entry && entry.key == key
                        && forall|j: int| 0 <= j < i ==> (#[trigger] rest[j]).key != key;
                assert(ports[i + 1] == entry);
                assert forall|j: int| 0 <= j < i + 1 implies (#[trigger] ports[j]).key != key by {
                    if j > 0 {
                        assert(rest[j - 1] == ports[j]);
                    }
                }
            },
            None => {
                assert forall|j: int| 0 <= j < ports.len() implies (#[trigger] ports[j]).key
                    != key by {
                    if j > 0 {
                        assert(rest[j - 1] == ports[j]);
                    }
                }
            },
        }
    } else if ports.len() > 0 {
        assert(ports[0].key == key);
    }
}

/// A binding that serves a family has a host port that can be read.
proof fn lemma_serving_has_port(binding: LiveBindingView, family: IpFamily)
    requires
        serves(binding, family),
    ensures
        binding.host_port is Some,
        port_number(binding.host_port->0) is Some,
{
    reveal(serves);
}

/// `host_port_in` reads the last binding that serves the family: where it
/// gives a port, some binding serves the family under that port and no
/// binding after it serves the family; where it gives none, no binding
/// serves the family.
pub proof fn lemma_host_port_is_last(bindings: Seq<LiveBindingView>, family: IpFamily)
    ensures
        match host_port_in(bindings, family) {
            Some(port) => exists|i: int|
                0 <= i < bindings.len() && serves(#[trigger] bindings[i], family) && port_number(
                    bindings[i].host_port->0,
                ) == Some(port) && forall|j: int|
                    i < j < bindings.len() ==> !serves(#[trigger] bindings[j], family),
            None => forall|j: int|
                0 <= j < bindings.len() ==> !serves(#[trigger] bindings[j], family),
        },
    decreases bindings.len(),
{
    if bindings.len() > 0 {
        let last = bindings.len() - 1;
        if serves(bindings.last(), family) {
            lemma_serving_has_port(bindings[last], family);
        } else {
            let rest = bindings.drop_last();
            lemma_host_port_is_last(rest, family);
            match host_port_in(rest, family) {
                Some(port) => {
                    let i = choose|i: int|
                        0 <= i < rest.len() && serves(#[trigger] rest[i], family) && port_number(
                            rest[i].host_port->0,
                        ) == Some(port) && forall|j: int|
                            i < j < rest.len() ==> !serves(#[trigger] rest[j], family);
                    assert(bindings[i] == rest[i]);
                    assert forall|j: int| i < j < bindings.len() implies !serves(
                        #[trigger] bindings[j],
                        family,
                    ) by {
                        if j < rest.len() {
                            assert(rest[j] == bindings[j]);
                        }
                    }
                },
                None => {
                    assert forall|j: int| 0 <= j < bindings.len() implies !serves(
                        #[trigger] bindings[j],
                        family,
                    ) by {
                        if j < rest.len() {
                            assert(rest[j] == bindings[j]);
                        }
                    }
                },
            }
        }
    }
}

} // verus!
