use testcontainers::inspect::{bridge_ip_address, resolve_host_port};
use testcontainers::{
    BridgeError, Command, ContainerAsync, ContainerInspect, Endpoint, EngineResponse, Http,
    IpAddress, IpFamily, LiveBinding, LivePort, NetworkSettings, PortNotExposed, RunnableImage,
};

const V4: Option<&str> = Some("0.0.0.0");
const V6: Option<&str> = Some("::");

fn binding(host_ip: Option<&str>, host_port: Option<&str>) -> LiveBinding {
    LiveBinding { host_ip: host_ip.map(str::to_string), host_port: host_port.map(str::to_string) }
}

fn report(ports: Option<Vec<LivePort>>) -> ContainerInspect {
    ContainerInspect {
        state: None,
        network_settings: Some(NetworkSettings { bridge: None, ports, networks: None }),
    }
}

fn port(key: &str, bindings: Option<Vec<LiveBinding>>) -> LivePort {
    LivePort { key: key.to_string(), bindings }
}

fn handle(network: Option<&str>) -> ContainerAsync {
    let mut client = Http::new(Command::Remove);
    let image = RunnableImage::new("hello-world", "latest");
    let launch = match network {
        Some(network) => {
            let (launch, _) = client.run(image.with_network(network));
            let names = vec![Some(network.to_string())];
            launch.step(&mut client, EngineResponse::Networks { names }).0
        }
        None => client.run(image).0,
    };
    let (launch, _) =
        launch.step(&mut client, EngineResponse::ContainerCreated { id: "abc".to_string() });
    let (launch, _) = launch.step(&mut client, EngineResponse::ContainerStarted);
    launch.finish().unwrap()
}

fn networks(
    bridge: Option<&str>,
    endpoints: Option<Vec<(&str, Option<&str>)>>,
) -> ContainerInspect {
    ContainerInspect {
        state: None,
        network_settings: Some(NetworkSettings {
            bridge: bridge.map(str::to_string),
            ports: None,
            networks: endpoints.map(|list| {
                list.into_iter()
                    .map(|(network, ip_address)| Endpoint {
                        network: network.to_string(),
                        ip_address: ip_address.map(str::to_string),
                    })
                    .collect()
            }),
        }),
    }
}

#[test]
fn resolves_each_family_to_its_own_host_port() {
    let report = report(Some(vec![
        port("80/tcp", Some(vec![binding(V4, Some("8080")), binding(V6, Some("8081"))])),
        port("5000/tcp", Some(vec![binding(V4, Some("32768"))])),
    ]));
    assert_eq!(resolve_host_port(&report, 80, IpFamily::V4), Some(8080));
    assert_eq!(resolve_host_port(&report, 80, IpFamily::V6), Some(8081));
    assert_eq!(resolve_host_port(&report, 5000, IpFamily::V4), Some(32768));
    assert_eq!(resolve_host_port(&report, 5000, IpFamily::V6), None);
}

#[test]
fn resolves_nothing_without_a_mapping() {
    assert_eq!(
        resolve_host_port(&ContainerInspect { state: None, network_settings: None }, 80, IpFamily::V4),
        None
    );
    assert_eq!(resolve_host_port(&report(None), 80, IpFamily::V4), None);
    assert_eq!(resolve_host_port(&report(Some(vec![])), 80, IpFamily::V4), None);
    assert_eq!(resolve_host_port(&report(Some(vec![port("80/tcp", None)])), 80, IpFamily::V4), None);
    assert_eq!(
        resolve_host_port(&report(Some(vec![port("80/tcp", Some(vec![]))])), 80, IpFamily::V4),
        None
    );
}

#[test]
fn resolves_by_the_tcp_key_only() {
    let report = report(Some(vec![
        port("80/udp", Some(vec![binding(V4, Some("1"))])),
        port("80", Some(vec![binding(V4, Some("2"))])),
        port("080/tcp", Some(vec![binding(V4, Some("3"))])),
        port("8080/tcp", Some(vec![binding(V4, Some("4"))])),
    ]));
    assert_eq!(resolve_host_port(&report, 80, IpFamily::V4), None);
    assert_eq!(resolve_host_port(&report, 8080, IpFamily::V4), Some(4));
}

#[test]
fn skips_bindings_that_cannot_be_read() {
    let report = report(Some(vec![port(
        "80/tcp",
        Some(vec![
            binding(V4, Some("1000")),
            binding(V4, None),
            binding(V4, Some("")),
            binding(V4, Some("70000")),
            binding(V4, Some("http")),
            binding(None, Some("2000")),
            binding(Some(""), Some("3000")),
            binding(Some("localhost"), Some("4000")),
            binding(Some("0.0.0.256"), Some("5000")),
        ]),
    )]));
    assert_eq!(resolve_host_port(&report, 80, IpFamily::V4), Some(1000));
    assert_eq!(resolve_host_port(&report, 80, IpFamily::V6), None);
}

#[test]
fn last_binding_of_a_family_wins() {
    let report = report(Some(vec![port(
        "80/tcp",
        Some(vec![
            binding(V4, Some("1")),
            binding(V6, Some("2")),
            binding(V4, Some("3")),
            binding(V6, Some("4")),
            binding(V4, Some("x")),
        ]),
    )]));
    assert_eq!(resolve_host_port(&report, 80, IpFamily::V4), Some(3));
    assert_eq!(resolve_host_port(&report, 80, IpFamily::V6), Some(4));
}

#[test]
fn first_entry_under_a_key_is_read() {
    let report = report(Some(vec![
        port("80/tcp", Some(vec![binding(V6, Some("1"))])),
        port("80/tcp", Some(vec![binding(V4, Some("2"))])),
    ]));
    assert_eq!(resolve_host_port(&report, 80, IpFamily::V4), None);
    assert_eq!(resolve_host_port(&report, 80, IpFamily::V6), Some(1));
}

#[test]
fn handle_reports_a_port_that_is_not_exposed() {
    let container = handle(None);
    let report = report(Some(vec![port("80/tcp", Some(vec![binding(V4, Some("8080"))]))]));
    assert_eq!(container.get_host_port_ipv4(&report, 80), Ok(8080));
    assert_eq!(
        container.get_host_port_ipv4(&report, 81),
        Err(PortNotExposed { internal_port: 81 })
    );
    assert_eq!(
        container.get_host_port_ipv6(&report, 80),
        Err(PortNotExposed { internal_port: 80 })
    );
    assert_eq!(container.get_host_port(&report, 80), Ok(8080));
    assert_eq!(container.get_host_port(&report, 82), Err(PortNotExposed { internal_port: 82 }));
}

#[test]
fn bridge_address_on_the_default_bridge() {
    let address = IpAddress::V4([172, 17, 0, 2]);
    let report = networks(Some("bridge"), Some(vec![("other", V6), ("bridge", Some("172.17.0.2"))]));
    assert_eq!(handle(None).get_bridge_ip_address(&report), Ok(address));
    assert_eq!(bridge_ip_address(&None, &report), Ok(address));
}

#[test]
fn bridge_address_on_the_chosen_network() {
    let address = IpAddress::V6([0xfd00, 0, 0, 0, 0, 0, 0, 1]);
    let report = networks(Some("bridge"), Some(vec![("bridge", V4), ("mine", Some("fd00::1"))]));
    assert_eq!(handle(Some("mine")).get_bridge_ip_address(&report), Ok(address));
    let without_bridge = networks(None, Some(vec![("mine", Some("fd00::1"))]));
    assert_eq!(handle(Some("mine")).get_bridge_ip_address(&without_bridge), Ok(address));
}

#[test]
fn bridge_address_fails_for_each_missing_part() {
    let none = ContainerInspect { state: None, network_settings: None };
    assert_eq!(handle(None).get_bridge_ip_address(&none), Err(BridgeError::NoNetworkSettings));
    assert_eq!(
        handle(None).get_bridge_ip_address(&networks(Some("bridge"), None)),
        Err(BridgeError::NoNetworks)
    );
    assert_eq!(
        handle(None).get_bridge_ip_address(&networks(None, Some(vec![("bridge", V4)]))),
        Err(BridgeError::MissingBridgeName)
    );
    assert_eq!(
        handle(Some("mine")).get_bridge_ip_address(&networks(Some("bridge"), Some(vec![("bridge", V4)]))),
        Err(BridgeError::MissingBridgeIp)
    );
    assert_eq!(
        handle(None).get_bridge_ip_address(&networks(Some("bridge"), Some(vec![]))),
        Err(BridgeError::MissingBridgeIp)
    );
    assert_eq!(
        handle(None)
            .get_bridge_ip_address(&networks(Some("bridge"), Some(vec![("bridge", None)]))),
        Err(BridgeError::MissingBridgeIp)
    );
    assert_eq!(
        handle(None)
            .get_bridge_ip_address(&networks(Some("bridge"), Some(vec![("bridge", Some(""))]))),
        Err(BridgeError::InvalidBridgeIp)
    );
    assert_eq!(
        handle(None)
            .get_bridge_ip_address(&networks(Some("bridge"), Some(vec![("bridge", Some("172.17.0"))]))),
        Err(BridgeError::InvalidBridgeIp)
    );
}

#[test]
fn missing_networks_come_before_missing_name() {
    assert_eq!(
        handle(None).get_bridge_ip_address(&networks(None, None)),
        Err(BridgeError::NoNetworks)
    );
}
