use std::collections::VecDeque;

use testcontainers::{
    Command, ContainerAsync, ContainerInspect, ContainerState, CreateRequest, Endpoint,
    EngineRequest, EngineResponse, Health, HealthStatus, Http, Launch, LiveBinding, LivePort,
    LogStream, NetworkSettings, Next, Phase, PortMapping, RunError, RunnableImage, WaitFor,
};

/// An engine that lives in memory.
struct Engine {
    networks: Vec<String>,
    local_images: Vec<String>,
    pullable_images: Vec<String>,
    pull_events_left: u32,
    pulling: Option<String>,
    containers: Vec<(String, CreateRequest)>,
    started: Vec<String>,
    health: VecDeque<ContainerInspect>,
    stdout: VecDeque<String>,
    stderr: VecDeque<String>,
    open: Option<LogStream>,
    sleeps: Vec<u64>,
    performed: Vec<EngineRequest>,
}

fn engine() -> Engine {
    Engine {
        networks: vec!["bridge".to_string()],
        local_images: vec![
            "hello-world:latest".to_string(),
            "simple_web_server:latest".to_string(),
        ],
        pullable_images: vec!["remote:1".to_string()],
        pull_events_left: 0,
        pulling: None,
        containers: Vec::new(),
        started: Vec::new(),
        health: VecDeque::new(),
        stdout: VecDeque::new(),
        stderr: VecDeque::new(),
        open: None,
        sleeps: Vec::new(),
        performed: Vec::new(),
    }
}

fn report_with_health(status: Option<HealthStatus>) -> ContainerInspect {
    ContainerInspect {
        state: Some(ContainerState { health: Some(Health { status }) }),
        network_settings: None,
    }
}

fn live_ports(request: &CreateRequest) -> Option<Vec<LivePort>> {
    let host = request.config.host_config.as_ref()?;
    let entries = host.port_bindings.as_ref()?;
    let mut next_free = 32768u32;
    let mut ports = Vec::new();
    for entry in entries {
        let mut bindings = Vec::new();
        for binding in &entry.bindings {
            let host_port = match &binding.host_port {
                Some(port) => port.clone(),
                None => {
                    next_free += 1;
                    next_free.to_string()
                }
            };
            bindings.push(LiveBinding {
                host_ip: Some("0.0.0.0".to_string()),
                host_port: Some(host_port.clone()),
            });
            bindings.push(LiveBinding {
                host_ip: Some("::".to_string()),
                host_port: Some(host_port),
            });
        }
        ports.push(LivePort { key: entry.key.clone(), bindings: Some(bindings) });
    }
    Some(ports)
}

impl Engine {
    fn next_line(&mut self) -> EngineResponse {
        let line = match self.open {
            Some(LogStream::StdOut) => self.stdout.pop_front(),
            Some(LogStream::StdErr) => self.stderr.pop_front(),
            None => None,
        };
        match line {
            Some(line) => EngineResponse::LogLine { line },
            None => EngineResponse::LogsEnded,
        }
    }

    fn inspect(&self, id: &str) -> ContainerInspect {
        let request = &self.containers.iter().find(|c| c.0 == id).unwrap().1;
        let network = request
            .config
            .host_config
            .as_ref()
            .and_then(|h| h.network_mode.clone())
            .unwrap_or("bridge".to_string());
        ContainerInspect {
            state: Some(ContainerState { health: None }),
            network_settings: Some(NetworkSettings {
                bridge: Some("bridge".to_string()),
                ports: live_ports(request),
                networks: Some(vec![Endpoint {
                    network,
                    ip_address: Some("172.17.0.2".to_string()),
                }]),
            }),
        }
    }

    fn perform(&mut self, launch: &Launch, request: &EngineRequest) -> EngineResponse {
        match request {
            EngineRequest::ListNetworks => EngineResponse::Networks {
                names: self.networks.iter().map(|n| Some(n.clone())).collect(),
            },
            EngineRequest::CreateNetwork { name } => {
                self.networks.push(name.clone());
                EngineResponse::NetworkCreated
            }
            EngineRequest::CreateContainer => {
                let request = launch.request();
                let image = request.config.image.clone().unwrap();
                if self.local_images.contains(&image) {
                    let id = format!("container-{}", self.containers.len());
                    self.containers.push((id.clone(), request));
                    EngineResponse::ContainerCreated { id }
                } else {
                    EngineResponse::Failed { status_code: Some(404) }
                }
            }
            EngineRequest::PullImage { descriptor } => {
                if self.pullable_images.contains(descriptor) {
                    self.pulling = Some(descriptor.clone());
                    self.pull_events_left = 2;
                    EngineResponse::PullProgress
                } else {
                    EngineResponse::Failed { status_code: Some(404) }
                }
            }
            EngineRequest::AwaitPull => {
                if self.pull_events_left > 0 {
                    self.pull_events_left -= 1;
                    EngineResponse::PullProgress
                } else {
                    let image = self.pulling.take().unwrap();
                    self.local_images.push(image);
                    EngineResponse::PullFinished
                }
            }
            EngineRequest::StartContainer { id } => {
                self.started.push(id.clone());
                EngineResponse::ContainerStarted
            }
            EngineRequest::FollowLogs { id: _, stream } => {
                self.open = Some(*stream);
                self.next_line()
            }
            EngineRequest::AwaitLogLine => self.next_line(),
            EngineRequest::Sleep { millis } => {
                self.sleeps.push(*millis);
                EngineResponse::Slept
            }
            EngineRequest::Inspect { id } => match self.health.pop_front() {
                Some(report) => EngineResponse::Inspected { report },
                None => EngineResponse::Inspected { report: self.inspect(id) },
            },
            EngineRequest::RemoveNetwork { name } => {
                self.networks.retain(|n| n != name);
                EngineResponse::Slept
            }
            EngineRequest::RemoveContainer { id, .. } => {
                self.containers.retain(|c| &c.0 != id);
                EngineResponse::Slept
            }
            EngineRequest::StopContainer { id } => {
                self.started.retain(|c| c != id);
                EngineResponse::Slept
            }
        }
    }
}

fn run(client: &mut Http, engine: &mut Engine, image: RunnableImage) -> Result<ContainerAsync, RunError> {
    let (mut launch, mut next) = client.run(image);
    loop {
        match next {
            Next::Perform { request } => {
                let response = engine.perform(&launch, &request);
                engine.performed.push(request);
                let out = launch.step(client, response);
                launch = out.0;
                next = out.1;
            }
            Next::Ready => return Ok(launch.finish().unwrap()),
            Next::Failed { error } => {
                assert!(launch.finish().is_none());
                return Err(error);
            }
        }
    }
}

fn drop_client(client: &mut Http, engine: &mut Engine) {
    let launch = Http::new(Command::Keep).run(RunnableImage::new("x", "y")).0;
    for request in client.cleanup() {
        engine.perform(&launch, &request);
    }
}

fn network_exists(engine: &Engine, network: &str) -> bool {
    engine.networks.iter().any(|n| n == network)
}

#[test]
fn http_run_command_should_expose_all_ports_if_no_explicit_mapping_requested() {
    let mut docker = Http::new(Command::Remove);
    let mut engine = engine();
    let image = RunnableImage::new("hello-world", "latest");
    let container = run(&mut docker, &mut engine, image).unwrap();

    let details = &engine.containers.iter().find(|c| c.0 == container.id()).unwrap().1;
    let host = details.config.host_config.as_ref().unwrap();
    let publish_ports = host.publish_all_ports.unwrap();
    assert_eq!(publish_ports, true, "publish_all_ports must be `true`");
    assert_eq!(host.port_bindings, None);
}

#[test]
fn http_run_command_should_map_exposed_port() {
    let mut docker = Http::new(Command::Remove);
    let mut engine = engine();
    let image = RunnableImage::new("simple_web_server", "latest").with_exposed_port(5000);
    let container = run(&mut docker, &mut engine, image).unwrap();
    let report = engine.inspect(container.id());
    let port = container.get_host_port_ipv4(&report, 5000).unwrap();
    assert!(port > 0);
    assert_eq!(port, 32769);
    assert_eq!(container.get_host_port_ipv6(&report, 5000), Ok(32769));
    #[allow(deprecated)]
    let same = container.get_host_port(&report, 5000);
    assert_eq!(same, Ok(32769));
}

#[test]
fn http_run_command_should_expose_only_requested_ports() {
    let mut docker = Http::new(Command::Remove);
    let mut engine = engine();
    let image = RunnableImage::new("hello-world", "latest")
        .with_mapped_port((123, 456).into())
        .with_mapped_port((555, 888).into());
    let container = run(&mut docker, &mut engine, image).unwrap();

    let details = &engine.containers.iter().find(|c| c.0 == container.id()).unwrap().1;
    let host = details.config.host_config.as_ref().unwrap();
    let port_bindings = host.port_bindings.as_ref().unwrap();
    assert!(port_bindings.iter().any(|e| e.key == "456/tcp"));
    assert!(port_bindings.iter().any(|e| e.key == "888/tcp"));
    assert_eq!(port_bindings.len(), 2);
    assert_eq!(host.publish_all_ports, None);
    let first = port_bindings.iter().find(|e| e.key == "456/tcp").unwrap();
    assert_eq!(first.bindings.len(), 1);
    assert_eq!(first.bindings[0].host_ip.as_deref(), Some("127.0.0.1"));
    assert_eq!(first.bindings[0].host_port.as_deref(), Some("123"));
    let report = engine.inspect(container.id());
    assert_eq!(container.get_host_port_ipv4(&report, 456), Ok(123));
    assert_eq!(container.get_host_port_ipv4(&report, 888), Ok(555));
}

#[test]
fn http_run_command_should_include_network() {
    let mut docker = Http::new(Command::Remove);
    let mut engine = engine();
    let image = RunnableImage::new("hello-world", "latest").with_network("awesome-net-1");
    let container = run(&mut docker, &mut engine, image).unwrap();

    let details = &engine.containers.iter().find(|c| c.0 == container.id()).unwrap().1;
    let host = details.config.host_config.as_ref().unwrap();
    assert_eq!(host.network_mode.as_deref(), Some("awesome-net-1"));
    let report = engine.inspect(container.id());
    let networks = report.network_settings.unwrap().networks.unwrap();
    assert!(
        networks.iter().any(|n| n.network == "awesome-net-1"),
        "Networks is {networks:?}"
    );
}

#[test]
fn http_run_command_should_include_name() {
    let mut docker = Http::new(Command::Remove);
    let mut engine = engine();
    let image = RunnableImage::new("hello-world", "latest").with_container_name("hello_container");
    let container = run(&mut docker, &mut engine, image).unwrap();

    let details = &engine.containers.iter().find(|c| c.0 == container.id()).unwrap().1;
    let container_name = details.name.clone().unwrap();
    assert!(container_name.ends_with("hello_container"));
}

#[test]
fn http_should_create_network_if_image_needs_it_and_drop_it_in_the_end() {
    let mut engine = engine();
    let hello_world = RunnableImage::new("hello-world", "latest");

    {
        let mut docker = Http::new(Command::Remove);
        assert!(!network_exists(&engine, "awesome-net-2"));

        // creating the first container creates the network
        let _container1 =
            run(&mut docker, &mut engine, hello_world.clone().with_network("awesome-net-2"))
                .unwrap();

        // creating a 2nd container doesn't fail because check if the network exists already
        let _container2 =
            run(&mut docker, &mut engine, hello_world.with_network("awesome-net-2")).unwrap();

        assert!(network_exists(&engine, "awesome-net-2"));
        assert_eq!(docker.created_networks(), &vec!["awesome-net-2".to_string()]);
        let creations = engine
            .performed
            .iter()
            .filter(|r| matches!(r, EngineRequest::CreateNetwork { .. }))
            .count();
        assert_eq!(creations, 1);
        drop_client(&mut docker, &mut engine);
        assert!(docker.created_networks().is_empty());
    }

    // client has been dropped, should clean up networks
    assert!(!network_exists(&engine, "awesome-net-2"))
}

#[test]
fn http_run_command_should_set_shared_memory_size() {
    let mut docker = Http::new(Command::Remove);
    let mut engine = engine();
    let image = RunnableImage::new("hello-world", "latest").with_shm_size(1_000_000);
    let container = run(&mut docker, &mut engine, image).unwrap();

    let details = &engine.containers.iter().find(|c| c.0 == container.id()).unwrap().1;
    let shm_size = details.config.host_config.as_ref().unwrap().shm_size.unwrap();

    assert_eq!(shm_size, 1_000_000);
}

#[test]
fn networks_are_kept_under_keep_policy() {
    let mut engine = engine();
    let mut docker = Http::new(Command::Keep);
    let image = RunnableImage::new("hello-world", "latest").with_network("kept-net");
    let container = run(&mut docker, &mut engine, image).unwrap();
    assert_eq!(container.command(), Command::Keep);
    assert!(network_exists(&engine, "kept-net"));
    assert!(docker.cleanup().is_empty());
    assert_eq!(docker.created_networks(), &vec!["kept-net".to_string()]);
    assert!(network_exists(&engine, "kept-net"));
}

#[test]
fn cleanup_removes_every_created_network_once() {
    let mut engine = engine();
    let mut docker = Http::new(Command::Remove);
    for name in ["net-a", "net-b"] {
        let image = RunnableImage::new("hello-world", "latest").with_network(name);
        run(&mut docker, &mut engine, image).unwrap();
    }
    let requests = docker.cleanup();
    assert_eq!(
        requests,
        vec![
            EngineRequest::RemoveNetwork { name: "net-a".to_string() },
            EngineRequest::RemoveNetwork { name: "net-b".to_string() },
        ]
    );
    assert!(docker.cleanup().is_empty());
}

#[test]
fn existing_network_is_not_recorded() {
    let mut engine = engine();
    engine.networks.push("there".to_string());
    let mut docker = Http::new(Command::Remove);
    let image = RunnableImage::new("hello-world", "latest").with_network("there");
    run(&mut docker, &mut engine, image).unwrap();
    assert!(docker.created_networks().is_empty());
    assert!(docker.cleanup().is_empty());
    assert!(network_exists(&engine, "there"));
}

#[test]
fn launch_without_network_starts_with_create() {
    let docker = Http::new(Command::Remove);
    let (launch, next) = docker.run(RunnableImage::new("hello-world", "latest"));
    assert_eq!(next, Next::Perform { request: EngineRequest::CreateContainer });
    assert_eq!(launch.phase(), &Phase::Creating { retried: false });
    assert_eq!(docker.command(), Command::Remove);
}

#[test]
fn launch_with_network_starts_with_list() {
    let docker = Http::new(Command::Remove);
    let (launch, next) = docker.run(RunnableImage::new("hello-world", "latest").with_network("n"));
    assert_eq!(next, Next::Perform { request: EngineRequest::ListNetworks });
    assert_eq!(launch.phase(), &Phase::ListingNetworks { network: "n".to_string() });
    assert_eq!(launch.image().network(), &Some("n".to_string()));
}

#[test]
fn missing_image_is_pulled_and_create_retried_once() {
    let mut engine = engine();
    let mut docker = Http::new(Command::Remove);
    let container = run(&mut docker, &mut engine, RunnableImage::new("remote", "1")).unwrap();
    assert_eq!(container.id(), "container-0");
    assert_eq!(
        engine.performed,
        vec![
            EngineRequest::CreateContainer,
            EngineRequest::PullImage { descriptor: "remote:1".to_string() },
            EngineRequest::AwaitPull,
            EngineRequest::AwaitPull,
            EngineRequest::AwaitPull,
            EngineRequest::CreateContainer,
            EngineRequest::StartContainer { id: "container-0".to_string() },
        ]
    );
}

#[test]
fn second_missing_image_is_fatal() {
    let mut docker = Http::new(Command::Remove);
    let (launch, _) = docker.run(RunnableImage::new("hello-world", "latest"));
    let (launch, next) = launch.step(&mut docker, EngineResponse::Failed { status_code: Some(404) });
    assert_eq!(
        next,
        Next::Perform { request: EngineRequest::PullImage { descriptor: "hello-world:latest".to_string() } }
    );
    let (launch, next) = launch.step(&mut docker, EngineResponse::PullFinished);
    assert_eq!(next, Next::Perform { request: EngineRequest::CreateContainer });
    assert_eq!(launch.phase(), &Phase::Creating { retried: true });
    let (launch, next) = launch.step(&mut docker, EngineResponse::Failed { status_code: Some(404) });
    assert_eq!(next, Next::Failed { error: RunError::CreateContainer });
    assert_eq!(launch.phase(), &Phase::Failed { error: RunError::CreateContainer });
    let (launch, next) = launch.step(&mut docker, EngineResponse::ContainerStarted);
    assert_eq!(next, Next::Failed { error: RunError::CreateContainer });
    assert!(launch.finish().is_none());
}

#[test]
fn other_create_error_is_fatal_without_pull() {
    let mut docker = Http::new(Command::Remove);
    for status_code in [Some(500), Some(409), None] {
        let (launch, _) = docker.run(RunnableImage::new("hello-world", "latest"));
        let (_, next) = launch.step(&mut docker, EngineResponse::Failed { status_code });
        assert_eq!(next, Next::Failed { error: RunError::CreateContainer });
    }
}

#[test]
fn pull_error_is_fatal() {
    let mut engine = engine();
    let mut docker = Http::new(Command::Remove);
    let out = run(&mut docker, &mut engine, RunnableImage::new("nowhere", "0"));
    assert_eq!(out.unwrap_err(), RunError::PullImage);
    let (launch, _) = docker.run(RunnableImage::new("hello-world", "latest"));
    let (launch, _) = launch.step(&mut docker, EngineResponse::Failed { status_code: Some(404) });
    let (launch, next) = launch.step(&mut docker, EngineResponse::PullProgress);
    assert_eq!(next, Next::Perform { request: EngineRequest::AwaitPull });
    let (_, next) = launch.step(&mut docker, EngineResponse::Failed { status_code: None });
    assert_eq!(next, Next::Failed { error: RunError::PullImage });
}

#[test]
fn network_errors_are_fatal() {
    let mut docker = Http::new(Command::Remove);
    let image = RunnableImage::new("hello-world", "latest").with_network("n");
    let (launch, _) = docker.run(image.clone());
    let (_, next) = launch.step(&mut docker, EngineResponse::Failed { status_code: Some(500) });
    assert_eq!(next, Next::Failed { error: RunError::ListNetworks });

    let (launch, _) = docker.run(image);
    let (launch, next) = launch.step(&mut docker, EngineResponse::Networks { names: vec![None] });
    assert_eq!(next, Next::Perform { request: EngineRequest::CreateNetwork { name: "n".to_string() } });
    let (_, next) = launch.step(&mut docker, EngineResponse::Failed { status_code: Some(500) });
    assert_eq!(next, Next::Failed { error: RunError::CreateNetwork });
    assert!(docker.created_networks().is_empty());
}

#[test]
fn start_error_is_fatal() {
    let mut docker = Http::new(Command::Remove);
    let (launch, _) = docker.run(RunnableImage::new("hello-world", "latest"));
    let (launch, next) = launch.step(&mut docker, EngineResponse::ContainerCreated { id: "abc".to_string() });
    assert_eq!(next, Next::Perform { request: EngineRequest::StartContainer { id: "abc".to_string() } });
    let (_, next) = launch.step(&mut docker, EngineResponse::Failed { status_code: Some(500) });
    assert_eq!(next, Next::Failed { error: RunError::StartContainer });
}

#[test]
fn unexpected_response_is_fatal() {
    let mut docker = Http::new(Command::Remove);
    let (launch, _) = docker.run(RunnableImage::new("hello-world", "latest"));
    let (_, next) = launch.step(&mut docker, EngineResponse::Slept);
    assert_eq!(next, Next::Failed { error: RunError::UnexpectedResponse });
}

#[test]
fn ready_launch_stays_ready() {
    let mut docker = Http::new(Command::Keep);
    let (launch, _) = docker.run(RunnableImage::new("hello-world", "latest"));
    let (launch, _) = launch.step(&mut docker, EngineResponse::ContainerCreated { id: "abc".to_string() });
    let (launch, next) = launch.step(&mut docker, EngineResponse::ContainerStarted);
    assert_eq!(next, Next::Ready);
    let (launch, next) = launch.step(&mut docker, EngineResponse::Slept);
    assert_eq!(next, Next::Ready);
    let container = launch.finish().unwrap();
    assert_eq!(container.id(), "abc");
    assert_eq!(container.command(), Command::Keep);
    assert!(!container.is_released());
    assert_eq!(container.image().descriptor(), "hello-world:latest");
}

#[test]
fn wait_conditions_run_in_declared_order() {
    let mut engine = engine();
    engine.stdout.extend(["booting".to_string(), "server is ready to accept".to_string()]);
    engine.stderr.extend(["warn".to_string(), "listening".to_string()]);
    engine.health.extend([
        report_with_health(Some(HealthStatus::Starting)),
        report_with_health(Some(HealthStatus::Healthy)),
    ]);
    let mut docker = Http::new(Command::Remove);
    let image = RunnableImage::new("hello-world", "latest")
        .with_wait_for(WaitFor::Nothing)
        .with_wait_for(WaitFor::message_on_stdout("ready"))
        .with_wait_for(WaitFor::millis(250))
        .with_wait_for(WaitFor::Nothing)
        .with_wait_for(WaitFor::Healthcheck)
        .with_wait_for(WaitFor::message_on_stderr("listening"))
        .with_wait_for(WaitFor::Nothing);
    let container = run(&mut docker, &mut engine, image).unwrap();
    let id = container.id().to_string();
    assert_eq!(
        engine.performed,
        vec![
            EngineRequest::CreateContainer,
            EngineRequest::StartContainer { id: id.clone() },
            EngineRequest::FollowLogs { id: id.clone(), stream: LogStream::StdOut },
            EngineRequest::AwaitLogLine,
            EngineRequest::Sleep { millis: 250 },
            EngineRequest::Inspect { id: id.clone() },
            EngineRequest::Sleep { millis: 100 },
            EngineRequest::Inspect { id: id.clone() },
            EngineRequest::FollowLogs { id: id.clone(), stream: LogStream::StdErr },
            EngineRequest::AwaitLogLine,
        ]
    );
}

#[test]
fn healthcheck_wait_succeeds_after_two_backoff_cycles() {
    let mut engine = engine();
    engine.health.extend([
        report_with_health(Some(HealthStatus::Starting)),
        report_with_health(Some(HealthStatus::Starting)),
        report_with_health(Some(HealthStatus::Healthy)),
    ]);
    let mut docker = Http::new(Command::Remove);
    let image = RunnableImage::new("hello-world", "latest").with_wait_for(WaitFor::Healthcheck);
    run(&mut docker, &mut engine, image).unwrap();
    assert_eq!(engine.sleeps, vec![100, 100]);
}

#[test]
fn healthcheck_wait_fails_on_unhealthy() {
    let mut engine = engine();
    engine.health.extend([
        report_with_health(Some(HealthStatus::Starting)),
        report_with_health(Some(HealthStatus::Unhealthy)),
        report_with_health(Some(HealthStatus::Healthy)),
    ]);
    let mut docker = Http::new(Command::Remove);
    let image = RunnableImage::new("hello-world", "latest").with_wait_for(WaitFor::Healthcheck);
    assert_eq!(run(&mut docker, &mut engine, image).unwrap_err(), RunError::Unhealthy);
    assert_eq!(engine.sleeps, vec![100]);
}

#[test]
fn healthcheck_wait_fails_on_missing_health_info() {
    let cases = [
        (ContainerInspect { state: None, network_settings: None }, RunError::StateUnavailable),
        (
            ContainerInspect { state: Some(ContainerState { health: None }), network_settings: None },
            RunError::HealthUnavailable,
        ),
        (report_with_health(None), RunError::HealthcheckNotConfigured),
        (report_with_health(Some(HealthStatus::Empty)), RunError::HealthcheckNotConfigured),
        (report_with_health(Some(HealthStatus::Unchecked)), RunError::HealthcheckNotConfigured),
    ];
    for (report, error) in cases {
        let mut engine = engine();
        engine.health.extend([report_with_health(Some(HealthStatus::Starting)), report]);
        let mut docker = Http::new(Command::Remove);
        let image = RunnableImage::new("hello-world", "latest").with_wait_for(WaitFor::Healthcheck);
        assert_eq!(run(&mut docker, &mut engine, image).unwrap_err(), error);
    }
}

#[test]
fn log_wait_fails_when_stream_ends() {
    let mut engine = engine();
    engine.stdout.extend(["one".to_string(), "two".to_string()]);
    let mut docker = Http::new(Command::Remove);
    let image =
        RunnableImage::new("hello-world", "latest").with_wait_for(WaitFor::message_on_stdout("three"));
    assert_eq!(run(&mut docker, &mut engine, image).unwrap_err(), RunError::LogsEnded);
}

#[test]
fn log_wait_reads_the_declared_stream_only() {
    let mut engine = engine();
    engine.stdout.extend(["ready".to_string()]);
    let mut docker = Http::new(Command::Remove);
    let image =
        RunnableImage::new("hello-world", "latest").with_wait_for(WaitFor::message_on_stderr("ready"));
    assert_eq!(run(&mut docker, &mut engine, image).unwrap_err(), RunError::LogsEnded);
}

#[test]
fn create_request_is_the_same_on_every_attempt() {
    let docker = Http::new(Command::Remove);
    let image = RunnableImage::new("hello-world", "latest")
        .with_env_var("A", "1")
        .with_exposed_port(80)
        .with_mapped_port(PortMapping::fixed(8080, 80));
    let (launch, _) = docker.run(image);
    assert_eq!(launch.request(), launch.request());
}
