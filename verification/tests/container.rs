use testcontainers::{
    network_exists, Command, ContainerAsync, EngineRequest, EngineResponse, Http, RunnableImage,
};

fn handle(command: Command) -> ContainerAsync {
    let mut client = Http::new(command);
    let (launch, _) = client.run(RunnableImage::new("hello-world", "latest"));
    let (launch, _) =
        launch.step(&mut client, EngineResponse::ContainerCreated { id: "abc".to_string() });
    let (launch, _) = launch.step(&mut client, EngineResponse::ContainerStarted);
    launch.finish().unwrap()
}

fn removal() -> EngineRequest {
    EngineRequest::RemoveContainer { id: "abc".to_string(), force: true, remove_volumes: true }
}

#[test]
fn handle_passes_start_stop_and_remove_on() {
    let container = handle(Command::Keep);
    assert_eq!(container.id(), "abc");
    assert_eq!(container.start(), EngineRequest::StartContainer { id: "abc".to_string() });
    assert_eq!(container.stop(), EngineRequest::StopContainer { id: "abc".to_string() });
    assert_eq!(container.rm(), removal());
}

#[test]
fn teardown_removes_once_under_remove() {
    let mut container = handle(Command::Remove);
    assert!(!container.is_released());
    assert_eq!(container.teardown(), Some(removal()));
    assert!(container.is_released());
    assert_eq!(container.teardown(), None);
    assert_eq!(container.teardown(), None);
    assert!(container.is_released());
}

#[test]
fn teardown_leaves_the_container_under_keep() {
    let mut container = handle(Command::Keep);
    assert_eq!(container.teardown(), None);
    assert!(container.is_released());
    assert_eq!(container.teardown(), None);
}

#[test]
fn network_exists_matches_the_exact_name() {
    let names = vec![
        Some("bridge".to_string()),
        None,
        Some("awesome-net-22".to_string()),
        Some("Awesome-net-2".to_string()),
    ];
    assert!(network_exists(&names, &"bridge".to_string()));
    assert!(network_exists(&names, &"awesome-net-22".to_string()));
    assert!(!network_exists(&names, &"awesome-net-2".to_string()));
    assert!(!network_exists(&names, &"".to_string()));
    assert!(!network_exists(&vec![], &"bridge".to_string()));
}
