//! Lifecycle core for short-lived test containers, written without any I/O.
//!
//! The crate decides *what* has to be asked of a container engine and *how*
//! its answers are to be read; a driver outside of it performs the calls.

pub mod address;
pub mod client;
pub mod container;
pub mod engine;
pub mod image;
pub mod inspect;
pub mod request;
pub mod text;
pub mod wait;

pub use address::{parse_ip, IpAddress};
pub use client::{network_exists, Http, Launch, Next, Phase};
pub use container::{ContainerAsync, PortNotExposed};
pub use engine::{log_options, EngineRequest, EngineResponse, LogOptions, RunError};
pub use image::{Command, LogStream, PortMapping, RunnableImage, WaitFor};
pub use inspect::{
    BridgeError, ContainerInspect, ContainerState, Endpoint, Health, HealthStatus, IpFamily,
    LiveBinding, LivePort, NetworkSettings,
};
pub use request::{
    create_request, ContainerConfig, CreateRequest, HostBinding, HostConfig, PortBindingEntry,
};
pub use wait::{WaitStage, WaitStep};
