//! The exchange with the container engine: what a driver is asked to do, and
//! what it hands back.

use crate::image::LogStream;
use crate::inspect::{ContainerInspect, InspectView};
use crate::text::opt_text;
use vstd::prelude::*;

verus! {

/// One call that the driver makes to the engine, or one step that it takes
/// on a stream that such a call opened.
#[derive(Debug, PartialEq, Eq)]
pub enum EngineRequest {
    /// List the networks that exist.
    ListNetworks,
    /// Create the network `name`.
    CreateNetwork { name: String },
    /// Create the container from the create request of the launch.
    CreateContainer,
    /// Start pulling the image `descriptor`, and read the first event of the
    /// pull.
    PullImage { descriptor: String },
    /// Read the next event of the pull under way.
    AwaitPull,
    /// Start the container `id`.
    StartContainer { id: String },
    /// Stop the container `id`.
    StopContainer { id: String },
    /// Remove the container `id`.
    RemoveContainer { id: String, force: bool, remove_volumes: bool },
    /// Remove the network `name`.
    RemoveNetwork { name: String },
    /// Open `stream` of the container `id`, from its first line and
    /// following it as it grows, and read the first line.
    FollowLogs { id: String, stream: LogStream },
    /// Read the next line of the stream that is open.
    AwaitLogLine,
    /// Let `millis` milliseconds pass.
    Sleep { millis: u64 },
    /// Inspect the container `id`.
    Inspect { id: String },
}

pub enum RequestView {
    ListNetworks,
    CreateNetwork { name: Seq<char> },
    CreateContainer,
    PullImage { descriptor: Seq<char> },
    AwaitPull,
    StartContainer { id: Seq<char> },
    StopContainer { id: Seq<char> },
    RemoveContainer { id: Seq<char>, force: bool, remove_volumes: bool },
    RemoveNetwork { name: Seq<char> },
    FollowLogs { id: Seq<char>, stream: LogStream },
    AwaitLogLine,
    Sleep { millis: u64 },
    Inspect { id: Seq<char> },
}

impl View for EngineRequest {
    type V = RequestView;

    open spec fn view(&self) -> RequestView {
        match self {
            EngineRequest::ListNetworks => RequestView::ListNetworks,
            EngineRequest::CreateNetwork { name } => RequestView::CreateNetwork { name: name@ },
            EngineRequest::CreateContainer => RequestView::CreateContainer,
            EngineRequest::PullImage { descriptor } => RequestView::PullImage {
                descriptor: descriptor@,
            },
            EngineRequest::AwaitPull => RequestView::AwaitPull,
            EngineRequest::StartContainer { id } => RequestView::StartContainer { id: id@ },
            EngineRequest::StopContainer { id } => RequestView::StopContainer { id: id@ },
            EngineRequest::RemoveContainer { id, force, remove_volumes } => {
                RequestView::RemoveContainer {
                    id: id@,
                    force: *force,
                    remove_volumes: *remove_volumes,
                }
            },
            EngineRequest::RemoveNetwork { name } => RequestView::RemoveNetwork { name: name@ },
            EngineRequest::FollowLogs { id, stream } => RequestView::FollowLogs {
                id: id@,
                stream: *stream,
            },
            EngineRequest::AwaitLogLine => RequestView::AwaitLogLine,
            EngineRequest::Sleep { millis } => RequestView::Sleep { millis: *millis },
            EngineRequest::Inspect { id } => RequestView::Inspect { id: id@ },
        }
    }
}

/// The views of a list of requests.
pub open spec fn request_views(v: Seq<EngineRequest>) -> Seq<RequestView> {
    Seq::new(v.len(), |i: int| v[i]@)
}

/// What came of the request made last.
#[derive(Debug, PartialEq, Eq)]
pub enum EngineResponse {
    /// The networks that exist, each by its name where it has one.
    Networks { names: Vec<Option<String>> },
    /// The network was created.
    NetworkCreated,
    /// The container was created, under the identity `id`.
    ContainerCreated { id: String },
    /// The pull reported progress.
    PullProgress,
    /// The pull came to its end.
    PullFinished,
    /// The container was started.
    ContainerStarted,
    /// The stream had the line `line`.
    LogLine { line: String },
    /// The stream came to its end.
    LogsEnded,
    /// The time has passed.
    Slept,
    /// The report on the container.
    Inspected { report: ContainerInspect },
    /// The request failed; `status_code` is the status that the engine
    /// answered with, where it answered.
    Failed { status_code: Option<u16> },
}

pub enum ResponseView {
    Networks { names: Seq<Option<Seq<char>>> },
    NetworkCreated,
    ContainerCreated { id: Seq<char> },
    PullProgress,
    PullFinished,
    ContainerStarted,
    LogLine { line: Seq<char> },
    LogsEnded,
    Slept,
    Inspected { report: InspectView },
    Failed { status_code: Option<u16> },
}

/// The views of a list of names.
pub open spec fn name_views(v: Seq<Option<String>>) -> Seq<Option<Seq<char>>> {
    Seq::new(v.len(), |i: int| opt_text(v[i]))
}

impl View for EngineResponse {
    type V = ResponseView;

    open spec fn view(&self) -> ResponseView {
        match self {
            EngineResponse::Networks { names } => ResponseView::Networks {
                names: name_views(names@),
            },
            EngineResponse::NetworkCreated => ResponseView::NetworkCreated,
            EngineResponse::ContainerCreated { id } => ResponseView::ContainerCreated { id: id@ },
            EngineResponse::PullProgress => ResponseView::PullProgress,
            EngineResponse::PullFinished => ResponseView::PullFinished,
            EngineResponse::ContainerStarted => ResponseView::ContainerStarted,
            EngineResponse::LogLine { line } => ResponseView::LogLine { line: line@ },
            EngineResponse::LogsEnded => ResponseView::LogsEnded,
            EngineResponse::Slept => ResponseView::Slept,
            EngineResponse::Inspected { report } => ResponseView::Inspected { report: report@ },
            EngineResponse::Failed { status_code } => ResponseView::Failed {
                status_code: *status_code,
            },
        }
    }
}

/// Why a launch was given up.
#[derive(Clone, Copy, Debug, PartialEq, Eq, Structural)]
pub enum RunError {
    /// The networks could not be listed.
    ListNetworks,
    /// The network could not be created.
    CreateNetwork,
    /// The container could not be created.
    CreateContainer,
    /// The image could not be pulled.
    PullImage,
    /// The container could not be started.
    StartContainer,
    /// The log stream failed.
    Logs,
    /// The log stream ended before the awaited line came.
    LogsEnded,
    /// The container could not be inspected.
    Inspect,
    /// The report holds no container state.
    StateUnavailable,
    /// The container state holds no health.
    HealthUnavailable,
    /// The container has no health check.
    HealthcheckNotConfigured,
    /// The health check reports unhealthy.
    Unhealthy,
    /// The response does not answer the request that was made.
    UnexpectedResponse,
}

/// How a log stream is opened.
#[derive(Debug, PartialEq, Eq)]
pub struct LogOptions {
    pub follow: bool,
    pub stdout: bool,
    pub stderr: bool,
    pub tail: String,
}

/// The tail setting that asks for every line from the first.
pub open spec fn tail_all() -> Seq<char> {
    seq!['a', 'l', 'l']
}

/// The options under which `stream` is opened: that stream alone, all of it,
/// and followed as it grows.
pub fn log_options(stream: LogStream) -> (options: LogOptions)
    ensures
        options.follow,
        options.stdout == (stream == LogStream::StdOut),
        options.stderr == (stream == LogStream::StdErr),
        options.tail@ == tail_all(),
{
    proof {
        reveal_strlit("all");
        assert("all"@ =~= tail_all());
    }
    match stream {
        LogStream::StdOut => LogOptions {
            follow: true,
            stdout: true,
            stderr: false,
            tail: String::from_str("all"),
        },
        LogStream::StdErr => LogOptions {
            follow: true,
            stdout: false,
            stderr: true,
            tail: String::from_str("all"),
        },
    }
}

} // verus!
