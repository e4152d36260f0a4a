//! The client: it launches containers step by step, records the networks it
//! had created, and clears them away in the end.

use crate::container::{ContainerAsync, ContainerView};
use crate::engine::{
    name_views, request_views, EngineRequest, EngineResponse, RequestView, ResponseView, RunError,
};
use crate::image::{Command, ImageView, RunnableImage, WaitView};
use crate::request::{create_request, describes, CreateRequest};
use crate::text::{copy_text, texts};
use crate::wait::{opening, reaction, wait_run, WaitEnd, WaitStage, WaitStep, WaitStepView};
use vstd::prelude::*;

verus! {

/// The status with which the engine answers when it lacks the image.
pub const IMAGE_MISSING: u16 = 404;

/// A client of the container engine. One client stands for one connection;
/// the networks that its launches had created are recorded with it.
#[derive(Debug)]
pub struct Http {
    command: Command,
    created_networks: Vec<String>,
}

/// A client as a mathematical value.
pub struct ClientView {
    pub command: Command,
    pub created_networks: Seq<Seq<char>>,
}

impl View for Http {
    type V = ClientView;

    closed spec fn view(&self) -> ClientView {
        ClientView { command: self.command, created_networks: texts(self.created_networks@) }
    }
}

/// Where a launch stands.
#[derive(Debug, PartialEq, Eq)]
pub enum Phase {
    /// The list of networks is awaited, to see whether `network` exists.
    ListingNetworks { network: String },
    /// The creation of `network` is awaited.
    CreatingNetwork { network: String },
    /// The creation of the container is awaited; `retried` tells whether the
    /// image was pulled for it.
    Creating { retried: bool },
    /// The pull of the image is under way.
    Pulling,
    /// The start of the container is awaited.
    Starting { id: String },
    /// The container runs, and the wait condition at `index` is being
    /// awaited.
    Waiting { id: String, index: usize, stage: WaitStage },
    /// The container is ready.
    Ready { id: String },
    /// The launch was given up.
    Failed { error: RunError },
}

pub enum PhaseView {
    ListingNetworks { network: Seq<char> },
    CreatingNetwork { network: Seq<char> },
    Creating { retried: bool },
    Pulling,
    Starting { id: Seq<char> },
    Waiting { id: Seq<char>, index: int, stage: WaitStage },
    Ready { id: Seq<char> },
    Failed { error: RunError },
}

impl View for Phase {
    type V = PhaseView;

    open spec fn view(&self) -> PhaseView {
        match self {
            Phase::ListingNetworks { network } => PhaseView::ListingNetworks { network: network@ },
            Phase::CreatingNetwork { network } => PhaseView::CreatingNetwork { network: network@ },
            Phase::Creating { retried } => PhaseView::Creating { retried: *retried },
            Phase::Pulling => PhaseView::Pulling,
            Phase::Starting { id } => PhaseView::Starting { id: id@ },
            Phase::Waiting { id, index, stage } => PhaseView::Waiting {
                id: id@,
                index: *index as int,
                stage: *stage,
            },
            Phase::Ready { id } => PhaseView::Ready { id: id@ },
            Phase::Failed { error } => PhaseView::Failed { error: *error },
        }
    }
}

/// The launch of one container: the image, what is done with the container
/// when it is let go of, and where the launch stands.
#[derive(Debug)]
pub struct Launch {
    image: RunnableImage,
    command: Command,
    phase: Phase,
}

/// A launch as a mathematical value.
pub struct LaunchView {
    pub image: ImageView,
    pub command: Command,
    pub phase: PhaseView,
}

impl View for Launch {
    type V = LaunchView;

    closed spec fn view(&self) -> LaunchView {
        LaunchView { image: self.image@, command: self.command, phase: self.phase@ }
    }
}

/// What the driver of a launch does next.
#[derive(Debug, PartialEq, Eq)]
pub enum Next {
    /// Make `request`, and hand its response to the launch.
    Perform { request: EngineRequest },
    /// Nothing: the container is ready, and the launch can be finished.
    Ready,
    /// Nothing: the launch was given up.
    Failed { error: RunError },
}

pub enum NextView {
    Perform { request: RequestView },
    Ready,
    Failed { error: RunError },
}

impl View for Next {
    type V = NextView;

    open spec fn view(&self) -> NextView {
        match self {
            Next::Perform { request } => NextView::Perform { request: request@ },
            Next::Ready => NextView::Ready,
            Next::Failed { error } => NextView::Failed { error: *error },
        }
    }
}

/// A network of the name `network` is among `names`.
pub open spec fn listed(names: Seq<Option<Seq<char>>>, network: Seq<char>) -> bool {
    exists|i: int| 0 <= i < names.len() && #[trigger] names[i] == Some(network)
}

/// How a launch of `image` begins: with a look at the networks where the
/// image chose one, else with the creation of the container.
pub open spec fn launch_start(image: ImageView, command: Command) -> (LaunchView, NextView) {
    match image.network {
        Some(network) => (
            LaunchView { image, command, phase: PhaseView::ListingNetworks { network } },
            NextView::Perform { request: RequestView::ListNetworks },
        ),
        None => (
            LaunchView { image, command, phase: PhaseView::Creating { retried: false } },
            NextView::Perform { request: RequestView::CreateContainer },
        ),
    }
}

/// The launch given up for `error`.
pub open spec fn give_up(launch: LaunchView, error: RunError) -> (LaunchView, NextView) {
    (LaunchView { phase: PhaseView::Failed { error }, ..launch }, NextView::Failed { error })
}

/// The launch on its way to create the container.
pub open spec fn go_create(launch: LaunchView, retried: bool) -> (LaunchView, NextView) {
    (
        LaunchView { phase: PhaseView::Creating { retried }, ..launch },
        NextView::Perform { request: RequestView::CreateContainer },
    )
}

/// The place of the first condition at or after `from` that asks for a wait,
/// or the number of conditions where there is none.
pub open spec fn next_blocking(conditions: Seq<WaitView>, from: int) -> int
    decreases conditions.len() - from,
{
    if from < 0 || from >= conditions.len() {
        conditions.len() as int
    } else if conditions[from] != WaitView::Nothing {
        from
    } else {
        next_blocking(conditions, from + 1)
    }
}

/// The launch of the running container `id`, with the conditions before
/// `from` met: it turns to the next condition that asks for a wait, and is
/// ready where none is left.
pub open spec fn await_from(launch: LaunchView, id: Seq<char>, from: int) -> (
    LaunchView,
    NextView,
) {
    let conditions = launch.image.ready_conditions;
    let index = next_blocking(conditions, from);
    if index >= conditions.len() {
        (LaunchView { phase: PhaseView::Ready { id }, ..launch }, NextView::Ready)
    } else {
        match opening(conditions[index], id) {
            WaitStepView::Pending { stage, request } => (
                LaunchView { phase: PhaseView::Waiting { id, index, stage }, ..launch },
                NextView::Perform { request },
            ),
            _ => give_up(launch, RunError::UnexpectedResponse),
        }
    }
}

/// The handle that a launch ends in, once the container is ready.
pub open spec fn finished(launch: LaunchView) -> Option<ContainerView> {
    match launch.phase {
        PhaseView::Ready { id } => Some(
            ContainerView { id, image: launch.image, command: launch.command, released: false },
        ),
        _ => None,
    }
}

/// What clearing away does: under the policy to remove, every recorded
/// network is removed, in the order in which they were recorded, and the
/// record is emptied; under the policy to keep, nothing is done.
pub open spec fn cleanup_of(client: ClientView) -> (ClientView, Seq<RequestView>) {
    match client.command {
        Command::Remove => (
            ClientView { created_networks: Seq::empty(), ..client },
            Seq::new(
                client.created_networks.len(),
                |i: int| RequestView::RemoveNetwork { name: client.created_networks[i] },
            ),
        ),
        Command::Keep => (client, Seq::empty()),
    }
}

/// One step of a launch: where it stands and what is done next, once
/// `response` has come in, and what the client has recorded by then.
pub open spec fn launch_step(launch: LaunchView, client: ClientView, response: ResponseView) -> (
    LaunchView,
    ClientView,
    NextView,
) {
    let unexpected = give_up(launch, RunError::UnexpectedResponse);
    match launch.phase {
        PhaseView::ListingNetworks { network } => match response {
            ResponseView::Networks { names } => if listed(names, network) {
                let to = go_create(launch, false);
                (to.0, client, to.1)
            } else {
                (
                    LaunchView { phase: PhaseView::CreatingNetwork { network }, ..launch },
                    client,
                    NextView::Perform { request: RequestView::CreateNetwork { name: network } },
                )
            },
            ResponseView::Failed { status_code } => {
                let to = give_up(launch, RunError::ListNetworks);
                (to.0, client, to.1)
            },
            _ => (unexpected.0, client, unexpected.1),
        },
        PhaseView::CreatingNetwork { network } => match response {
            ResponseView::NetworkCreated => {
                let to = go_create(launch, false);
                (
                    to.0,
                    ClientView {
                        created_networks: client.created_networks.push(network),
                        ..client
                    },
                    to.1,
                )
            },
            ResponseView::Failed { status_code } => {
                let to = give_up(launch, RunError::CreateNetwork);
                (to.0, client, to.1)
            },
            _ => (unexpected.0, client, unexpected.1),
        },
        PhaseView::Creating { retried } => match response {
            ResponseView::ContainerCreated { id } => (
                LaunchView { phase: PhaseView::Starting { id }, ..launch },
                client,
                NextView::Perform { request: RequestView::StartContainer { id } },
            ),
            ResponseView::Failed { status_code } => if status_code == Some(IMAGE_MISSING)
                && !retried {
                (
                    LaunchView { phase: PhaseView::Pulling, ..launch },
                    client,
                    NextView::Perform {
                        request: RequestView::PullImage { descriptor: launch.image.descriptor },
                    },
                )
            } else {
                let to = give_up(launch, RunError::CreateContainer);
                (to.0, client, to.1)
            },
            _ => (unexpected.0, client, unexpected.1),
        },
        PhaseView::Pulling => match response {
            ResponseView::PullProgress => (
                launch,
                client,
                NextView::Perform { request: RequestView::AwaitPull },
            ),
            ResponseView::PullFinished => {
                let to = go_create(launch, true);
                (to.0, client, to.1)
            },
            ResponseView::Failed { status_code } => {
                let to = give_up(launch, RunError::PullImage);
                (to.0, client, to.1)
            },
            _ => (unexpected.0, client, unexpected.1),
        },
        PhaseView::Starting { id } => match response {
            ResponseView::ContainerStarted => {
                let to = await_from(launch, id, 0);
                (to.0, client, to.1)
            },
            ResponseView::Failed { status_code } => {
                let to = give_up(launch, RunError::StartContainer);
                (to.0, client, to.1)
            },
            _ => (unexpected.0, client, unexpected.1),
        },
        PhaseView::Waiting { id, index, stage } => if 0 <= index
            < launch.image.ready_conditions.len() {
            match reaction(launch.image.ready_conditions[index], stage, id, response) {
                WaitStepView::Met => {
                    let to = await_from(launch, id, index + 1);
                    (to.0, client, to.1)
                },
                WaitStepView::Pending { stage: next, request } => (
                    LaunchView { phase: PhaseView::Waiting { id, index, stage: next }, ..launch },
                    client,
                    NextView::Perform { request },
                ),
                WaitStepView::Failed { error } => {
                    let to = give_up(launch, error);
                    (to.0, client, to.1)
                },
            }
        } else {
            (unexpected.0, client, unexpected.1)
        },
        PhaseView::Ready { id } => (launch, client, NextView::Ready),
        PhaseView::Failed { error } => (launch, client, NextView::Failed { error }),
    }
}

/// Whether a network of the name `network` is among `names`.
pub fn network_exists(names: &Vec<Option<String>>, network: &String) -> (found: bool)
    ensures
        found == listed(name_views(names@), network@),
{
    let mut i: usize = 0;
    while i < names.len()
        invariant
            i <= names.len(),
            forall|j: int| 0 <= j < i ==> #[trigger] name_views(names@)[j] != Some(network@),
        decreases names.len() - i,
    {
        match &names[i] {
            Some(name) => {
                if *name == *network {
                    assert(name_views(names@)[i as int] == Some(network@));
                    return true;
                }
            },
            None => {},
        }
        i = i + 1;
    }
    false
}

/// The launch given up for `error`.
fn failed(image: RunnableImage, command: Command, error: RunError) -> (out: (Launch, Next))
    ensures
        out.0@ == (LaunchView { image: image@, command, phase: PhaseView::Failed { error } }),
        out.1@ == (NextView::Failed { error }),
{
    (Launch { image, command, phase: Phase::Failed { error } }, Next::Failed { error })
}

/// The launch on its way to create the container.
fn creating(image: RunnableImage, command: Command, retried: bool) -> (out: (Launch, Next))
    ensures
        out.0@ == (LaunchView { image: image@, command, phase: PhaseView::Creating { retried } }),
        out.1@ == (NextView::Perform { request: RequestView::CreateContainer }),
{
    (
        Launch { image, command, phase: Phase::Creating { retried } },
        Next::Perform { request: EngineRequest::CreateContainer },
    )
}

/// The launch of the running container `id`, with the conditions before
/// `from` met.
fn awaiting(image: RunnableImage, command: Command, id: String, from: usize) -> (out: (
    Launch,
    Next,
))
    requires
        from <= image@.ready_conditions.len(),
    ensures
        forall|launch: LaunchView|
            launch.image == image@ && launch.command == command ==> (out.0@, out.1@)
                == #[trigger] await_from(launch, id@, from as int),
{
    let ghost conditions = image@.ready_conditions;
    let mut index: usize = from;
    while index < image.ready_conditions().len()
        invariant
            from <= index <= conditions.len(),
            conditions == image@.ready_conditions,
            next_blocking(conditions, from as int) == next_blocking(conditions, index as int),
        decreases conditions.len() - index,
    {
        let step = image.ready_conditions()[index].begin(&id);
        assert(step@ == opening(conditions[index as int], id@));
        match step {
            WaitStep::Pending { stage, request } => {
                assert(conditions[index as int] != WaitView::Nothing);
                return (
                    Launch { image, command, phase: Phase::Waiting { id, index, stage } },
                    Next::Perform { request },
                );
            },
            WaitStep::Met => {
                assert(conditions[index as int] == WaitView::Nothing);
            },
            WaitStep::Failed { error } => {
                return failed(image, command, error);
            },
        }
        index = index + 1;
    }
    (Launch { image, command, phase: Phase::Ready { id } }, Next::Ready)
}

impl Launch {
    /// The image that is being launched.
    pub fn image(&self) -> (image: &RunnableImage)
        ensures
            image@ == self@.image,
    {
        &self.image
    }

    /// Where the launch stands.
    pub fn phase(&self) -> (phase: &Phase)
        ensures
            phase@ == self@.phase,
    {
        &self.phase
    }

    /// The create request of this launch.
    pub fn request(&self) -> (request: CreateRequest)
        ensures
            describes(request@, self@.image),
    {
        create_request(&self.image)
    }

    /// Takes the response to the request made last, and says what is done
    /// next. A network that the launch had created is recorded with `client`.
    pub fn step(self, client: &mut Http, response: EngineResponse) -> (out: (Launch, Next))
        ensures
            (out.0@, final(client)@, out.1@) == launch_step(self@, old(client)@, response@),
    {
        let ghost before = self@;
        let Launch { image, command, phase } = self;
        match phase {
            Phase::ListingNetworks { network } => match response {
                EngineResponse::Networks { names } => {
                    if network_exists(&names, &network) {
                        creating(image, command, false)
                    } else {
                        let name = copy_text(&network);
                        (
                            Launch { image, command, phase: Phase::CreatingNetwork { network } },
                            Next::Perform { request: EngineRequest::CreateNetwork { name } },
                        )
                    }
                },
                EngineResponse::Failed { status_code } => failed(
                    image,
                    command,
                    RunError::ListNetworks,
                ),
                _ => failed(image, command, RunError::UnexpectedResponse),
            },
            Phase::CreatingNetwork { network } => match response {
                EngineResponse::NetworkCreated => {
                    client.created_networks.push(network);
                    assert(final(client)@.created_networks =~= old(
                        client,
                    )@.created_networks.push(network@));
                    creating(image, command, false)
                },
                EngineResponse::Failed { status_code } => failed(
                    image,
                    command,
                    RunError::CreateNetwork,
                ),
                _ => failed(image, command, RunError::UnexpectedResponse),
            },
            Phase::Creating { retried } => match response {
                EngineResponse::ContainerCreated { id } => {
                    let started = copy_text(&id);
                    (
                        Launch { image, command, phase: Phase::Starting { id } },
                        Next::Perform { request: EngineRequest::StartContainer { id: started } },
                    )
                },
                EngineResponse::Failed { status_code } => {
                    let missing = match status_code {
                        Some(code) => code == IMAGE_MISSING,
                        None => false,
                    };
                    if missing && !retried {
                        let descriptor = copy_text(image.descriptor());
                        (
                            Launch { image, command, phase: Phase::Pulling },
                            Next::Perform { request: EngineRequest::PullImage { descriptor } },
                        )
                    } else {
                        failed(image, command, RunError::CreateContainer)
                    }
                },
                _ => failed(image, command, RunError::UnexpectedResponse),
            },
            Phase::Pulling => match response {
                EngineResponse::PullProgress => (
                    Launch { image, command, phase: Phase::Pulling },
                    Next::Perform { request: EngineRequest::AwaitPull },
                ),
                EngineResponse::PullFinished => creating(image, command, true),
                EngineResponse::Failed { status_code } => failed(
                    image,
                    command,
                    RunError::PullImage,
                ),
                _ => failed(image, command, RunError::UnexpectedResponse),
            },
            Phase::Starting { id } => match response {
                EngineResponse::ContainerStarted => {
                    let out = awaiting(image, command, id, 0);
                    assert((out.0@, out.1@) == await_from(before, id@, 0));
                    out
                },
                EngineResponse::Failed { status_code } => failed(
                    image,
                    command,
                    RunError::StartContainer,
                ),
                _ => failed(image, command, RunError::UnexpectedResponse),
            },
            Phase::Waiting { id, index, stage } => {
                let conditions = image.ready_conditions();
                let step = if index < conditions.len() {
                    Some(conditions[index].react(stage, &id, &response))
                } else {
                    None
                };
                match step {
                    Some(WaitStep::Met) => {
                        let out = awaiting(image, command, id, index + 1);
                        assert((out.0@, out.1@) == await_from(before, id@, index + 1));
                        out
                    },
                    Some(WaitStep::Pending { stage: next, request }) => (
                        Launch { image, command, phase: Phase::Waiting { id, index, stage: next } },
                        Next::Perform { request },
                    ),
                    Some(WaitStep::Failed { error }) => failed(image, command, error),
                    None => failed(image, command, RunError::UnexpectedResponse),
                }
            },
            Phase::Ready { id } => (
                Launch { image, command, phase: Phase::Ready { id } },
                Next::Ready,
            ),
            Phase::Failed { error } => (
                Launch { image, command, phase: Phase::Failed { error } },
                Next::Failed { error },
            ),
        }
    }

    /// Ends the launch: hands out the handle on the container where the
    /// container is ready, and nothing where it is not.
    pub fn finish(self) -> (handle: Option<ContainerAsync>)
        ensures
            match handle {
                Some(h) => finished(self@) == Some(h@),
                None => finished(self@) is None,
            },
    {
        let Launch { image, command, phase } = self;
        match phase {
            Phase::Ready { id } => Some(ContainerAsync::new(id, image, command)),
            _ => None,
        }
    }
}

impl Http {
    /// A client that does `command` with what it is to let go of, and has
    /// created no network yet.
    pub fn new(command: Command) -> (client: Http)
        ensures
            client@ == (ClientView { command, created_networks: Seq::empty() }),
    {
        let client = Http { command, created_networks: Vec::new() };
        assert(client@.created_networks =~= Seq::empty());
        client
    }

    /// What this client does with what it is to let go of.
    pub fn command(&self) -> (command: Command)
        ensures
            command == self@.command,
    {
        self.command
    }

    /// The networks that launches of this client had created.
    pub fn created_networks(&self) -> (networks: &Vec<String>)
        ensures
            texts(networks@) == self@.created_networks,
    {
        &self.created_networks
    }

    /// Begins the launch of `image`, and says what is done first.
    pub fn run(&self, image: RunnableImage) -> (out: (Launch, Next))
        ensures
            (out.0@, out.1@) == launch_start(image@, self@.command),
    {
        let network = match image.network() {
            Some(network) => Some(copy_text(network)),
            None => None,
        };
        match network {
            Some(network) => (
                Launch {
                    image,
                    command: self.command,
                    phase: Phase::ListingNetworks { network },
                },
                Next::Perform { request: EngineRequest::ListNetworks },
            ),
            None => creating(image, self.command, false),
        }
    }

    /// Clears away what this client had created: hands out the requests that
    /// remove its networks, and forgets them, where networks are to be
    /// removed; does nothing where they are to be kept.
    pub fn cleanup(&mut self) -> (requests: Vec<EngineRequest>)
        ensures
            (final(self)@, request_views(requests@)) == cleanup_of(old(self)@),
    {
        let mut requests: Vec<EngineRequest> = Vec::new();
        match self.command {
            Command::Keep => {
                assert(request_views(requests@) =~= Seq::empty());
                requests
            },
            Command::Remove => {
                let mut i: usize = 0;
                while i < self.created_networks.len()
                    invariant
                        i <= self.created_networks.len(),
                        requests.len() == i,
                        forall|j: int|
                            0 <= j < i ==> (#[trigger] requests@[j])@ == (
                            RequestView::RemoveNetwork { name: self.created_networks@[j]@ }),
                    decreases self.created_networks.len() - i,
                {
                    requests.push(
                        EngineRequest::RemoveNetwork {
                            name: copy_text(&self.created_networks[i]),
                        },
                    );
                    i = i + 1;
                }
                assert(request_views(requests@) =~= cleanup_of(old(self)@).1);
                self.created_networks = Vec::new();
                assert(final(self)@.created_networks =~= Seq::empty());
                requests
            },
        }
    }
}

/// A launch fed with `responses` one after the other: where it stands in the
/// end, what the client has recorded by then, and what it said was next
/// after each response.
pub open spec fn launch_run(launch: LaunchView, client: ClientView, responses: Seq<ResponseView>) -> (
    LaunchView,
    ClientView,
    Seq<NextView>,
)
    decreases responses.len(),
{
    if responses.len() == 0 {
        (launch, client, Seq::empty())
    } else {
        let step = launch_step(launch, client, responses[0]);
        let rest = launch_run(step.0, step.1, responses.drop_first());
        (rest.0, rest.1, seq![step.2] + rest.2)
    }
}

/// How often `nexts` ask for the container to be created.
pub open spec fn creations(nexts: Seq<NextView>) -> nat
    decreases nexts.len(),
{
    if nexts.len() == 0 {
        0
    } else {
        let first: nat = if nexts[0] == (NextView::Perform {
            request: RequestView::CreateContainer,
        }) {
            1
        } else {
            0
        };
        first + creations(nexts.drop_first())
    }
}

/// How often a launch that stands at `phase` may still ask for the
/// container to be created.
pub open spec fn creations_left(phase: PhaseView) -> nat {
    match phase {
        PhaseView::ListingNetworks { network } => 2,
        PhaseView::CreatingNetwork { network } => 2,
        PhaseView::Creating { retried } => if retried {
            0
        } else {
            1
        },
        PhaseView::Pulling => 1,
        _ => 0,
    }
}

/// No wait asks for a container to be created.
proof fn lemma_waits_create_nothing(launch: LaunchView, id: Seq<char>, from: int)
    ensures
        await_from(launch, id, from).1 != (NextView::Perform {
            request: RequestView::CreateContainer,
        }),
        creations_left(await_from(launch, id, from).0.phase) == 0,
{
}

/// One step uses up what it asks for.
proof fn lemma_step_creates_within_budget(
    launch: LaunchView,
    client: ClientView,
    response: ResponseView,
)
    ensures
        creations(seq![launch_step(launch, client, response).2]) + creations_left(
            launch_step(launch, client, response).0.phase,
        ) <= creations_left(launch.phase),
{
    let step = launch_step(launch, client, response);
    let one = seq![step.2];
    assert(one.drop_first() =~= Seq::<NextView>::empty());
    assert(creations(one.drop_first()) == 0);
    match launch.phase {
        PhaseView::Starting { id } => {
            lemma_waits_create_nothing(launch, id, 0);
        },
        PhaseView::Waiting { id, index, stage } => {
            lemma_waits_create_nothing(launch, id, index + 1);
        },
        _ => {},
    }
}

/// The creations in a list of steps add up.
proof fn lemma_creations_add(first: NextView, rest: Seq<NextView>)
    ensures
        creations(seq![first] + rest) == creations(seq![first]) + creations(rest),
{
    let all = seq![first] + rest;
    let one = seq![first];
    assert(all.drop_first() =~= rest);
    assert(all[0] == first);
    assert(one[0] == first);
    assert(one.drop_first() =~= Seq::<NextView>::empty());
    assert(creations(one.drop_first()) == 0);
}

/// Whatever the engine answers, a launch asks for the container to be created
/// no more often than its phase leaves room for: twice before the first
/// attempt, once more after a first attempt and while the image is pulled,
/// and never again after the second attempt.
pub proof fn lemma_creates_within_budget(
    launch: LaunchView,
    client: ClientView,
    responses: Seq<ResponseView>,
)
    ensures
        creations(launch_run(launch, client, responses).2) <= creations_left(launch.phase),
    decreases responses.len(),
{
    if responses.len() > 0 {
        let step = launch_step(launch, client, responses[0]);
        let rest = launch_run(step.0, step.1, responses.drop_first());
        lemma_step_creates_within_budget(launch, client, responses[0]);
        lemma_creates_within_budget(step.0, step.1, responses.drop_first());
        lemma_creations_add(step.2, rest.2);
    }
}

/// From its beginning to its end, whatever the engine answers, a launch asks
/// for the container to be created at most twice.
pub proof fn lemma_launch_creates_at_most_twice(
    image: ImageView,
    command: Command,
    client: ClientView,
    responses: Seq<ResponseView>,
)
    ensures
        creations(
            seq![launch_start(image, command).1] + launch_run(
                launch_start(image, command).0,
                client,
                responses,
            ).2,
        ) <= 2,
{
    let start = launch_start(image, command);
    lemma_creates_within_budget(start.0, client, responses);
    lemma_creations_add(start.1, launch_run(start.0, client, responses).2);
    let one = seq![start.1];
    assert(one[0] == start.1);
    assert(one.drop_first() =~= Seq::<NextView>::empty());
    assert(creations(one.drop_first()) == 0);
}

/// A second failure to create the container ends the launch, whatever the
/// status: the image is pulled once for a launch, and the creation is tried
/// again once.
pub proof fn lemma_retry_is_single(launch: LaunchView, client: ClientView, status: Option<u16>)
    requires
        launch.phase == (PhaseView::Creating { retried: true }),
    ensures
        launch_step(launch, client, ResponseView::Failed { status_code: status }).2 == (
        NextView::Failed { error: RunError::CreateContainer }),
{
}

/// What a launch that has come to its end says to every response.
pub open spec fn end_of(phase: PhaseView) -> NextView {
    match phase {
        PhaseView::Failed { error } => NextView::Failed { error },
        _ => NextView::Ready,
    }
}

/// A launch that was given up stays given up, for the same reason, and a
/// launch that is ready stays ready: no response moves either, and the
/// client's record is left alone.
pub proof fn lemma_end_is_final(launch: LaunchView, client: ClientView, responses: Seq<ResponseView>)
    requires
        launch.phase is Failed || launch.phase is Ready,
    ensures
        launch_run(launch, client, responses) == (
            launch,
            client,
            Seq::new(responses.len(), |i: int| end_of(launch.phase)),
        ),
    decreases responses.len(),
{
    if responses.len() > 0 {
        lemma_end_is_final(launch, client, responses.drop_first());
    }
    assert(launch_run(launch, client, responses).2 =~= Seq::new(
        responses.len(),
        |i: int| end_of(launch.phase),
    ));
}

/// The wait conditions are taken in the order in which they were declared:
/// a step of a launch that awaits the condition at `index` leaves it at the
/// same condition or at a later one, ready, or given up; and it is ready
/// only where no condition after `index` asks for a wait.
pub proof fn lemma_waits_in_order(launch: LaunchView, client: ClientView, response: ResponseView)
    requires
        launch.phase is Waiting,
    ensures
        match launch_step(launch, client, response).0.phase {
            PhaseView::Waiting { id, index, stage } => {
                &&& id == launch.phase->Waiting_id
                &&& index >= launch.phase->Waiting_index
                &&& index < launch.image.ready_conditions.len()
            },
            PhaseView::Ready { id } => {
                &&& id == launch.phase->Waiting_id
                &&& forall|j: int|
                    launch.phase->Waiting_index < j < launch.image.ready_conditions.len()
                        ==> #[trigger] launch.image.ready_conditions[j] == WaitView::Nothing
            },
            PhaseView::Failed { error } => true,
            _ => false,
        },
{
    let index = launch.phase->Waiting_index;
    let conditions = launch.image.ready_conditions;
    if 0 <= index < conditions.len() {
        lemma_next_blocking(conditions, index + 1);
    }
}

/// `next_blocking` finds the first condition at or after `from` that asks
/// for a wait.
pub proof fn lemma_next_blocking(conditions: Seq<WaitView>, from: int)
    requires
        0 <= from <= conditions.len(),
    ensures
        from <= next_blocking(conditions, from) <= conditions.len(),
        forall|j: int|
            from <= j < next_blocking(conditions, from) ==> #[trigger] conditions[j]
                == WaitView::Nothing,
        next_blocking(conditions, from) < conditions.len() ==> conditions[next_blocking(
            conditions,
            from,
        )] != WaitView::Nothing,
    decreases conditions.len() - from,
{
    if from < conditions.len() && conditions[from] == WaitView::Nothing {
        lemma_next_blocking(conditions, from + 1);
    }
}

/// The steps that ask for `requests`, one after the other.
pub open spec fn performs(requests: Seq<RequestView>) -> Seq<NextView> {
    Seq::new(requests.len(), |i: int| NextView::Perform { request: requests[i] })
}

/// A launch that awaits a condition goes the way of the wait for that
/// condition. While the wait is undecided, the launch stays at the condition
/// and asks for what the wait asks for. With the response that decides the
/// wait, the launch turns to the conditions that follow where the condition
/// is met, and is given up for the wait's reason where the wait has failed.
pub proof fn lemma_launch_follows_wait(
    launch: LaunchView,
    client: ClientView,
    responses: Seq<ResponseView>,
)
    requires
        launch.phase is Waiting,
        0 <= launch.phase->Waiting_index < launch.image.ready_conditions.len(),
    ensures
        ({
            let id = launch.phase->Waiting_id;
            let index = launch.phase->Waiting_index;
            let run = wait_run(
                launch.image.ready_conditions[index],
                launch.phase->Waiting_stage,
                id,
                responses,
            );
            let decided = responses.take(run.0.len() as int + 1);
            match run.1 {
                WaitEnd::Pending { stage } => launch_run(launch, client, responses) == (
                    LaunchView { phase: PhaseView::Waiting { id, index, stage }, ..launch },
                    client,
                    performs(run.0),
                ),
                WaitEnd::Met => {
                    &&& run.0.len() < responses.len()
                    &&& launch_run(launch, client, decided) == (
                        await_from(launch, id, index + 1).0,
                        client,
                        performs(run.0).push(await_from(launch, id, index + 1).1),
                    )
                },
                WaitEnd::Failed { error } => {
                    &&& run.0.len() < responses.len()
                    &&& launch_run(launch, client, decided) == (
                        give_up(launch, error).0,
                        client,
                        performs(run.0).push(give_up(launch, error).1),
                    )
                },
            }
        }),
    decreases responses.len(),
{
    let id = launch.phase->Waiting_id;
    let index = launch.phase->Waiting_index;
    let stage = launch.phase->Waiting_stage;
    let condition = launch.image.ready_conditions[index];
    let run = wait_run(condition, stage, id, responses);
    if responses.len() == 0 {
        assert(launch_run(launch, client, responses).2 =~= performs(run.0));
    } else {
        let step = launch_step(launch, client, responses[0]);
        let rest = responses.drop_first();
        match reaction(condition, stage, id, responses[0]) {
            WaitStepView::Pending { stage: next, request } => {
                lemma_launch_follows_wait(step.0, step.1, rest);
                let inner = wait_run(condition, next, id, rest);
                assert(run.0 == seq![request] + inner.0);
                assert(performs(run.0) =~= seq![step.2] + performs(inner.0));
                match inner.1 {
                    WaitEnd::Pending { stage: last } => {},
                    WaitEnd::Met => {
                        let decided = responses.take(run.0.len() as int + 1);
                        assert(decided[0] == responses[0]);
                        assert(decided.drop_first() =~= rest.take(inner.0.len() as int + 1));
                        assert(await_from(step.0, id, index + 1) == await_from(
                            launch,
                            id,
                            index + 1,
                        ));
                        assert(performs(run.0).push(await_from(launch, id, index + 1).1)
                            =~= seq![step.2] + performs(inner.0).push(
                            await_from(launch, id, index + 1).1,
                        ));
                    },
                    WaitEnd::Failed { error } => {
                        let decided = responses.take(run.0.len() as int + 1);
                        assert(decided[0] == responses[0]);
                        assert(decided.drop_first() =~= rest.take(inner.0.len() as int + 1));
                        assert(give_up(step.0, error) == give_up(launch, error));
                        assert(performs(run.0).push(give_up(launch, error).1) =~= seq![step.2]
                            + performs(inner.0).push(give_up(launch, error).1));
                    },
                }
            },
            _ => {
                let decided = responses.take(1);
                assert(decided[0] == responses[0]);
                assert(decided.drop_first() =~= Seq::<ResponseView>::empty());
                assert(launch_run(step.0, step.1, decided.drop_first()).2 =~= Seq::<
                    NextView,
                >::empty());
                assert(launch_run(launch, client, decided).2 =~= performs(run.0).push(step.2));
            },
        }
    }
}

/// What making sure of the network `network` comes to, on an engine that
/// lists the networks `names`: a network that is listed is left alone and
/// not recorded; one that is not listed is created and recorded. The second
/// part of the result tells whether the network was created.
pub open spec fn ensure_network(
    client: ClientView,
    names: Seq<Option<Seq<char>>>,
    network: Seq<char>,
) -> (ClientView, bool) {
    if listed(names, network) {
        (client, false)
    } else {
        (ClientView { created_networks: client.created_networks.push(network), ..client }, true)
    }
}

/// A launch makes sure of its network before it creates its container. The
/// launch of an image that chose `network` begins with a look at the
/// networks. Where the network is listed, it goes on to create the
/// container. Where it is not, it asks for the network to be created, and
/// goes on once it was. Either way the client has by then recorded what
/// making sure of the network comes to.
pub proof fn lemma_launch_ensures_network(
    image: ImageView,
    command: Command,
    client: ClientView,
    network: Seq<char>,
    names: Seq<Option<Seq<char>>>,
)
    requires
        image.network == Some(network),
    ensures
        ({
            let start = launch_start(image, command);
            let looked = launch_step(start.0, client, ResponseView::Networks { names });
            let made = launch_step(looked.0, looked.1, ResponseView::NetworkCreated);
            let create = NextView::Perform { request: RequestView::CreateContainer };
            &&& start.1 == (NextView::Perform { request: RequestView::ListNetworks })
            &&& if listed(names, network) {
                &&& looked.2 == create
                &&& looked.1 == ensure_network(client, names, network).0
            } else {
                &&& looked.2 == (NextView::Perform {
                    request: RequestView::CreateNetwork { name: network },
                })
                &&& looked.1 == client
                &&& made.2 == create
                &&& made.1 == ensure_network(client, names, network).0
            }
        }),
{
}

/// A network is created once. Making sure of a network that is not listed
/// creates and records it; making sure of it again, once the engine lists
/// it, creates nothing and leaves the record as it is.
pub proof fn lemma_network_created_once(
    client: ClientView,
    network: Seq<char>,
    names_before: Seq<Option<Seq<char>>>,
    names_after: Seq<Option<Seq<char>>>,
)
    requires
        !listed(names_before, network),
        listed(names_after, network),
    ensures
        ({
            let first = ensure_network(client, names_before, network);
            let second = ensure_network(first.0, names_after, network);
            &&& first.1
            &&& !second.1
            &&& first.0.created_networks == client.created_networks.push(network)
            &&& second.0 == first.0
        }),
{
}

/// The networks that exist once `requests` were carried out on an engine
/// that had the networks `existing`.
pub open spec fn networks_after(existing: Set<Seq<char>>, requests: Seq<RequestView>) -> Set<
    Seq<char>,
>
    decreases requests.len(),
{
    if requests.len() == 0 {
        existing
    } else {
        let now = match requests[0] {
            RequestView::CreateNetwork { name } => existing.insert(name),
            RequestView::RemoveNetwork { name } => existing.remove(name),
            _ => existing,
        };
        networks_after(now, requests.drop_first())
    }
}

/// The requests that remove the networks `names`.
pub open spec fn removals(names: Seq<Seq<char>>) -> Seq<RequestView> {
    Seq::new(names.len(), |i: int| RequestView::RemoveNetwork { name: names[i] })
}

/// Removing the networks `names` leaves those that existed and are not among
/// them.
pub proof fn lemma_removals_remove(existing: Set<Seq<char>>, names: Seq<Seq<char>>)
    ensures
        forall|n: Seq<char>|
            #[trigger] networks_after(existing, removals(names)).contains(n) <==> (
            existing.contains(n) && !names.contains(n)),
    decreases names.len(),
{
    let requests = removals(names);
    if names.len() > 0 {
        let rest = names.drop_first();
        assert(requests.drop_first() =~= removals(rest));
        assert(requests[0] == RequestView::RemoveNetwork { name: names[0] });
        let now = existing.remove(names[0]);
        lemma_removals_remove(now, rest);
        assert(networks_after(existing, requests) == networks_after(now, removals(rest)));
        assert forall|n: Seq<char>|
            #[trigger] networks_after(existing, requests).contains(n) <==> (existing.contains(n)
                && !names.contains(n)) by {
            assert(networks_after(now, removals(rest)).contains(n) <==> (now.contains(n)
                && !rest.contains(n)));
            if names.contains(n) {
                let i = choose|i: int| 0 <= i < names.len() && names[i] == n;
                if i > 0 {
                    assert(rest[i - 1] == n);
                }
            }
            if rest.contains(n) {
                let i = choose|i: int| 0 <= i < rest.len() && rest[i] == n;
                assert(names[i + 1] == n);
            }
            if n != names[0] && !rest.contains(n) && names.contains(n) {
                let i = choose|i: int| 0 <= i < names.len() && names[i] == n;
                assert(rest[i - 1] == n);
            }
        }
    }
}

/// Once a client that removes what it created has cleared away, none of the
/// networks that it had created exists any more, and every other network is
/// as it was; clearing away a second time asks for nothing. Once a client
/// that keeps what it created has cleared away, every network is as it was.
pub proof fn lemma_cleanup_removes_created(client: ClientView, existing: Set<Seq<char>>)
    ensures
        client.command == Command::Remove ==> forall|n: Seq<char>|
            #[trigger] networks_after(existing, cleanup_of(client).1).contains(n) <==> (
            existing.contains(n) && !client.created_networks.contains(n)),
        client.command == Command::Remove ==> cleanup_of(cleanup_of(client).0).1
            == Seq::<RequestView>::empty(),
        client.command == Command::Keep ==> networks_after(existing, cleanup_of(client).1)
            == existing,
{
    if client.command == Command::Remove {
        assert(cleanup_of(client).1 =~= removals(client.created_networks));
        lemma_removals_remove(existing, client.created_networks);
        assert(cleanup_of(cleanup_of(client).0).1 =~= Seq::<RequestView>::empty());
    }
}

} // verus!
