//! The handle on a container that was launched.

use crate::address::IpAddress;
use crate::engine::{EngineRequest, RequestView};
use crate::image::{Command, ImageView, RunnableImage};
use crate::inspect::{
    address_or_error, bridge_ip, bridge_ip_address, resolve, resolve_host_port, BridgeError,
    ContainerInspect, IpFamily,
};
use vstd::prelude::*;

verus! {

/// A port of the container that no host port stands for.
#[derive(Clone, Copy, Debug, PartialEq, Eq, Structural)]
pub struct PortNotExposed {
    pub internal_port: u16,
}

/// A container that was created, started and found ready. It owns the
/// container's identity and the way in which the container is let go of, and
/// lets go of it once.
#[derive(Debug)]
pub struct ContainerAsync {
    id: String,
    image: RunnableImage,
    command: Command,
    released: bool,
}

/// A handle as a mathematical value.
pub struct ContainerView {
    pub id: Seq<char>,
    pub image: ImageView,
    pub command: Command,
    pub released: bool,
}

impl View for ContainerAsync {
    type V = ContainerView;

    closed spec fn view(&self) -> ContainerView {
        ContainerView {
            id: self.id@,
            image: self.image@,
            command: self.command,
            released: self.released,
        }
    }
}

/// The host port under which `report` shows the port `internal_port`, or the
/// port itself where the report shows none.
pub open spec fn host_port_or_error(found: Option<u16>, internal_port: u16) -> Result<
    u16,
    PortNotExposed,
> {
    match found {
        Some(port) => Ok(port),
        None => Err(PortNotExposed { internal_port }),
    }
}

/// The request that removes the container `id` for good: by force, and with
/// its volumes.
pub open spec fn removal(id: Seq<char>) -> RequestView {
    RequestView::RemoveContainer { id, force: true, remove_volumes: true }
}

/// What letting go of a handle does: the handle counts as released from then
/// on, and the container is removed if the handle was not released before and
/// containers are to be removed.
pub open spec fn teardown_of(handle: ContainerView) -> (ContainerView, Option<RequestView>) {
    (
        ContainerView { released: true, ..handle },
        if !handle.released && handle.command == Command::Remove {
            Some(removal(handle.id))
        } else {
            None
        },
    )
}

/// The requests that come of letting go of a handle `times` times in a row.
pub open spec fn teardowns(handle: ContainerView, times: nat) -> Seq<Option<RequestView>>
    decreases times,
{
    if times == 0 {
        Seq::empty()
    } else {
        seq![teardown_of(handle).1] + teardowns(teardown_of(handle).0, (times - 1) as nat)
    }
}

/// However often a handle is let go of, only the first time does anything:
/// it removes the container where containers are to be removed, and every
/// later time asks for nothing.
pub proof fn lemma_teardown_fires_once(handle: ContainerView, times: nat)
    requires
        !handle.released,
        times > 0,
    ensures
        teardowns(handle, times).len() == times,
        teardowns(handle, times)[0] == if handle.command == Command::Remove {
            Some(removal(handle.id))
        } else {
            None
        },
        forall|i: int| 1 <= i < times ==> (#[trigger] teardowns(handle, times)[i]) is None,
{
    lemma_released_stays_quiet(teardown_of(handle).0, (times - 1) as nat);
}

/// Letting go of a handle that was released asks for nothing.
pub proof fn lemma_released_stays_quiet(handle: ContainerView, times: nat)
    requires
        handle.released,
    ensures
        teardowns(handle, times).len() == times,
        forall|i: int| 0 <= i < times ==> (#[trigger] teardowns(handle, times)[i]) is None,
    decreases times,
{
    if times > 0 {
        lemma_released_stays_quiet(teardown_of(handle).0, (times - 1) as nat);
    }
}

impl ContainerAsync {
    /// The handle on the container `id`, which was launched from `image` and
    /// found ready.
    pub(crate) fn new(id: String, image: RunnableImage, command: Command) -> (handle:
        ContainerAsync)
        ensures
            handle@ == (ContainerView { id: id@, image: image@, command, released: false }),
    {
        ContainerAsync { id, image, command, released: false }
    }

    /// The identity of the container.
    pub fn id(&self) -> (id: &str)
        ensures
            id@ == self@.id,
    {
        self.id.as_str()
    }

    /// The image that the container was launched from.
    pub fn image(&self) -> (image: &RunnableImage)
        ensures
            image@ == self@.image,
    {
        &self.image
    }

    /// What is done with the container when the handle is let go of.
    pub fn command(&self) -> (command: Command)
        ensures
            command == self@.command,
    {
        self.command
    }

    /// Whether the handle was let go of.
    pub fn is_released(&self) -> (released: bool)
        ensures
            released == self@.released,
    {
        self.released
    }

    /// The host port that stands for `internal_port` on the host's IPv4
    /// addresses, as `report` shows it.
    pub fn get_host_port(&self, report: &ContainerInspect, internal_port: u16) -> (port: Result<
        u16,
        PortNotExposed,
    >)
        ensures
            port == host_port_or_error(
                resolve(report@, internal_port, IpFamily::V4),
                internal_port,
            ),
    {
        self.get_host_port_ipv4(report, internal_port)
    }

    /// The host port that stands for `internal_port` on the host's IPv4
    /// addresses, as `report` shows it.
    pub fn get_host_port_ipv4(&self, report: &ContainerInspect, internal_port: u16) -> (port:
        Result<u16, PortNotExposed>)
        ensures
            port == host_port_or_error(
                resolve(report@, internal_port, IpFamily::V4),
                internal_port,
            ),
    {
        match resolve_host_port(report, internal_port, IpFamily::V4) {
            Some(port) => Ok(port),
            None => Err(PortNotExposed { internal_port }),
        }
    }

    /// The host port that stands for `internal_port` on the host's IPv6
    /// addresses, as `report` shows it.
    pub fn get_host_port_ipv6(&self, report: &ContainerInspect, internal_port: u16) -> (port:
        Result<u16, PortNotExposed>)
        ensures
            port == host_port_or_error(
                resolve(report@, internal_port, IpFamily::V6),
                internal_port,
            ),
    {
        match resolve_host_port(report, internal_port, IpFamily::V6) {
            Some(port) => Ok(port),
            None => Err(PortNotExposed { internal_port }),
        }
    }

    /// The address of the container on the network that its image chose, or
    /// on the engine's default bridge where it chose none.
    pub fn get_bridge_ip_address(&self, report: &ContainerInspect) -> (address: Result<
        IpAddress,
        BridgeError,
    >)
        ensures
            address_or_error(address) == bridge_ip(self@.image.network, report@),
    {
        bridge_ip_address(self.image.network(), report)
    }

    /// The request that starts the container.
    pub fn start(&self) -> (request: EngineRequest)
        ensures
            request@ == (RequestView::StartContainer { id: self@.id }),
    {
        EngineRequest::StartContainer { id: self.id.clone() }
    }

    /// The request that stops the container.
    pub fn stop(&self) -> (request: EngineRequest)
        ensures
            request@ == (RequestView::StopContainer { id: self@.id }),
    {
        EngineRequest::StopContainer { id: self.id.clone() }
    }

    /// Gives the handle up for the request that removes the container,
    /// whatever is otherwise done with containers.
    pub fn rm(self) -> (request: EngineRequest)
        ensures
            request@ == removal(self@.id),
    {
        EngineRequest::RemoveContainer { id: self.id, force: true, remove_volumes: true }
    }

    /// Lets go of the container: hands out the request that removes it, the
    /// first time and where containers are to be removed, and nothing
    /// otherwise.
    pub fn teardown(&mut self) -> (request: Option<EngineRequest>)
        ensures
            final(self)@ == teardown_of(old(self)@).0,
            match request {
                Some(r) => teardown_of(old(self)@).1 == Some(r@),
                None => teardown_of(old(self)@).1 is None,
            },
    {
        let fire = !self.released && match self.command {
            Command::Remove => true,
            Command::Keep => false,
        };
        self.released = true;
        if fire {
            Some(
                EngineRequest::RemoveContainer {
                    id: self.id.clone(),
                    force: true,
                    remove_volumes: true,
                },
            )
        } else {
            None
        }
    }
}

} // verus!
