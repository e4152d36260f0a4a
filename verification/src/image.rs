//! The description of a container to launch.

use crate::text::{
    copy_opt_text, copy_text, copy_text_pairs, copy_texts, opt_text, text_pairs, texts,
};
use vstd::prelude::*;

verus! {

/// One of the two output streams of a container.
#[derive(Clone, Copy, Debug, PartialEq, Eq, Structural)]
pub enum LogStream {
    StdOut,
    StdErr,
}

/// What is done with containers and networks when their owner lets go of them.
#[derive(Clone, Copy, Debug, PartialEq, Eq, Structural)]
pub enum Command {
    /// Tear the resource down.
    Remove,
    /// Leave the resource running.
    Keep,
}

/// A port of the container published on the host: on `host` where one is
/// given, on a port that the engine picks where none is.
#[derive(Clone, Copy, Debug, PartialEq, Eq, Structural)]
pub struct PortMapping {
    pub internal: u16,
    pub host: Option<u16>,
}

impl PortMapping {
    /// The container port `internal` on the host port `host`.
    pub fn fixed(host: u16, internal: u16) -> (mapping: PortMapping)
        ensures
            mapping == (PortMapping { internal, host: Some(host) }),
    {
        PortMapping { internal, host: Some(host) }
    }

    /// The container port `internal` on a host port that the engine picks.
    pub fn auto(internal: u16) -> (mapping: PortMapping)
        ensures
            mapping == (PortMapping { internal, host: None }),
    {
        PortMapping { internal, host: None }
    }
}

impl From<(u16, u16)> for PortMapping {
    /// The pair of a host port and the container port that it stands for.
    fn from(pair: (u16, u16)) -> (mapping: PortMapping) {
        PortMapping { internal: pair.1, host: Some(pair.0) }
    }
}

impl vstd::std_specs::convert::FromSpecImpl<(u16, u16)> for PortMapping {
    open spec fn obeys_from_spec() -> bool {
        true
    }

    open spec fn from_spec(pair: (u16, u16)) -> PortMapping {
        PortMapping { internal: pair.1, host: Some(pair.0) }
    }
}

/// The setting that asks for resources to be kept.
pub open spec fn keep_setting() -> Seq<char> {
    seq!['k', 'e', 'e', 'p']
}

/// The setting that asks for resources to be removed.
pub open spec fn remove_setting() -> Seq<char> {
    seq!['r', 'e', 'm', 'o', 'v', 'e']
}

/// What the setting `value` asks for, if it is one of the two settings.
pub open spec fn command_of(value: Seq<char>) -> Option<Command> {
    if value == keep_setting() {
        Some(Command::Keep)
    } else if value == remove_setting() {
        Some(Command::Remove)
    } else {
        None
    }
}

impl Command {
    /// Reads a setting: `keep` or `remove`, in lower case.
    pub fn from_setting(value: &str) -> (command: Option<Command>)
        ensures
            command == command_of(value@),
    {
        proof {
            reveal_strlit("keep");
            reveal_strlit("remove");
            assert("keep"@ =~= keep_setting());
            assert("remove"@ =~= remove_setting());
        }
        let given = String::from_str(value);
        if given == String::from_str("keep") {
            Some(Command::Keep)
        } else if given == String::from_str("remove") {
            Some(Command::Remove)
        } else {
            None
        }
    }
}

/// A condition that a started container has to meet before it counts as ready.
#[derive(Debug, PartialEq, Eq)]
pub enum WaitFor {
    /// Nothing to wait for.
    Nothing,
    /// A line that holds `pattern` appears on `stream`.
    LogMessage { stream: LogStream, pattern: String },
    /// A fixed length of time has passed.
    Duration { millis: u64 },
    /// The container's health check reports healthy.
    Healthcheck,
}

/// A wait condition as a mathematical value.
pub enum WaitView {
    Nothing,
    LogMessage { stream: LogStream, pattern: Seq<char> },
    Duration { millis: u64 },
    Healthcheck,
}

impl View for WaitFor {
    type V = WaitView;

    open spec fn view(&self) -> WaitView {
        match self {
            WaitFor::Nothing => WaitView::Nothing,
            WaitFor::LogMessage { stream, pattern } => WaitView::LogMessage {
                stream: *stream,
                pattern: pattern@,
            },
            WaitFor::Duration { millis } => WaitView::Duration { millis: *millis },
            WaitFor::Healthcheck => WaitView::Healthcheck,
        }
    }
}

impl WaitFor {
    /// Wait for a line holding `message` on standard output.
    pub fn message_on_stdout(message: &str) -> (w: WaitFor)
        ensures
            w@ == (WaitView::LogMessage { stream: LogStream::StdOut, pattern: message@ }),
    {
        WaitFor::LogMessage { stream: LogStream::StdOut, pattern: String::from_str(message) }
    }

    /// Wait for a line holding `message` on standard error.
    pub fn message_on_stderr(message: &str) -> (w: WaitFor)
        ensures
            w@ == (WaitView::LogMessage { stream: LogStream::StdErr, pattern: message@ }),
    {
        WaitFor::LogMessage { stream: LogStream::StdErr, pattern: String::from_str(message) }
    }

    /// Wait for `length` seconds; lengths beyond what fits in milliseconds
    /// are cut to the longest wait there is.
    pub fn seconds(length: u64) -> (w: WaitFor)
        ensures
            w@ == (WaitView::Duration {
                millis: if length * 1000 <= u64::MAX {
                    (length * 1000) as u64
                } else {
                    u64::MAX
                },
            }),
    {
        let millis = match length.checked_mul(1000) {
            Some(m) => m,
            None => u64::MAX,
        };
        WaitFor::Duration { millis }
    }

    /// Wait for `length` milliseconds.
    pub fn millis(length: u64) -> (w: WaitFor)
        ensures
            w@ == (WaitView::Duration { millis: length }),
    {
        WaitFor::Duration { millis: length }
    }

    /// A copy of this condition.
    pub fn duplicate(&self) -> (w: WaitFor)
        ensures
            w@ == self@,
    {
        match self {
            WaitFor::Nothing => WaitFor::Nothing,
            WaitFor::LogMessage { stream, pattern } => WaitFor::LogMessage {
                stream: *stream,
                pattern: pattern.clone(),
            },
            WaitFor::Duration { millis } => WaitFor::Duration { millis: *millis },
            WaitFor::Healthcheck => WaitFor::Healthcheck,
        }
    }
}

/// The views of a list of wait conditions.
pub open spec fn wait_views(v: Seq<WaitFor>) -> Seq<WaitView> {
    Seq::new(v.len(), |i: int| v[i]@)
}

/// No two pairs of `pairs` have the same first part.
pub open spec fn names_distinct(pairs: Seq<(Seq<char>, Seq<char>)>) -> bool {
    forall|i: int, j: int|
        0 <= i < j < pairs.len() ==> (#[trigger] pairs[i]).0 != (#[trigger] pairs[j]).0
}

/// Some pair of `pairs` has the first part `name`.
pub open spec fn has_name(pairs: Seq<(Seq<char>, Seq<char>)>, name: Seq<char>) -> bool {
    exists|i: int| 0 <= i < pairs.len() && (#[trigger] pairs[i]).0 == name
}

/// `pairs` with `name` bound to `value`: in the place where `name` stood, or
/// at the end where it did not stand.
pub open spec fn with_var(
    pairs: Seq<(Seq<char>, Seq<char>)>,
    name: Seq<char>,
    value: Seq<char>,
) -> Seq<(Seq<char>, Seq<char>)> {
    if has_name(pairs, name) {
        let i = choose|i: int| 0 <= i < pairs.len() && (#[trigger] pairs[i]).0 == name;
        pairs.update(i, (name, value))
    } else {
        pairs.push((name, value))
    }
}

/// A runnable image as a mathematical value.
pub struct ImageView {
    pub descriptor: Seq<char>,
    pub env_vars: Seq<(Seq<char>, Seq<char>)>,
    pub volumes: Seq<(Seq<char>, Seq<char>)>,
    pub exposed_ports: Seq<u16>,
    pub ports: Seq<PortMapping>,
    pub network: Option<Seq<char>>,
    pub container_name: Option<Seq<char>>,
    pub shm_size: Option<u64>,
    pub entrypoint: Option<Seq<char>>,
    pub args: Seq<Seq<char>>,
    pub ready_conditions: Seq<WaitView>,
}

/// An image together with everything that was chosen for one launch of it.
/// No environment variable is named twice.
#[derive(Debug, PartialEq, Eq)]
pub struct RunnableImage {
    descriptor: String,
    env_vars: Vec<(String, String)>,
    volumes: Vec<(String, String)>,
    exposed_ports: Vec<u16>,
    ports: Vec<PortMapping>,
    network: Option<String>,
    container_name: Option<String>,
    shm_size: Option<u64>,
    entrypoint: Option<String>,
    args: Vec<String>,
    ready_conditions: Vec<WaitFor>,
}

impl View for RunnableImage {
    type V = ImageView;

    closed spec fn view(&self) -> ImageView {
        ImageView {
            descriptor: self.descriptor@,
            env_vars: text_pairs(self.env_vars@),
            volumes: text_pairs(self.volumes@),
            exposed_ports: self.exposed_ports@,
            ports: self.ports@,
            network: opt_text(self.network),
            container_name: opt_text(self.container_name),
            shm_size: self.shm_size,
            entrypoint: opt_text(self.entrypoint),
            args: texts(self.args@),
            ready_conditions: wait_views(self.ready_conditions@),
        }
    }
}

/// The image reference made of a name and a tag.
pub open spec fn descriptor_of(name: Seq<char>, tag: Seq<char>) -> Seq<char> {
    name + seq![':'] + tag
}

impl RunnableImage {
    #[verifier::type_invariant]
    spec fn inv(&self) -> bool {
        names_distinct(text_pairs(self.env_vars@))
    }

    /// The image `name` at `tag`, with nothing else chosen.
    pub fn new(name: &str, tag: &str) -> (image: RunnableImage)
        ensures
            image@ == (ImageView {
                descriptor: descriptor_of(name@, tag@),
                env_vars: Seq::empty(),
                volumes: Seq::empty(),
                exposed_ports: Seq::empty(),
                ports: Seq::empty(),
                network: None,
                container_name: None,
                shm_size: None,
                entrypoint: None,
                args: Seq::empty(),
                ready_conditions: Seq::empty(),
            }),
    {
        let mut descriptor = String::from_str(name);
        descriptor.append(":");
        descriptor.append(tag);
        proof {
            reveal_strlit(":");
            assert(":"@ =~= seq![':']);
        }
        let image = RunnableImage {
            descriptor,
            env_vars: Vec::new(),
            volumes: Vec::new(),
            exposed_ports: Vec::new(),
            ports: Vec::new(),
            network: None,
            container_name: None,
            shm_size: None,
            entrypoint: None,
            args: Vec::new(),
            ready_conditions: Vec::new(),
        };
        assert(image@.env_vars =~= Seq::empty());
        assert(image@.volumes =~= Seq::empty());
        assert(image@.args =~= Seq::empty());
        assert(image@.ready_conditions =~= Seq::empty());
        image
    }

    /// Also expose `port` of the container.
    pub fn with_exposed_port(self, port: u16) -> (image: RunnableImage)
        ensures
            image@ == (ImageView { exposed_ports: self@.exposed_ports.push(port), ..self@ }),
    {
        proof {
            use_type_invariant(&self);
        }
        let RunnableImage {
            descriptor,
            env_vars,
            volumes,
            mut exposed_ports,
            ports,
            network,
            container_name,
            shm_size,
            entrypoint,
            args,
            ready_conditions,
        } = self;
        exposed_ports.push(port);
        let image = RunnableImage {
            descriptor,
            env_vars,
            volumes,
            exposed_ports,
            ports,
            network,
            container_name,
            shm_size,
            entrypoint,
            args,
            ready_conditions,
        };
        image
    }

    /// Also publish the container's port `mapping.internal` on the host.
    pub fn with_mapped_port(self, mapping: PortMapping) -> (image: RunnableImage)
        ensures
            image@ == (ImageView { ports: self@.ports.push(mapping), ..self@ }),
    {
        proof {
            use_type_invariant(&self);
        }
        let RunnableImage {
            descriptor,
            env_vars,
            volumes,
            exposed_ports,
            mut ports,
            network,
            container_name,
            shm_size,
            entrypoint,
            args,
            ready_conditions,
        } = self;
        ports.push(mapping);
        let image = RunnableImage {
            descriptor,
            env_vars,
            volumes,
            exposed_ports,
            ports,
            network,
            container_name,
            shm_size,
            entrypoint,
            args,
            ready_conditions,
        };
        image
    }

    /// Attach the container to the network `network`.
    pub fn with_network(self, network: &str) -> (image: RunnableImage)
        ensures
            image@ == (ImageView { network: Some(network@), ..self@ }),
    {
        proof {
            use_type_invariant(&self);
        }
        let mut image = self;
        image.network = Some(String::from_str(network));
        image
    }

    /// Give the container the name `name`.
    pub fn with_container_name(self, name: &str) -> (image: RunnableImage)
        ensures
            image@ == (ImageView { container_name: Some(name@), ..self@ }),
    {
        proof {
            use_type_invariant(&self);
        }
        let mut image = self;
        image.container_name = Some(String::from_str(name));
        image
    }

    /// Give the container `bytes` bytes of shared memory.
    pub fn with_shm_size(self, bytes: u64) -> (image: RunnableImage)
        ensures
            image@ == (ImageView { shm_size: Some(bytes), ..self@ }),
    {
        proof {
            use_type_invariant(&self);
        }
        let mut image = self;
        image.shm_size = Some(bytes);
        image
    }

    /// Start the container with `entrypoint` in place of the image's own.
    pub fn with_entrypoint(self, entrypoint: &str) -> (image: RunnableImage)
        ensures
            image@ == (ImageView { entrypoint: Some(entrypoint@), ..self@ }),
    {
        proof {
            use_type_invariant(&self);
        }
        let mut image = self;
        image.entrypoint = Some(String::from_str(entrypoint));
        image
    }

    /// Pass `arg` to the container, after the arguments given so far.
    pub fn with_arg(self, arg: &str) -> (image: RunnableImage)
        ensures
            image@ == (ImageView { args: self@.args.push(arg@), ..self@ }),
    {
        proof {
            use_type_invariant(&self);
        }
        let RunnableImage {
            descriptor,
            env_vars,
            volumes,
            exposed_ports,
            ports,
            network,
            container_name,
            shm_size,
            entrypoint,
            mut args,
            ready_conditions,
        } = self;
        args.push(String::from_str(arg));
        let image = RunnableImage {
            descriptor,
            env_vars,
            volumes,
            exposed_ports,
            ports,
            network,
            container_name,
            shm_size,
            entrypoint,
            args,
            ready_conditions,
        };
        assert(image@.args =~= self@.args.push(arg@));
        image
    }

    /// Mount `source` of the host at `target` in the container.
    pub fn with_volume(self, source: &str, target: &str) -> (image: RunnableImage)
        ensures
            image@ == (ImageView { volumes: self@.volumes.push((source@, target@)), ..self@ }),
    {
        proof {
            use_type_invariant(&self);
        }
        let RunnableImage {
            descriptor,
            env_vars,
            mut volumes,
            exposed_ports,
            ports,
            network,
            container_name,
            shm_size,
            entrypoint,
            args,
            ready_conditions,
        } = self;
        volumes.push((String::from_str(source), String::from_str(target)));
        let image = RunnableImage {
            descriptor,
            env_vars,
            volumes,
            exposed_ports,
            ports,
            network,
            container_name,
            shm_size,
            entrypoint,
            args,
            ready_conditions,
        };
        assert(image@.volumes =~= self@.volumes.push((source@, target@)));
        image
    }

    /// Require `condition` too, after the conditions given so far.
    pub fn with_wait_for(self, condition: WaitFor) -> (image: RunnableImage)
        ensures
            image@ == (ImageView {
                ready_conditions: self@.ready_conditions.push(condition@),
                ..self@
            }),
    {
        proof {
            use_type_invariant(&self);
        }
        let RunnableImage {
            descriptor,
            env_vars,
            volumes,
            exposed_ports,
            ports,
            network,
            container_name,
            shm_size,
            entrypoint,
            args,
            mut ready_conditions,
        } = self;
        ready_conditions.push(condition);
        let image = RunnableImage {
            descriptor,
            env_vars,
            volumes,
            exposed_ports,
            ports,
            network,
            container_name,
            shm_size,
            entrypoint,
            args,
            ready_conditions,
        };
        assert(image@.ready_conditions =~= self@.ready_conditions.push(condition@));
        image
    }

    /// Set the environment variable `name` to `value`; a value set before
    /// for the same name is replaced.
    pub fn with_env_var(self, name: &str, value: &str) -> (image: RunnableImage)
        ensures
            image@ == (ImageView {
                env_vars: with_var(self@.env_vars, name@, value@),
                ..self@
            }),
            names_distinct(image@.env_vars),
    {
        proof {
            use_type_invariant(&self);
        }
        let RunnableImage {
            descriptor,
            mut env_vars,
            volumes,
            exposed_ports,
            ports,
            network,
            container_name,
            shm_size,
            entrypoint,
            args,
            ready_conditions,
        } = self;
        let ghost before = text_pairs(env_vars@);
        let key = String::from_str(name);
        let mut i: usize = 0;
        let mut found: Option<usize> = None;
        while i < env_vars.len()
            invariant_except_break
                i <= env_vars.len(),
                found is None,
                forall|j: int| 0 <= j < i ==> env_vars@[j].0@ != name@,
            invariant
                key@ == name@,
                before == text_pairs(env_vars@),
            ensures
                match found {
                    Some(k) => k < env_vars.len() && env_vars@[k as int].0@ == name@,
                    None => forall|j: int| 0 <= j < env_vars.len() ==> env_vars@[j].0@ != name@,
                },
            decreases env_vars.len() - i,
        {
            if env_vars[i].0 == key {
                found = Some(i);
                break;
            }
            i = i + 1;
        }
        match found {
            Some(k) => {
                assert(before[k as int].0 == name@);
                let ghost c = choose|c: int| 0 <= c < before.len() && (#[trigger] before[c]).0 == name@;
                assert(c == k) by {
                    if c < k {
                        assert(before[c].0 != before[k as int].0);
                    } else if k < c {
                        assert(before[k as int].0 != before[c].0);
                    }
                }
                env_vars.set(k, (key, String::from_str(value)));
                assert(text_pairs(env_vars@) =~= before.update(k as int, (name@, value@)));
                assert forall|a: int, b: int| 0 <= a < b < before.len() implies (
                #[trigger] before.update(k as int, (name@, value@))[a]).0 != (
                #[trigger] before.update(k as int, (name@, value@))[b]).0 by {
                    assert(before[a].0 != before[b].0);
                }
            },
            None => {
                assert(!has_name(before, name@)) by {
                    if has_name(before, name@) {
                        let c = choose|c: int| 0 <= c < before.len() && (#[trigger] before[c]).0 == name@;
                        assert(env_vars@[c].0@ == name@);
                    }
                }
                env_vars.push((key, String::from_str(value)));
                assert(text_pairs(env_vars@) =~= before.push((name@, value@)));
                assert forall|a: int, b: int| 0 <= a < b < before.len() + 1 implies (
                #[trigger] before.push((name@, value@))[a]).0 != (
                #[trigger] before.push((name@, value@))[b]).0 by {
                    if b < before.len() {
                        assert(before[a].0 != before[b].0);
                    } else {
                        assert(env_vars@[a].0@ != name@);
                    }
                }
            },
        }
        let image = RunnableImage {
            descriptor,
            env_vars,
            volumes,
            exposed_ports,
            ports,
            network,
            container_name,
            shm_size,
            entrypoint,
            args,
            ready_conditions,
        };
        image
    }

    /// The image reference.
    pub fn descriptor(&self) -> (out: &String)
        ensures
            out@ == self@.descriptor,
    {
        &self.descriptor
    }

    /// The environment variables, as pairs of name and value.
    pub fn env_vars(&self) -> (out: &Vec<(String, String)>)
        ensures
            text_pairs(out@) == self@.env_vars,
            names_distinct(self@.env_vars),
    {
        proof {
            use_type_invariant(self);
        }
        &self.env_vars
    }

    /// The volume mounts, as pairs of source and target.
    pub fn volumes(&self) -> (out: &Vec<(String, String)>)
        ensures
            text_pairs(out@) == self@.volumes,
    {
        &self.volumes
    }

    /// The exposed ports.
    pub fn expose_ports(&self) -> (out: &Vec<u16>)
        ensures
            out@ == self@.exposed_ports,
    {
        &self.exposed_ports
    }

    /// The explicit port mappings.
    pub fn ports(&self) -> (out: &Vec<PortMapping>)
        ensures
            out@ == self@.ports,
    {
        &self.ports
    }

    /// The network to attach to, if one was chosen.
    pub fn network(&self) -> (out: &Option<String>)
        ensures
            opt_text(*out) == self@.network,
    {
        &self.network
    }

    /// The container's name, if one was chosen.
    pub fn container_name(&self) -> (out: &Option<String>)
        ensures
            opt_text(*out) == self@.container_name,
    {
        &self.container_name
    }

    /// The size of shared memory in bytes, if one was chosen.
    pub fn shm_size(&self) -> (out: Option<u64>)
        ensures
            out == self@.shm_size,
    {
        self.shm_size
    }

    /// The entrypoint override, if there is one.
    pub fn entrypoint(&self) -> (out: &Option<String>)
        ensures
            opt_text(*out) == self@.entrypoint,
    {
        &self.entrypoint
    }

    /// The arguments passed to the container.
    pub fn args(&self) -> (out: &Vec<String>)
        ensures
            texts(out@) == self@.args,
    {
        &self.args
    }

    /// The conditions that make the container ready, in the order in which
    /// they are awaited.
    pub fn ready_conditions(&self) -> (out: &Vec<WaitFor>)
        ensures
            wait_views(out@) == self@.ready_conditions,
    {
        &self.ready_conditions
    }

    /// A copy of this image.
    pub fn duplicate(&self) -> (image: RunnableImage)
        ensures
            image@ == self@,
    {
        proof {
            use_type_invariant(self);
        }
        let mut ready_conditions: Vec<WaitFor> = Vec::new();
        let mut i: usize = 0;
        while i < self.ready_conditions.len()
            invariant
                i <= self.ready_conditions.len(),
                ready_conditions.len() == i,
                forall|j: int| 0 <= j < i ==> ready_conditions@[j]@ == self.ready_conditions@[j]@,
            decreases self.ready_conditions.len() - i,
        {
            ready_conditions.push(self.ready_conditions[i].duplicate());
            i = i + 1;
        }
        assert(wait_views(ready_conditions@) =~= wait_views(self.ready_conditions@));
        let mut exposed_ports: Vec<u16> = Vec::new();
        let mut k: usize = 0;
        while k < self.exposed_ports.len()
            invariant
                k <= self.exposed_ports.len(),
                exposed_ports@ == self.exposed_ports@.take(k as int),
            decreases self.exposed_ports.len() - k,
        {
            exposed_ports.push(self.exposed_ports[k]);
            assert(self.exposed_ports@.take(k + 1) =~= self.exposed_ports@.take(k as int).push(
                self.exposed_ports@[k as int],
            ));
            k = k + 1;
        }
        assert(self.exposed_ports@.take(k as int) =~= self.exposed_ports@);
        let mut ports: Vec<PortMapping> = Vec::new();
        let mut m: usize = 0;
        while m < self.ports.len()
            invariant
                m <= self.ports.len(),
                ports@ == self.ports@.take(m as int),
            decreases self.ports.len() - m,
        {
            ports.push(self.ports[m]);
            assert(self.ports@.take(m + 1) =~= self.ports@.take(m as int).push(
                self.ports@[m as int],
            ));
            m = m + 1;
        }
        assert(self.ports@.take(m as int) =~= self.ports@);
        RunnableImage {
            descriptor: copy_text(&self.descriptor),
            env_vars: copy_text_pairs(&self.env_vars),
            volumes: copy_text_pairs(&self.volumes),
            exposed_ports,
            ports,
            network: copy_opt_text(&self.network),
            container_name: copy_opt_text(&self.container_name),
            shm_size: self.shm_size,
            entrypoint: copy_opt_text(&self.entrypoint),
            args: copy_texts(&self.args),
            ready_conditions,
        }
    }
}

impl Clone for RunnableImage {
    fn clone(&self) -> (image: RunnableImage)
        ensures
            image@ == self@,
    {
        self.duplicate()
    }
}

impl Clone for WaitFor {
    fn clone(&self) -> (condition: WaitFor)
        ensures
            condition@ == self@,
    {
        self.duplicate()
    }
}

} // verus!
