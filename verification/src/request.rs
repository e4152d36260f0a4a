//! The create request that an image description amounts to.

use crate::image::{ImageView, PortMapping, RunnableImage};
use crate::text::{
    copy_opt_text, copy_texts, decimal, decimal_string, lemma_decimal_injective, opt_text, texts,
};
use vstd::prelude::*;

verus! {

/// The protocol suffix of a port key.
pub open spec fn tcp_suffix() -> Seq<char> {
    seq!['/', 't', 'c', 'p']
}

/// The key under which the engine files the TCP port `port`.
pub open spec fn port_key(port: u16) -> Seq<char> {
    decimal(port as nat) + tcp_suffix()
}

/// The address that fixed host ports are bound to.
pub open spec fn loopback() -> Seq<char> {
    seq!['1', '2', '7', '.', '0', '.', '0', '.', '1']
}

/// Different ports have different keys.
pub proof fn lemma_port_key_injective(a: u16, b: u16)
    requires
        port_key(a) == port_key(b),
    ensures
        a == b,
{
    let da = decimal(a as nat);
    let db = decimal(b as nat);
    assert(port_key(a).len() == da.len() + 4);
    assert(port_key(b).len() == db.len() + 4);
    assert(da =~= port_key(a).subrange(0, da.len() as int));
    assert(db =~= port_key(b).subrange(0, db.len() as int));
    lemma_decimal_injective(a as nat, b as nat);
}

/// Writes the key of the TCP port `port`.
pub fn port_key_string(port: u16) -> (key: String)
    ensures
        key@ == port_key(port),
{
    let mut key = decimal_string(port as u64);
    proof {
        reveal_strlit("/tcp");
        assert("/tcp"@ =~= tcp_suffix());
    }
    key.append("/tcp");
    key
}

/// One host-side binding of a port, in the engine's own terms: both parts
/// are texts, and an absent part is left to the engine.
#[derive(Debug, PartialEq, Eq)]
pub struct HostBinding {
    pub host_ip: Option<String>,
    pub host_port: Option<String>,
}

pub struct HostBindingView {
    pub host_ip: Option<Seq<char>>,
    pub host_port: Option<Seq<char>>,
}

impl View for HostBinding {
    type V = HostBindingView;

    open spec fn view(&self) -> HostBindingView {
        HostBindingView { host_ip: opt_text(self.host_ip), host_port: opt_text(self.host_port) }
    }
}

/// The bindings requested for one port key.
#[derive(Debug, PartialEq, Eq)]
pub struct PortBindingEntry {
    pub key: String,
    pub bindings: Vec<HostBinding>,
}

pub struct PortBindingEntryView {
    pub key: Seq<char>,
    pub bindings: Seq<HostBindingView>,
}

/// The views of a list of bindings.
pub open spec fn binding_views(v: Seq<HostBinding>) -> Seq<HostBindingView> {
    Seq::new(v.len(), |i: int| v[i]@)
}

impl View for PortBindingEntry {
    type V = PortBindingEntryView;

    open spec fn view(&self) -> PortBindingEntryView {
        PortBindingEntryView { key: self.key@, bindings: binding_views(self.bindings@) }
    }
}

/// The views of a list of entries.
pub open spec fn entry_views(v: Seq<PortBindingEntry>) -> Seq<PortBindingEntryView> {
    Seq::new(v.len(), |i: int| v[i]@)
}

/// Some mapping of `ports` is for the container port `port`.
pub open spec fn is_mapped(ports: Seq<PortMapping>, port: u16) -> bool {
    exists|i: int| 0 <= i < ports.len() && (#[trigger] ports[i]).internal == port
}

/// The host port that `ports` declare for the container port `port`: that of
/// the last mapping for it. `None` where that mapping leaves the choice to
/// the engine, and where there is no mapping.
pub open spec fn declared_host(ports: Seq<PortMapping>, port: u16) -> Option<u16>
    decreases ports.len(),
{
    if ports.len() == 0 {
        None
    } else if ports.last().internal == port {
        ports.last().host
    } else {
        declared_host(ports.drop_last(), port)
    }
}

/// The image names at least one port, mapped or exposed.
pub open spec fn declares_ports(image: ImageView) -> bool {
    image.ports.len() > 0 || image.exposed_ports.len() > 0
}

/// The image asks for `port` to be bound on the host.
pub open spec fn is_bound(image: ImageView, port: u16) -> bool {
    is_mapped(image.ports, port) || image.exposed_ports.contains(port)
}

/// The binding that the image asks for `port`: a mapped port goes to the
/// loopback address and its declared host port, a port that is only exposed
/// is left to the engine altogether.
pub open spec fn binding_of(image: ImageView, port: u16) -> HostBindingView {
    if is_mapped(image.ports, port) {
        HostBindingView {
            host_ip: Some(loopback()),
            host_port: match declared_host(image.ports, port) {
                Some(host) => Some(decimal(host as nat)),
                None => None,
            },
        }
    } else {
        HostBindingView { host_ip: None, host_port: None }
    }
}

/// `entry` is the entry of `port`, a port that `image` binds: it stands under
/// that port's key and holds that port's one binding.
pub open spec fn entry_is_for(entry: PortBindingEntryView, image: ImageView, port: u16) -> bool {
    &&& is_bound(image, port)
    &&& entry.key == port_key(port)
    &&& entry.bindings == seq![binding_of(image, port)]
}

/// `entry` is the entry of some port that `image` binds.
pub open spec fn is_due(entry: PortBindingEntryView, image: ImageView) -> bool {
    exists|port: u16| entry_is_for(entry, image, port)
}

/// Some entry of `entries` stands under the key of `port`.
pub open spec fn has_entry_for(entries: Seq<PortBindingEntryView>, port: u16) -> bool {
    exists|i: int| 0 <= i < entries.len() && (#[trigger] entries[i]).key == port_key(port)
}

/// `entries` are the port bindings of `image`: one entry for each port that
/// the image binds, under that port's key and with that port's one binding,
/// and nothing else.
pub open spec fn publishes(entries: Seq<PortBindingEntryView>, image: ImageView) -> bool {
    &&& forall|i: int, j: int|
        0 <= i < j < entries.len() ==> (#[trigger] entries[i]).key != (#[trigger] entries[j]).key
    &&& forall|i: int| 0 <= i < entries.len() ==> is_due(#[trigger] entries[i], image)
    &&& forall|port: u16|
        #![trigger is_bound(image, port)]
        #![trigger has_entry_for(entries, port)]
        is_bound(image, port) ==> has_entry_for(entries, port)
}

/// The mapping at `at` is the last one for its container port.
pub open spec fn is_last_for_port(ports: Seq<PortMapping>, at: int) -> bool {
    forall|j: int| at < j < ports.len() ==> (#[trigger] ports[j]).internal != ports[at].internal
}

/// The last mapping for a port is the one that declares its host port.
pub proof fn lemma_declared_host_is_last(ports: Seq<PortMapping>, at: int)
    requires
        0 <= at < ports.len(),
        is_last_for_port(ports, at),
    ensures
        declared_host(ports, ports[at].internal) == ports[at].host,
    decreases ports.len(),
{
    if at == ports.len() - 1 {
    } else {
        assert(ports.last() == ports[ports.len() - 1]);
        assert(ports.last().internal != ports[at].internal);
        let rest = ports.drop_last();
        assert(rest[at] == ports[at]);
        assert forall|j: int| at < j < rest.len() implies (#[trigger] rest[j]).internal
            != rest[at].internal by {
            assert(rest[j] == ports[j]);
        }
        lemma_declared_host_is_last(rest, at);
    }
}

/// A mapped port has a last mapping.
pub proof fn lemma_last_mapping_exists(ports: Seq<PortMapping>, port: u16) -> (at: int)
    requires
        is_mapped(ports, port),
    ensures
        0 <= at < ports.len(),
        ports[at].internal == port,
        is_last_for_port(ports, at),
    decreases ports.len(),
{
    let w = choose|i: int| 0 <= i < ports.len() && (#[trigger] ports[i]).internal == port;
    if ports.last().internal == port {
        ports.len() - 1
    } else {
        let rest = ports.drop_last();
        assert(rest[w] == ports[w]);
        let at = lemma_last_mapping_exists(rest, port);
        assert(rest[at] == ports[at]);
        assert forall|j: int| at < j < ports.len() implies (#[trigger] ports[j]).internal
            != ports[at].internal by {
            if j < rest.len() {
                assert(rest[j] == ports[j]);
            }
        }
        at
    }
}

/// Whether a mapping of `ports` at `from` or later is for `port`.
fn mapped_from(ports: &Vec<PortMapping>, from: usize, port: u16) -> (found: bool)
    requires
        from <= ports.len(),
    ensures
        found == exists|j: int| from <= j < ports.len() && (#[trigger] ports@[j]).internal == port,
{
    let mut j: usize = from;
    while j < ports.len()
        invariant
            from <= j <= ports.len(),
            forall|k: int| from <= k < j ==> (#[trigger] ports@[k]).internal != port,
        decreases ports.len() - j,
    {
        if ports[j].internal == port {
            return true;
        }
        j = j + 1;
    }
    false
}

/// Whether one of the first `upto` exposed ports is `port`.
fn exposed_before(exposed: &Vec<u16>, upto: usize, port: u16) -> (found: bool)
    requires
        upto <= exposed.len(),
    ensures
        found == exists|j: int| 0 <= j < upto && #[trigger] exposed@[j] == port,
{
    let mut j: usize = 0;
    while j < upto
        invariant
            j <= upto <= exposed.len(),
            forall|k: int| 0 <= k < j ==> #[trigger] exposed@[k] != port,
        decreases upto - j,
    {
        if exposed[j] == port {
            return true;
        }
        j = j + 1;
    }
    false
}

/// The entry for a mapped port.
fn fixed_entry(mapping: PortMapping) -> (entry: PortBindingEntry)
    ensures
        entry@.key == port_key(mapping.internal),
        entry@.bindings == seq![
            HostBindingView {
                host_ip: Some(loopback()),
                host_port: match mapping.host {
                    Some(host) => Some(decimal(host as nat)),
                    None => None,
                },
            },
        ],
{
    proof {
        reveal_strlit("127.0.0.1");
        assert("127.0.0.1"@ =~= loopback());
    }
    let host_port = match mapping.host {
        Some(host) => Some(decimal_string(host as u64)),
        None => None,
    };
    let mut bindings: Vec<HostBinding> = Vec::new();
    bindings.push(HostBinding { host_ip: Some(String::from_str("127.0.0.1")), host_port });
    let entry = PortBindingEntry { key: port_key_string(mapping.internal), bindings };
    assert(entry@.bindings =~= seq![
        HostBindingView {
            host_ip: Some(loopback()),
            host_port: match mapping.host {
                Some(host) => Some(decimal(host as nat)),
                None => None,
            },
        },
    ]);
    entry
}

/// The entry for a port that is only exposed.
fn auto_entry(port: u16) -> (entry: PortBindingEntry)
    ensures
        entry@.key == port_key(port),
        entry@.bindings == seq![HostBindingView { host_ip: None, host_port: None }],
{
    let mut bindings: Vec<HostBinding> = Vec::new();
    bindings.push(HostBinding { host_ip: None, host_port: None });
    let entry = PortBindingEntry { key: port_key_string(port), bindings };
    assert(entry@.bindings =~= seq![HostBindingView { host_ip: None, host_port: None }]);
    entry
}

/// What holds of the entries built so far: entry `k` is the one for the port
/// `nums[k]`, and no port has two entries.
spec fn built(entries: Seq<PortBindingEntry>, nums: Seq<u16>, image: ImageView) -> bool {
    &&& entries.len() == nums.len()
    &&& forall|k: int|
        0 <= k < nums.len() ==> {
            &&& is_bound(image, #[trigger] nums[k])
            &&& entries[k]@.key == port_key(nums[k])
            &&& entries[k]@.bindings == seq![binding_of(image, nums[k])]
        }
    &&& forall|a: int, b: int| 0 <= a < b < nums.len() ==> #[trigger] nums[a] != #[trigger] nums[b]
}

/// Entries built port by port, one for every bound port, are the image's
/// port bindings.
proof fn lemma_built_publishes(entries: Seq<PortBindingEntry>, nums: Seq<u16>, image: ImageView)
    requires
        built(entries, nums, image),
        forall|port: u16| is_bound(image, port) ==> nums.contains(port),
    ensures
        publishes(entry_views(entries), image),
{
    let views = entry_views(entries);
    assert forall|i: int, j: int| 0 <= i < j < views.len() implies (#[trigger] views[i]).key != (
    #[trigger] views[j]).key by {
        if views[i].key == views[j].key {
            assert(nums[i] != nums[j]);
            lemma_port_key_injective(nums[i], nums[j]);
        }
    }
    assert forall|i: int| 0 <= i < views.len() implies is_due(#[trigger] views[i], image) by {
        assert(entry_is_for(views[i], image, nums[i]));
    }
    assert forall|port: u16| is_bound(image, port) implies has_entry_for(views, port) by {
        assert(nums.contains(port));
        let i = choose|i: int| 0 <= i < nums.len() && nums[i] == port;
        assert(views[i].key == port_key(port));
    }
}

/// The port bindings that `image` asks for.
pub fn port_bindings(image: &RunnableImage) -> (entries: Vec<PortBindingEntry>)
    ensures
        publishes(entry_views(entries@), image@),
{
    let ports = image.ports();
    let exposed = image.expose_ports();
    let mut entries: Vec<PortBindingEntry> = Vec::new();
    let ghost mut nums: Seq<u16> = Seq::empty();
    let mut i: usize = 0;
    while i < ports.len()
        invariant
            i <= ports.len(),
            ports@ == image@.ports,
            built(entries@, nums, image@),
            forall|p: u16|
                nums.contains(p) <==> exists|j: int|
                    0 <= j < i && (#[trigger] ports@[j]).internal == p && is_last_for_port(
                        ports@,
                        j,
                    ),
        decreases ports.len() - i,
    {
        let mapping = ports[i];
        let ghost old_nums = nums;
        if !mapped_from(ports, i + 1, mapping.internal) {
            let entry = fixed_entry(mapping);
            proof {
                assert(is_last_for_port(ports@, i as int));
                lemma_declared_host_is_last(ports@, i as int);
                assert(is_mapped(image@.ports, mapping.internal));
                assert(!nums.contains(mapping.internal)) by {
                    if nums.contains(mapping.internal) {
                        let j = choose|j: int|
                            0 <= j < i && (#[trigger] ports@[j]).internal == mapping.internal
                                && is_last_for_port(ports@, j);
                        assert(ports@[i as int].internal != ports@[j].internal);
                    }
                }
                nums = nums.push(mapping.internal);
            }
            entries.push(entry);
            proof {
                assert forall|a: int, b: int| 0 <= a < b < nums.len() implies #[trigger] nums[a]
                    != #[trigger] nums[b] by {
                    if b == old_nums.len() {
                        assert(old_nums.contains(old_nums[a]));
                    } else {
                        assert(old_nums[a] != old_nums[b]);
                    }
                }
            }
        }
        proof {
            assert forall|p: u16|
                nums.contains(p) <==> exists|j: int|
                    0 <= j < i + 1 && (#[trigger] ports@[j]).internal == p && is_last_for_port(
                        ports@,
                        j,
                    ) by {
                if nums.contains(p) {
                    let k = choose|k: int| 0 <= k < nums.len() && nums[k] == p;
                    if k < old_nums.len() {
                        assert(old_nums.contains(p));
                    } else {
                        assert(ports@[i as int].internal == p && is_last_for_port(ports@, i as int));
                    }
                }
                if exists|j: int|
                    0 <= j < i + 1 && (#[trigger] ports@[j]).internal == p && is_last_for_port(
                        ports@,
                        j,
                    ) {
                    let j = choose|j: int|
                        0 <= j < i + 1 && (#[trigger] ports@[j]).internal == p
                            && is_last_for_port(ports@, j);
                    if j < i {
                        assert(old_nums.contains(p));
                        let k = choose|k: int| 0 <= k < old_nums.len() && old_nums[k] == p;
                        assert(nums[k] == p);
                    } else {
                        assert(nums[nums.len() - 1] == p);
                    }
                }
            }
        }
        i = i + 1;
    }
    proof {
        assert forall|p: u16| nums.contains(p) <==> is_mapped(image@.ports, p) by {
            if nums.contains(p) {
                let j = choose|j: int|
                    0 <= j < i && (#[trigger] ports@[j]).internal == p && is_last_for_port(
                        ports@,
                        j,
                    );
            }
            if is_mapped(image@.ports, p) {
                let at = lemma_last_mapping_exists(ports@, p);
                assert(ports@[at].internal == p && is_last_for_port(ports@, at));
            }
        }
    }
    let mut e: usize = 0;
    while e < exposed.len()
        invariant
            e <= exposed.len(),
            ports@ == image@.ports,
            exposed@ == image@.exposed_ports,
            built(entries@, nums, image@),
            forall|p: u16|
                nums.contains(p) <==> (is_mapped(image@.ports, p) || exists|j: int|
                    0 <= j < e && #[trigger] exposed@[j] == p),
        decreases exposed.len() - e,
    {
        let port = exposed[e];
        let ghost old_nums = nums;
        let mapped = mapped_from(ports, 0, port);
        let seen = exposed_before(exposed, e, port);
        assert(mapped == is_mapped(image@.ports, port));
        if !mapped && !seen {
            let entry = auto_entry(port);
            proof {
                assert(exposed@[e as int] == port);
                assert(image@.exposed_ports.contains(port));
                assert(!nums.contains(port));
                nums = nums.push(port);
            }
            entries.push(entry);
            proof {
                assert forall|a: int, b: int| 0 <= a < b < nums.len() implies #[trigger] nums[a]
                    != #[trigger] nums[b] by {
                    if b == old_nums.len() {
                        assert(old_nums.contains(old_nums[a]));
                    } else {
                        assert(old_nums[a] != old_nums[b]);
                    }
                }
            }
        }
        proof {
            assert forall|p: u16|
                nums.contains(p) <==> (is_mapped(image@.ports, p) || exists|j: int|
                    0 <= j < e + 1 && #[trigger] exposed@[j] == p) by {
                if nums.contains(p) {
                    let k = choose|k: int| 0 <= k < nums.len() && nums[k] == p;
                    if k < old_nums.len() {
                        assert(old_nums.contains(p));
                    } else {
                        assert(exposed@[e as int] == p);
                    }
                }
                if is_mapped(image@.ports, p) || exists|j: int|
                    0 <= j < e + 1 && #[trigger] exposed@[j] == p {
                    if is_mapped(image@.ports, p) || exists|j: int|
                        0 <= j < e && #[trigger] exposed@[j] == p {
                        assert(old_nums.contains(p));
                        let k = choose|k: int| 0 <= k < old_nums.len() && old_nums[k] == p;
                        assert(nums[k] == p);
                    } else {
                        assert(p == port);
                        assert(nums[nums.len() - 1] == p);
                    }
                }
            }
        }
        e = e + 1;
    }
    proof {
        assert forall|p: u16| is_bound(image@, p) implies nums.contains(p) by {
            if !is_mapped(image@.ports, p) {
                let j = choose|j: int| 0 <= j < exposed@.len() && exposed@[j] == p;
                assert(exposed@[j] == p);
            }
        }
        lemma_built_publishes(entries@, nums, image@);
    }
    entries
}

/// The host side of a create request.
#[derive(Debug, PartialEq, Eq)]
pub struct HostConfig {
    pub shm_size: Option<i64>,
    pub network_mode: Option<String>,
    pub port_bindings: Option<Vec<PortBindingEntry>>,
    pub publish_all_ports: Option<bool>,
}

pub struct HostConfigView {
    pub shm_size: Option<i64>,
    pub network_mode: Option<Seq<char>>,
    pub port_bindings: Option<Seq<PortBindingEntryView>>,
    pub publish_all_ports: Option<bool>,
}

impl View for HostConfig {
    type V = HostConfigView;

    open spec fn view(&self) -> HostConfigView {
        HostConfigView {
            shm_size: self.shm_size,
            network_mode: opt_text(self.network_mode),
            port_bindings: match self.port_bindings {
                Some(entries) => Some(entry_views(entries@)),
                None => None,
            },
            publish_all_ports: self.publish_all_ports,
        }
    }
}

/// The view of a list of texts that may be absent.
pub open spec fn opt_texts(o: Option<Vec<String>>) -> Option<Seq<Seq<char>>> {
    match o {
        Some(v) => Some(texts(v@)),
        None => None,
    }
}

/// What the engine is asked to create a container from.
#[derive(Debug, PartialEq, Eq)]
pub struct ContainerConfig {
    pub image: Option<String>,
    pub env: Option<Vec<String>>,
    pub volumes: Option<Vec<String>>,
    pub entrypoint: Option<Vec<String>>,
    pub exposed_ports: Option<Vec<String>>,
    pub cmd: Option<Vec<String>>,
    pub host_config: Option<HostConfig>,
}

pub struct ContainerConfigView {
    pub image: Option<Seq<char>>,
    pub env: Option<Seq<Seq<char>>>,
    pub volumes: Option<Seq<Seq<char>>>,
    pub entrypoint: Option<Seq<Seq<char>>>,
    pub exposed_ports: Option<Seq<Seq<char>>>,
    pub cmd: Option<Seq<Seq<char>>>,
    pub host_config: Option<HostConfigView>,
}

impl View for ContainerConfig {
    type V = ContainerConfigView;

    open spec fn view(&self) -> ContainerConfigView {
        ContainerConfigView {
            image: opt_text(self.image),
            env: opt_texts(self.env),
            volumes: opt_texts(self.volumes),
            entrypoint: opt_texts(self.entrypoint),
            exposed_ports: opt_texts(self.exposed_ports),
            cmd: opt_texts(self.cmd),
            host_config: match self.host_config {
                Some(h) => Some(h@),
                None => None,
            },
        }
    }
}

/// A create request: the container's name, where it has one, and its
/// configuration.
#[derive(Debug, PartialEq, Eq)]
pub struct CreateRequest {
    pub name: Option<String>,
    pub config: ContainerConfig,
}

pub struct CreateRequestView {
    pub name: Option<Seq<char>>,
    pub config: ContainerConfigView,
}

impl View for CreateRequest {
    type V = CreateRequestView;

    open spec fn view(&self) -> CreateRequestView {
        CreateRequestView { name: opt_text(self.name), config: self.config@ }
    }
}

/// The environment of the container: one `name=value` for each variable.
pub open spec fn env_entries(image: ImageView) -> Seq<Seq<char>> {
    Seq::new(
        image.env_vars.len(),
        |i: int| image.env_vars[i].0 + seq!['='] + image.env_vars[i].1,
    )
}

/// The volumes of the container: one `source:target` for each mount.
pub open spec fn volume_entries(image: ImageView) -> Seq<Seq<char>> {
    Seq::new(image.volumes.len(), |i: int| image.volumes[i].0 + seq![':'] + image.volumes[i].1)
}

/// The keys of the exposed ports.
pub open spec fn exposed_keys(image: ImageView) -> Seq<Seq<char>> {
    Seq::new(image.exposed_ports.len(), |i: int| port_key(image.exposed_ports[i]))
}

/// A size in bytes as the engine takes it: a signed number of the same 64
/// bits.
pub open spec fn shm_bytes(bytes: u64) -> i64 {
    bytes as i64
}

/// `host` is the host configuration that `image` amounts to. With no port
/// named by the image, all ports that the image itself exposes are published
/// and no binding is listed; with a port named, the bindings of `image` are
/// listed and the publish-all flag is left alone.
pub open spec fn hosts(host: HostConfigView, image: ImageView) -> bool {
    &&& host.shm_size == match image.shm_size {
        Some(bytes) => Some(shm_bytes(bytes)),
        None => None,
    }
    &&& host.network_mode == image.network
    &&& if declares_ports(image) {
        &&& host.publish_all_ports is None
        &&& host.port_bindings matches Some(entries)
        &&& publishes(entries, image)
    } else {
        &&& host.publish_all_ports == Some(true)
        &&& host.port_bindings is None
    }
}

/// `request` is the create request that `image` amounts to.
pub open spec fn describes(request: CreateRequestView, image: ImageView) -> bool {
    &&& request.name == image.container_name
    &&& request.config.image == Some(image.descriptor)
    &&& request.config.env == Some(env_entries(image))
    &&& request.config.volumes == Some(volume_entries(image))
    &&& request.config.entrypoint == match image.entrypoint {
        Some(entrypoint) => Some(seq![entrypoint]),
        None => None,
    }
    &&& request.config.exposed_ports == Some(exposed_keys(image))
    &&& request.config.cmd == if image.args.len() > 0 {
        Some(image.args)
    } else {
        None
    }
    &&& request.config.host_config matches Some(host)
    &&& hosts(host, image)
}

/// Joins the two parts of each pair with `separator` between them.
fn join_pairs(pairs: &Vec<(String, String)>, separator: &str) -> (out: Vec<String>)
    ensures
        out.len() == pairs.len(),
        forall|i: int|
            0 <= i < pairs.len() ==> (#[trigger] out@[i])@ == pairs@[i].0@ + separator@
                + pairs@[i].1@,
{
    let mut out: Vec<String> = Vec::new();
    let mut i: usize = 0;
    while i < pairs.len()
        invariant
            i <= pairs.len(),
            out.len() == i,
            forall|j: int|
                0 <= j < i ==> (#[trigger] out@[j])@ == pairs@[j].0@ + separator@ + pairs@[j].1@,
        decreases pairs.len() - i,
    {
        let mut joined = pairs[i].0.clone();
        joined.append(separator);
        joined.append(pairs[i].1.as_str());
        out.push(joined);
        i = i + 1;
    }
    out
}

/// The host configuration that `image` asks for.
pub fn host_config(image: &RunnableImage) -> (host: HostConfig)
    ensures
        hosts(host@, image@),
{
    let shm_size = match image.shm_size() {
        Some(bytes) => Some(#[verifier::truncate] (bytes as i64)),
        None => None,
    };
    let network_mode = copy_opt_text(image.network());
    if image.ports().len() > 0 || image.expose_ports().len() > 0 {
        HostConfig {
            shm_size,
            network_mode,
            port_bindings: Some(port_bindings(image)),
            publish_all_ports: None,
        }
    } else {
        HostConfig { shm_size, network_mode, port_bindings: None, publish_all_ports: Some(true) }
    }
}

/// The create request that `image` amounts to.
pub fn create_request(image: &RunnableImage) -> (request: CreateRequest)
    ensures
        describes(request@, image@),
{
    let env = join_pairs(image.env_vars(), "=");
    let volumes = join_pairs(image.volumes(), ":");
    proof {
        reveal_strlit("=");
        reveal_strlit(":");
        assert("="@ =~= seq!['=']);
        assert(":"@ =~= seq![':']);
        assert(texts(env@) =~= env_entries(image@));
        assert(texts(volumes@) =~= volume_entries(image@));
    }
    let exposed = image.expose_ports();
    let mut exposed_ports: Vec<String> = Vec::new();
    let mut i: usize = 0;
    while i < exposed.len()
        invariant
            i <= exposed.len(),
            exposed_ports.len() == i,
            forall|j: int| 0 <= j < i ==> (#[trigger] exposed_ports@[j])@ == port_key(exposed@[j]),
        decreases exposed.len() - i,
    {
        exposed_ports.push(port_key_string(exposed[i]));
        i = i + 1;
    }
    assert(texts(exposed_ports@) =~= exposed_keys(image@));
    let entrypoint = match image.entrypoint() {
        Some(entrypoint) => {
            let mut list: Vec<String> = Vec::new();
            list.push(entrypoint.clone());
            assert(texts(list@) =~= seq![entrypoint@]);
            Some(list)
        },
        None => None,
    };
    let cmd = if image.args().len() > 0 {
        Some(copy_texts(image.args()))
    } else {
        None
    };
    CreateRequest {
        name: copy_opt_text(image.container_name()),
        config: ContainerConfig {
            image: Some(image.descriptor().clone()),
            env: Some(env),
            volumes: Some(volumes),
            entrypoint,
            exposed_ports: Some(exposed_ports),
            cmd,
            host_config: Some(host_config(image)),
        },
    }
}

/// A size that fits the engine's signed number is passed on as it is.
pub proof fn lemma_shm_bytes_small(bytes: u64)
    requires
        bytes <= i64::MAX,
    ensures
        shm_bytes(bytes) == bytes,
{
    assert(bytes <= 0x7fff_ffff_ffff_ffffu64 ==> (bytes as i64) as u64 == bytes) by (bit_vector);
    assert(bytes <= 0x7fff_ffff_ffff_ffffu64 ==> (bytes as i64) >= 0) by (bit_vector);
}

/// An image that names no port, mapped or exposed, has every port that it
/// exposes by itself published, and no binding listed.
pub proof fn lemma_no_ports_publish_all(request: CreateRequestView, image: ImageView)
    requires
        describes(request, image),
        image.ports.len() == 0,
        image.exposed_ports.len() == 0,
    ensures
        request.config.host_config->0.publish_all_ports == Some(true),
        request.config.host_config->0.port_bindings is None,
{
}

/// An image that names a port has bindings listed under the keys of the
/// ports that it maps or exposes, and under no other key.
pub proof fn lemma_bindings_keys_exact(
    request: CreateRequestView,
    image: ImageView,
    key: Seq<char>,
)
    requires
        describes(request, image),
        declares_ports(image),
    ensures
        request.config.host_config->0.publish_all_ports is None,
        (exists|i: int|
            0 <= i < request.config.host_config->0.port_bindings->0.len() && (
            #[trigger] request.config.host_config->0.port_bindings->0[i]).key == key) <==> (
        exists|port: u16| is_bound(image, port) && #[trigger] port_key(port) == key),
{
    let entries = request.config.host_config->0.port_bindings->0;
    if exists|i: int| 0 <= i < entries.len() && (#[trigger] entries[i]).key == key {
        let i = choose|i: int| 0 <= i < entries.len() && (#[trigger] entries[i]).key == key;
        assert(is_due(entries[i], image));
        let port = choose|port: u16| entry_is_for(entries[i], image, port);
        assert(is_bound(image, port) && port_key(port) == key);
    }
    if exists|port: u16| is_bound(image, port) && #[trigger] port_key(port) == key {
        let port = choose|port: u16| is_bound(image, port) && #[trigger] port_key(port) == key;
        assert(has_entry_for(entries, port));
    }
}

/// A port that an image binds has its own entry among the image's port
/// bindings, with its own binding: the loopback address and the declared
/// host port where the port is mapped, nothing fixed where it is only
/// exposed.
pub proof fn lemma_bound_port_has_its_binding(
    request: CreateRequestView,
    image: ImageView,
    port: u16,
) -> (at: int)
    requires
        describes(request, image),
        is_bound(image, port),
    ensures
        request.config.host_config->0.port_bindings is Some,
        0 <= at < request.config.host_config->0.port_bindings->0.len(),
        request.config.host_config->0.port_bindings->0[at].key == port_key(port),
        request.config.host_config->0.port_bindings->0[at].bindings == seq![
            binding_of(image, port),
        ],
{
    let entries = request.config.host_config->0.port_bindings->0;
    assert(has_entry_for(entries, port));
    let at = choose|i: int| 0 <= i < entries.len() && (#[trigger] entries[i]).key == port_key(port);
    assert(is_due(entries[at], image));
    let other = choose|other: u16| entry_is_for(entries[at], image, other);
    lemma_port_key_injective(port, other);
    at
}

} // verus!
