//! The remote resources that identifiers resolve against.
use vstd::prelude::*;
use crate::resolve::{
    entries, resolution, resolve_id, tagged, EntityKind, Identifiable, ResolveError,
};
use crate::ids::uuid_parse;
use crate::text::{parse_unsigned, same_text, split_once, split_once_of, unsigned_value};

verus! {

/// The lifecycle state of a workload, as far as the logic reads it.
#[derive(Clone, Copy, Debug, PartialEq, Eq, Structural)]
pub enum WorkloadState {
    Running,
    Other,
}

/// The text by which the server marks a serving workload.
pub open spec fn running_text() -> Seq<char> {
    seq!['r', 'u', 'n', 'n', 'i', 'n', 'g']
}

impl WorkloadState {
    /// Reads the server's open vocabulary: only `running` is told apart.
    pub fn from_text(s: &str) -> (r: WorkloadState)
        ensures
            (r == WorkloadState::Running) == (s@ == running_text()),
    {
        proof {
            reveal_strlit("running");
            assert("running"@ =~= running_text());
        }
        if same_text(s, "running") {
            WorkloadState::Running
        } else {
            WorkloadState::Other
        }
    }
}

/// A service as listed.
#[derive(Debug)]
pub struct Service {
    pub id: u128,
    pub name: String,
    pub service_type: String,
}

/// A workload (instance) as listed.
#[derive(Debug)]
pub struct InstanceResponse {
    pub id: u128,
    pub name: Option<String>,
    pub state: WorkloadState,
}

/// A network as listed.
#[derive(Debug)]
pub struct NetworkListItem {
    pub id: u128,
    pub name: String,
    pub ipv4_cidr: String,
    pub instance_count: Option<i64>,
}

/// A claimed host (domain) as listed.
#[derive(Debug)]
pub struct HostResponse {
    pub id: u128,
    pub host: String,
    pub service_id: Option<u128>,
}

impl Identifiable for Service {
    open spec fn spec_id(&self) -> u128 {
        self.id
    }

    open spec fn spec_name(&self) -> Option<Seq<char>> {
        Some(self.name@)
    }

    fn id(&self) -> (r: u128) {
        self.id
    }

    fn name(&self) -> (r: Option<&str>) {
        Some(self.name.as_str())
    }
}

impl Identifiable for InstanceResponse {
    open spec fn spec_id(&self) -> u128 {
        self.id
    }

    open spec fn spec_name(&self) -> Option<Seq<char>> {
        match &self.name {
            Some(n) => Some(n@),
            None => None,
        }
    }

    fn id(&self) -> (r: u128) {
        self.id
    }

    fn name(&self) -> (r: Option<&str>) {
        match &self.name {
            Some(n) => Some(n.as_str()),
            None => None,
        }
    }
}

impl Identifiable for NetworkListItem {
    open spec fn spec_id(&self) -> u128 {
        self.id
    }

    open spec fn spec_name(&self) -> Option<Seq<char>> {
        Some(self.name@)
    }

    fn id(&self) -> (r: u128) {
        self.id
    }

    fn name(&self) -> (r: Option<&str>) {
        Some(self.name.as_str())
    }
}

impl Identifiable for HostResponse {
    open spec fn spec_id(&self) -> u128 {
        self.id
    }

    open spec fn spec_name(&self) -> Option<Seq<char>> {
        Some(self.host@)
    }

    fn id(&self) -> (r: u128) {
        self.id
    }

    fn name(&self) -> (r: Option<&str>) {
        Some(self.host.as_str())
    }
}

impl<'a, T: Identifiable> Identifiable for &'a T {
    open spec fn spec_id(&self) -> u128 {
        (**self).spec_id()
    }

    open spec fn spec_name(&self) -> Option<Seq<char>> {
        (**self).spec_name()
    }

    fn id(&self) -> (r: u128) {
        (**self).id()
    }

    fn name(&self) -> (r: Option<&str>) {
        (**self).name()
    }
}

/// Resolves a service by UUID, name or UUID prefix.
pub fn resolve_service_id(input: &str, services: &[Service]) -> (r: Result<u128, ResolveError>)
    ensures
        r == tagged(resolution(uuid_parse(input@), input@, entries(services@)), EntityKind::Service),
{
    resolve_id(input, services, EntityKind::Service)
}

/// Resolves a network by UUID, name or UUID prefix.
pub fn resolve_network_id(input: &str, networks: &[NetworkListItem]) -> (r: Result<u128, ResolveError>)
    ensures
        r == tagged(resolution(uuid_parse(input@), input@, entries(networks@)), EntityKind::Network),
{
    resolve_id(input, networks, EntityKind::Network)
}

/// Resolves a host by UUID, domain or UUID prefix.
pub fn resolve_host_id(input: &str, hosts: &[HostResponse]) -> (r: Result<u128, ResolveError>)
    ensures
        r == tagged(resolution(uuid_parse(input@), input@, entries(hosts@)), EntityKind::Host),
{
    resolve_id(input, hosts, EntityKind::Host)
}

/// The running workloads of a list, in order.
pub open spec fn running_of(items: Seq<InstanceResponse>) -> Seq<InstanceResponse>
    decreases items.len(),
{
    if items.len() == 0 {
        seq![]
    } else {
        let rest = running_of(items.drop_last());
        if items.last().state == WorkloadState::Running {
            rest.push(items.last())
        } else {
            rest
        }
    }
}

/// Resolves a workload by UUID, or among the running workloads by name or
/// UUID prefix.
pub fn resolve_uuid(input: &str, instances: &[InstanceResponse]) -> (r: Result<u128, ResolveError>)
    ensures
        r == tagged(
            resolution(uuid_parse(input@), input@, entries(running_of(instances@))),
            EntityKind::Workload,
        ),
{
    let mut running: Vec<&InstanceResponse> = Vec::new();
    let mut i: usize = 0;
    while i < instances.len()
        invariant
            i <= instances@.len(),
            entries(running@) == entries(running_of(instances@.subrange(0, i as int))),
        decreases instances@.len() - i,
    {
        let item = &instances[i];
        let ghost before = instances@.subrange(0, i as int);
        let ghost after = instances@.subrange(0, i + 1);
        assert(after.drop_last() == before);
        let ghost old_running = running@;
        if item.state == WorkloadState::Running {
            running.push(item);
            assert(entries(running@) == entries(old_running).push((item.id, item.spec_name())));
        }
        i = i + 1;
    }
    assert(instances@.subrange(0, instances@.len() as int) == instances@);
    resolve_id(input, running.as_slice(), EntityKind::Workload)
}

/// Why a `workload:port` target was refused.
#[derive(Clone, Copy, Debug, PartialEq, Eq, Structural)]
pub enum TargetError {
    /// The text is not two parts around a single `:`.
    Format,
    /// The workload part does not resolve.
    Workload(ResolveError),
    /// The port part is not a port number.
    Port,
}

/// Whether `c` occurs in `s`.
pub open spec fn holds_char(s: Seq<char>, c: char) -> bool {
    exists|i: int| 0 <= i < s.len() && s[i] == c
}

/// The workload and port that a `workload:port` text names, the workload
/// resolved among `instances` as `resolve_uuid` does.
pub open spec fn target_of(s: Seq<char>, instances: Seq<InstanceResponse>) -> Result<(u128, u16), TargetError> {
    match split_once_of(s, ':') {
        Some(parts) if !holds_char(parts.1, ':') => match tagged(
            resolution(uuid_parse(parts.0), parts.0, entries(running_of(instances))),
            EntityKind::Workload,
        ) {
            Err(e) => Err(TargetError::Workload(e)),
            Ok(id) => match unsigned_value(parts.1, 65535) {
                Some(port) => Ok((id, port as u16)),
                None => Err(TargetError::Port),
            },
        },
        _ => Err(TargetError::Format),
    }
}

fn has_char(s: &str, c: char) -> (r: bool)
    ensures
        r == holds_char(s@, c),
{
    let n = s.unicode_len();
    let mut i: usize = 0;
    while i < n
        invariant
            n == s@.len(),
            i <= n,
            forall|j: int| 0 <= j < i ==> s@[j] != c,
        decreases n - i,
    {
        if s.get_char(i) == c {
            return true;
        }
        i = i + 1;
    }
    false
}

/// Reads a `workload:port` target: a workload by UUID, name or UUID prefix
/// among the running ones, and a port.
pub fn parse_target(target: &str, instances: &[InstanceResponse]) -> (r: Result<(u128, u16), TargetError>)
    ensures
        r == target_of(target@, instances@),
{
    let (workload, port) = match split_once(target, ':') {
        Some(parts) => parts,
        None => {
            return Err(TargetError::Format);
        },
    };
    if has_char(port.as_str(), ':') {
        return Err(TargetError::Format);
    }
    let id = match resolve_uuid(workload.as_str(), instances) {
        Ok(id) => id,
        Err(e) => {
            return Err(TargetError::Workload(e));
        },
    };
    match parse_unsigned(port.as_str(), 65535) {
        Some(p) => Ok((id, p as u16)),
        None => Err(TargetError::Port),
    }
}

} // verus!
