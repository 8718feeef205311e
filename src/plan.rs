//! What a rollout is planned from: the old generation of a target group, the
//! replica count, the port, and the names of the new workloads.
use vstd::prelude::*;
use crate::ids::{decimal, decimal_text, random_uuid};
use crate::text::{is_prefix_of, same_text, starts_with};

verus! {

/// A routing target of a service.
#[derive(Debug)]
pub struct ServiceTarget {
    pub id: u128,
    pub instance_id: u128,
    pub target_group: Option<String>,
    pub instance_port: u16,
}

/// A target of the generation being replaced: its id, its workload, its port.
#[derive(Clone, Copy, Debug, PartialEq, Eq, Structural)]
pub struct OldTarget {
    pub target: u128,
    pub workload: u128,
    pub port: u16,
}

/// What a successful rollout leaves of the old generation.
#[derive(Clone, Copy, Debug, PartialEq, Eq, Structural)]
pub enum LeaveBehind {
    /// Old targets are deregistered and old workloads stopped.
    Nothing,
    /// Old targets are deregistered; old workloads keep running.
    Instances,
    /// Old targets and workloads are left as found.
    Targets,
}

/// Why a rollout cannot be planned. Nothing has been changed when one comes.
#[derive(Clone, Copy, Debug, PartialEq, Eq, Structural)]
pub enum PlanError {
    /// A replica count of zero was asked for.
    NoReplicas,
    /// No port was given and the group has no targets to take one from.
    PortRequired,
    /// No port was given and the group's targets disagree on theirs.
    PortsDisagree,
    /// Every four-digit generation marker is taken.
    MarkersExhausted,
}

/// The group a target belongs to: `default` when it names none.
pub open spec fn group_of(t: ServiceTarget) -> Seq<char> {
    match t.target_group {
        Some(g) => g@,
        None => seq!['d', 'e', 'f', 'a', 'u', 'l', 't'],
    }
}

/// The targets of `group`, in order.
pub open spec fn old_generation_of(ts: Seq<ServiceTarget>, group: Seq<char>) -> Seq<OldTarget>
    decreases ts.len(),
{
    if ts.len() == 0 {
        seq![]
    } else {
        let rest = old_generation_of(ts.drop_last(), group);
        let t = ts.last();
        if group_of(t) == group {
            rest.push(OldTarget { target: t.id, workload: t.instance_id, port: t.instance_port })
        } else {
            rest
        }
    }
}

fn group_matches(t: &ServiceTarget, group: &str) -> (r: bool)
    ensures
        r == (group_of(*t) == group@),
{
    match &t.target_group {
        Some(g) => same_text(g.as_str(), group),
        None => {
            proof {
                reveal_strlit("default");
                assert("default"@ =~= seq!['d', 'e', 'f', 'a', 'u', 'l', 't']);
            }
            same_text("default", group)
        },
    }
}

/// Selects the targets of `group`: the old generation of a rollout.
pub fn old_generation(targets: &[ServiceTarget], group: &str) -> (r: Vec<OldTarget>)
    ensures
        r@ == old_generation_of(targets@, group@),
{
    let mut found: Vec<OldTarget> = Vec::new();
    let mut i: usize = 0;
    while i < targets.len()
        invariant
            i <= targets@.len(),
            found@ == old_generation_of(targets@.subrange(0, i as int), group@),
        decreases targets@.len() - i,
    {
        let t = &targets[i];
        assert(targets@.subrange(0, i + 1).drop_last() == targets@.subrange(0, i as int));
        if group_matches(t, group) {
            found.push(OldTarget { target: t.id, workload: t.instance_id, port: t.instance_port });
        }
        i = i + 1;
    }
    assert(targets@.subrange(0, targets@.len() as int) == targets@);
    found
}

/// The replica count: the one asked for, else as many as the old
/// generation has, and at least one.
pub open spec fn planned_replicas(requested: Option<u32>, old_count: nat) -> Result<nat, PlanError> {
    match requested {
        Some(r) => if r == 0 {
            Err(PlanError::NoReplicas)
        } else {
            Ok(r as nat)
        },
        None => Ok(if old_count == 0 {
            1
        } else {
            old_count
        }),
    }
}

/// Works out the replica count.
pub fn resolve_replicas(requested: Option<u32>, old_count: usize) -> (r: Result<usize, PlanError>)
    ensures
        match r {
            Ok(n) => planned_replicas(requested, old_count as nat) == Ok::<nat, PlanError>(n as nat),
            Err(e) => planned_replicas(requested, old_count as nat) == Err::<nat, PlanError>(e),
        },
{
    match requested {
        Some(n) => if n == 0 {
            Err(PlanError::NoReplicas)
        } else {
            Ok(n as usize)
        },
        None => Ok(if old_count == 0 {
            1
        } else {
            old_count
        }),
    }
}

/// Whether every old target forwards to `port`.
pub open spec fn all_on_port(olds: Seq<OldTarget>, port: u16) -> bool {
    forall|i: int| 0 <= i < olds.len() ==> (#[trigger] olds[i]).port == port
}

/// The port of the new targets: the one asked for, else the one port that
/// all old targets share.
pub open spec fn planned_port(requested: Option<u16>, olds: Seq<OldTarget>) -> Result<u16, PlanError> {
    match requested {
        Some(p) => Ok(p),
        None => if olds.len() == 0 {
            Err(PlanError::PortRequired)
        } else if all_on_port(olds, olds[0].port) {
            Ok(olds[0].port)
        } else {
            Err(PlanError::PortsDisagree)
        },
    }
}

/// Works out the port of the new targets.
pub fn resolve_port(requested: Option<u16>, olds: &[OldTarget]) -> (r: Result<u16, PlanError>)
    ensures
        r == planned_port(requested, olds@),
{
    if let Some(p) = requested {
        return Ok(p);
    }
    if olds.len() == 0 {
        return Err(PlanError::PortRequired);
    }
    let port = olds[0].port;
    let mut i: usize = 1;
    while i < olds.len()
        invariant
            requested is None,
            1 <= i <= olds@.len(),
            port == olds@[0].port,
            forall|j: int| 0 <= j < i ==> (#[trigger] olds@[j]).port == port,
        decreases olds@.len() - i,
    {
        if olds[i].port != port {
            assert(olds@[i as int].port != olds@[0].port);
            return Err(PlanError::PortsDisagree);
        }
        i = i + 1;
    }
    assert(all_on_port(olds@, olds@[0].port));
    Ok(port)
}

/// The four lowercase hexadecimal digits of `v`, most significant first.
pub open spec fn hex4(v: u16) -> Seq<char> {
    Seq::new(4, |k: int| crate::ids::hex_char(((v as int) / vstd::arithmetic::power::pow(16, (3 - k) as nat)) % 16))
}

/// Relies on std's `LowerHex` for `u16`, zero-padded to width four.
#[verifier::external_body]
fn hex4_text(v: u16) -> (r: String)
    ensures
        r@ == hex4(v),
{
    format!("{v:04x}")
}

/// The prefix that the names of one generation of a group share.
pub open spec fn generation_prefix(service: Seq<char>, group: Seq<char>, hex: Seq<char>) -> Seq<char> {
    service + seq!['_'] + group + seq!['_'] + hex + seq!['_']
}

/// The name of the new workload with the given index.
pub open spec fn workload_name_of(service: Seq<char>, group: Seq<char>, hex: Seq<char>, index: nat) -> Seq<char> {
    generation_prefix(service, group, hex) + decimal(index)
}

/// Whether no existing name lies in the generation's namespace.
pub open spec fn marker_free(service: Seq<char>, group: Seq<char>, hex: Seq<char>, names: Seq<String>) -> bool {
    forall|i: int| 0 <= i < names.len() ==> !is_prefix_of(generation_prefix(service, group, hex), (#[trigger] names[i])@)
}

fn underscore_after(s: &mut String)
    ensures
        final(s)@ == old(s)@ + seq!['_'],
{
    proof {
        reveal_strlit("_");
        assert("_"@ =~= seq!['_']);
    }
    s.append("_");
}

/// The prefix of a generation's names, as text.
pub fn generation_prefix_text(service: &str, group: &str, hex: &str) -> (r: String)
    ensures
        r@ == generation_prefix(service@, group@, hex@),
{
    let mut s = String::from_str(service);
    underscore_after(&mut s);
    s.append(group);
    underscore_after(&mut s);
    s.append(hex);
    underscore_after(&mut s);
    s
}

/// The name `{service}_{group}_{hex}_{index}` of a new workload.
pub fn workload_name(service: &str, group: &str, hex: &str, index: usize) -> (r: String)
    ensures
        r@ == workload_name_of(service@, group@, hex@, index as nat),
{
    let mut s = generation_prefix_text(service, group, hex);
    let digits = decimal_text(index);
    s.append(digits.as_str());
    s
}

/// Decides whether the marker `hex` leaves every existing name outside the
/// generation's namespace.
pub fn hex_is_free(service: &str, group: &str, hex: &str, existing: &[String]) -> (r: bool)
    ensures
        r == marker_free(service@, group@, hex@, existing@),
{
    let prefix = generation_prefix_text(service, group, hex);
    let mut i: usize = 0;
    while i < existing.len()
        invariant
            i <= existing@.len(),
            prefix@ == generation_prefix(service@, group@, hex@),
            forall|j: int| 0 <= j < i ==> !is_prefix_of(prefix@, (#[trigger] existing@[j])@),
        decreases existing@.len() - i,
    {
        if starts_with(existing[i].as_str(), prefix.as_str()) {
            return false;
        }
        i = i + 1;
    }
    true
}

/// How many random markers are drawn before the markers are tried in order.
pub const RANDOM_DRAWS: usize = 32;

/// Picks a four-digit generation marker that no existing name uses under
/// `{service}_{group}_`: a random one where a few draws find one, else the
/// first free one in order. Fails only where every marker is taken.
pub fn generate_deploy_hex(service: &str, group: &str, existing: &[String]) -> (r: Result<String, PlanError>)
    ensures
        r matches Ok(h) ==> marker_free(service@, group@, h@, existing@) && exists|v: u16| h@ == hex4(v),
        r matches Err(e) ==> e == PlanError::MarkersExhausted && forall|v: u16| !marker_free(service@, group@, #[trigger] hex4(v), existing@),
{
    let mut draw: usize = 0;
    while draw < RANDOM_DRAWS
        decreases RANDOM_DRAWS - draw,
    {
        let v = (random_uuid() >> 112u32) as u16;
        let candidate = hex4_text(v);
        if hex_is_free(service, group, candidate.as_str(), existing) {
            return Ok(candidate);
        }
        draw = draw + 1;
    }
    let mut v: u32 = 0;
    while v < 0x10000
        invariant
            v <= 0x10000,
            forall|w: u16| (w as u32) < v ==> !marker_free(service@, group@, #[trigger] hex4(w), existing@),
        decreases 0x10000 - v,
    {
        let candidate = hex4_text(v as u16);
        if hex_is_free(service, group, candidate.as_str(), existing) {
            return Ok(candidate);
        }
        v = v + 1;
    }
    Err(PlanError::MarkersExhausted)
}

} // verus!
