//! The rolling replacement of a target group's workloads, as a state machine:
//! it names the next remote action, is told how that action went, and owns
//! the rollback and retirement policy. Whoever drives it performs the actions.
use vstd::prelude::*;
use crate::plan::{
    generate_deploy_hex, marker_free, old_generation, old_generation_of, planned_port,
    planned_replicas, resolve_port, resolve_replicas, workload_name, workload_name_of, hex4,
    LeaveBehind, OldTarget, PlanError, ServiceTarget,
};

verus! {

/// Everything a rollout is decided from, worked out before any change.
#[derive(Debug)]
pub struct RolloutPlan {
    service_id: u128,
    service_name: String,
    group: String,
    port: u16,
    replicas: usize,
    deploy_hex: String,
    old: Vec<OldTarget>,
    leave_behind: LeaveBehind,
}

impl RolloutPlan {
    #[verifier::type_invariant]
    closed spec fn has_replicas(&self) -> bool {
        self.replicas >= 1
    }

    /// The service being rolled out.
    pub closed spec fn spec_service_id(&self) -> u128 {
        self.service_id
    }

    /// The service's name, which prefixes the new workloads' names.
    pub closed spec fn spec_service_name(&self) -> Seq<char> {
        self.service_name@
    }

    /// The target group being replaced.
    pub closed spec fn spec_group(&self) -> Seq<char> {
        self.group@
    }

    /// The port the new targets forward to.
    pub closed spec fn spec_port(&self) -> u16 {
        self.port
    }

    /// How many new workloads are created.
    pub closed spec fn spec_replicas(&self) -> nat {
        self.replicas as nat
    }

    /// The generation marker in the new workloads' names.
    pub closed spec fn spec_deploy_hex(&self) -> Seq<char> {
        self.deploy_hex@
    }

    /// The group's targets at planning time: the generation being replaced.
    pub closed spec fn spec_old(&self) -> Seq<OldTarget> {
        self.old@
    }

    /// What the rollout leaves of the old generation.
    pub closed spec fn spec_leave_behind(&self) -> LeaveBehind {
        self.leave_behind
    }

    pub fn service_id(&self) -> (r: u128)
        ensures
            r == self.spec_service_id(),
    {
        self.service_id
    }

    pub fn service_name(&self) -> (r: &str)
        ensures
            r@ == self.spec_service_name(),
    {
        self.service_name.as_str()
    }

    pub fn group(&self) -> (r: &str)
        ensures
            r@ == self.spec_group(),
    {
        self.group.as_str()
    }

    pub fn port(&self) -> (r: u16)
        ensures
            r == self.spec_port(),
    {
        self.port
    }

    pub fn replicas(&self) -> (r: usize)
        ensures
            r as nat == self.spec_replicas(),
            r >= 1,
    {
        proof {
            use_type_invariant(self);
        }
        self.replicas
    }

    pub fn deploy_hex(&self) -> (r: &str)
        ensures
            r@ == self.spec_deploy_hex(),
    {
        self.deploy_hex.as_str()
    }

    pub fn old_targets(&self) -> (r: &[OldTarget])
        ensures
            r@ == self.spec_old(),
    {
        self.old.as_slice()
    }

    pub fn leave_behind(&self) -> (r: LeaveBehind)
        ensures
            r == self.spec_leave_behind(),
    {
        self.leave_behind
    }

    /// The name of the new workload with the given index.
    pub fn workload_name(&self, index: usize) -> (r: String)
        ensures
            r@ == workload_name_of(
                self.spec_service_name(),
                self.spec_group(),
                self.spec_deploy_hex(),
                index as nat,
            ),
    {
        workload_name(self.service_name.as_str(), self.group.as_str(), self.deploy_hex.as_str(), index)
    }
}

/// Plans a rollout of `group` on a service whose targets and name are given,
/// against the names of all existing workloads. Fails, before any change,
/// when zero replicas are asked for, when no port is given and the group's
/// targets do not share exactly one, or when every generation marker is taken.
pub fn plan_rollout(
    service_id: u128,
    service_name: String,
    group: String,
    targets: &[ServiceTarget],
    requested_port: Option<u16>,
    requested_replicas: Option<u32>,
    existing_names: &[String],
    leave_behind: LeaveBehind,
) -> (r: Result<RolloutPlan, PlanError>)
    ensures
        ({
            let olds = old_generation_of(targets@, group@);
            match r {
                Ok(p) => {
                    &&& planned_replicas(requested_replicas, olds.len()) == Ok::<nat, PlanError>(
                        p.spec_replicas(),
                    )
                    &&& planned_port(requested_port, olds) == Ok::<u16, PlanError>(p.spec_port())
                    &&& p.spec_old() == olds
                    &&& p.spec_service_id() == service_id
                    &&& p.spec_service_name() == service_name@
                    &&& p.spec_group() == group@
                    &&& p.spec_leave_behind() == leave_behind
                    &&& marker_free(service_name@, group@, p.spec_deploy_hex(), existing_names@)
                    &&& exists|v: u16| p.spec_deploy_hex() == hex4(v)
                },
                Err(e) => {
                    ||| planned_replicas(requested_replicas, olds.len()) == Err::<nat, PlanError>(e)
                    ||| (planned_replicas(requested_replicas, olds.len()) is Ok && planned_port(
                        requested_port,
                        olds,
                    ) == Err::<u16, PlanError>(e))
                    ||| (planned_replicas(requested_replicas, olds.len()) is Ok && planned_port(
                        requested_port,
                        olds,
                    ) is Ok && e == PlanError::MarkersExhausted && forall|v: u16|
                        !marker_free(service_name@, group@, #[trigger] hex4(v), existing_names@))
                },
            }
        }),
{
    let old = old_generation(targets, group.as_str());
    let replicas = match resolve_replicas(requested_replicas, old.len()) {
        Ok(n) => n,
        Err(e) => {
            return Err(e);
        },
    };
    let port = match resolve_port(requested_port, old.as_slice()) {
        Ok(p) => p,
        Err(e) => {
            return Err(e);
        },
    };
    let deploy_hex = match generate_deploy_hex(service_name.as_str(), group.as_str(), existing_names) {
        Ok(h) => h,
        Err(e) => {
            return Err(e);
        },
    };
    Ok(RolloutPlan { service_id, service_name, group, port, replicas, deploy_hex, old, leave_behind })
}

/// Where a rollout stands. Indices count the replica, the new workload, or
/// the old target that the next action is about.
#[derive(Clone, Copy, Debug, PartialEq, Eq, Structural)]
pub enum RolloutPhase {
    VerifyingImage,
    Provisioning { index: usize },
    AwaitingHealth { index: usize },
    Registering { index: usize },
    Deregistering { index: usize },
    StoppingOld { index: usize },
    RollingBack { index: usize },
    Complete,
    RolledBack,
}

/// The next remote action a rollout asks for.
#[derive(Clone, Copy, Debug, PartialEq, Eq, Structural)]
pub enum RolloutAction {
    /// Check the image reference and obtain a pull credential.
    VerifyImage,
    /// Create the new workload with this index (see `RolloutPlan::workload_name`).
    CreateWorkload { index: usize },
    /// Watch the workload's boot events until it is healthy or has failed.
    AwaitHealth { workload: u128 },
    /// Register the workload as a target at the planned port and group.
    RegisterTarget { workload: u128 },
    /// Deregister an old target.
    RemoveTarget { target: u128 },
    /// Stop a workload.
    StopWorkload { workload: u128 },
    /// Nothing more is to be done: the outcome is final.
    Finish,
}

/// How the last action went: done, done with the id of what it created, or
/// failed with a description.
#[derive(Debug)]
pub enum StepResult {
    Done,
    Created(u128),
    Failed(String),
}

/// The step at which a rollout failed.
#[derive(Clone, Copy, Debug, PartialEq, Eq, Structural)]
pub enum FailureKind {
    /// The image was rejected or a workload could not be created.
    Provision,
    /// A new workload did not pass its health confirmation.
    HealthCheck,
    /// A new workload could not be registered as a target.
    Registration,
}

/// A rollout's failure: its step and the description the step gave. The
/// description is empty where a create step returned no id.
#[derive(Debug)]
pub struct RolloutError {
    pub kind: FailureKind,
    pub detail: String,
}

/// The abstract state of a rollout.
pub struct RolloutView {
    pub replicas: nat,
    pub old: Seq<OldTarget>,
    pub leave_behind: LeaveBehind,
    pub phase: RolloutPhase,
    pub created: Seq<u128>,
    pub registered: Seq<u128>,
    pub failure: Option<(FailureKind, Seq<char>)>,
    pub unfinished: Seq<u128>,
}

/// The state with another phase.
pub open spec fn with_phase(v: RolloutView, phase: RolloutPhase) -> RolloutView {
    RolloutView {
        replicas: v.replicas,
        old: v.old,
        leave_behind: v.leave_behind,
        phase,
        created: v.created,
        registered: v.registered,
        failure: v.failure,
        unfinished: v.unfinished,
    }
}

/// The state after a best-effort step about `id` went as `r` says: a
/// failure is noted and changes nothing else.
pub open spec fn noted(v: RolloutView, r: StepResult, id: u128) -> RolloutView {
    if r is Failed {
        RolloutView {
            replicas: v.replicas,
            old: v.old,
            leave_behind: v.leave_behind,
            phase: v.phase,
            created: v.created,
            registered: v.registered,
            failure: v.failure,
            unfinished: v.unfinished.push(id),
        }
    } else {
        v
    }
}

/// The phase after the last old target has been deregistered, or in place
/// of deregistering: stopping old workloads if they are to go, else done.
pub open spec fn stop_start(v: RolloutView) -> RolloutPhase {
    if v.old.len() > 0 && v.leave_behind == LeaveBehind::Nothing {
        RolloutPhase::StoppingOld { index: 0 }
    } else {
        RolloutPhase::Complete
    }
}

/// The phase after the new generation is registered: retiring the old one
/// as the leave-behind policy says.
pub open spec fn retire_start(v: RolloutView) -> RolloutPhase {
    if v.old.len() > 0 && v.leave_behind != LeaveBehind::Targets {
        RolloutPhase::Deregistering { index: 0 }
    } else {
        stop_start(v)
    }
}

/// The state after a fatal failure: every workload created in this attempt
/// is to be stopped, and nothing else touched.
pub open spec fn failed(v: RolloutView, kind: FailureKind, detail: Seq<char>) -> RolloutView {
    RolloutView {
        replicas: v.replicas,
        old: v.old,
        leave_behind: v.leave_behind,
        phase: if v.created.len() > 0 {
            RolloutPhase::RollingBack { index: 0 }
        } else {
            RolloutPhase::RolledBack
        },
        created: v.created,
        registered: v.registered,
        failure: Some((kind, detail)),
        unfinished: v.unfinished,
    }
}

/// The description a failed step gave; empty for any other result.
pub open spec fn detail_of(r: StepResult) -> Seq<char> {
    match r {
        StepResult::Failed(d) => d@,
        _ => seq![],
    }
}

/// The state after the current action went as `r` says.
pub open spec fn step(v: RolloutView, r: StepResult) -> RolloutView {
    match v.phase {
        RolloutPhase::VerifyingImage => match r {
            StepResult::Failed(d) => failed(v, FailureKind::Provision, d@),
            _ => with_phase(v, RolloutPhase::Provisioning { index: 0 }),
        },
        RolloutPhase::Provisioning { index } => match r {
            StepResult::Created(w) => RolloutView {
                replicas: v.replicas,
                old: v.old,
                leave_behind: v.leave_behind,
                phase: RolloutPhase::AwaitingHealth { index },
                created: v.created.push(w),
                registered: v.registered,
                failure: v.failure,
                unfinished: v.unfinished,
            },
            _ => failed(v, FailureKind::Provision, detail_of(r)),
        },
        RolloutPhase::AwaitingHealth { index } => match r {
            StepResult::Failed(d) => failed(v, FailureKind::HealthCheck, d@),
            _ => with_phase(
                v,
                if index + 1 < v.replicas {
                    RolloutPhase::Provisioning { index: (index + 1) as usize }
                } else {
                    RolloutPhase::Registering { index: 0 }
                },
            ),
        },
        RolloutPhase::Registering { index } => match r {
            StepResult::Created(t) => RolloutView {
                replicas: v.replicas,
                old: v.old,
                leave_behind: v.leave_behind,
                phase: if index + 1 < v.created.len() {
                    RolloutPhase::Registering { index: (index + 1) as usize }
                } else {
                    retire_start(v)
                },
                created: v.created,
                registered: v.registered.push(t),
                failure: v.failure,
                unfinished: v.unfinished,
            },
            _ => failed(v, FailureKind::Registration, detail_of(r)),
        },
        RolloutPhase::Deregistering { index } => noted(
            with_phase(
                v,
                if index + 1 < v.old.len() {
                    RolloutPhase::Deregistering { index: (index + 1) as usize }
                } else {
                    stop_start(v)
                },
            ),
            r,
            v.old[index as int].target,
        ),
        RolloutPhase::StoppingOld { index } => noted(
            with_phase(
                v,
                if index + 1 < v.old.len() {
                    RolloutPhase::StoppingOld { index: (index + 1) as usize }
                } else {
                    RolloutPhase::Complete
                },
            ),
            r,
            v.old[index as int].workload,
        ),
        RolloutPhase::RollingBack { index } => noted(
            with_phase(
                v,
                if index + 1 < v.created.len() {
                    RolloutPhase::RollingBack { index: (index + 1) as usize }
                } else {
                    RolloutPhase::RolledBack
                },
            ),
            r,
            v.created[index as int],
        ),
        _ => v,
    }
}

/// The action a state asks for.
pub open spec fn action_of(v: RolloutView) -> RolloutAction {
    match v.phase {
        RolloutPhase::VerifyingImage => RolloutAction::VerifyImage,
        RolloutPhase::Provisioning { index } => RolloutAction::CreateWorkload { index },
        RolloutPhase::AwaitingHealth { index } => RolloutAction::AwaitHealth {
            workload: v.created[index as int],
        },
        RolloutPhase::Registering { index } => RolloutAction::RegisterTarget {
            workload: v.created[index as int],
        },
        RolloutPhase::Deregistering { index } => RolloutAction::RemoveTarget {
            target: v.old[index as int].target,
        },
        RolloutPhase::StoppingOld { index } => RolloutAction::StopWorkload {
            workload: v.old[index as int].workload,
        },
        RolloutPhase::RollingBack { index } => RolloutAction::StopWorkload {
            workload: v.created[index as int],
        },
        _ => RolloutAction::Finish,
    }
}

/// The shape of a state that a rollout can be in.
pub open spec fn wf(v: RolloutView) -> bool {
    &&& v.replicas >= 1
    &&& v.replicas <= usize::MAX
    &&& v.old.len() <= usize::MAX
    &&& match v.phase {
        RolloutPhase::VerifyingImage => v.created.len() == 0 && v.registered.len() == 0
            && v.failure is None,
        RolloutPhase::Provisioning { index } => index < v.replicas && v.created.len() == index
            && v.registered.len() == 0 && v.failure is None,
        RolloutPhase::AwaitingHealth { index } => index < v.replicas && v.created.len() == index
            + 1 && v.registered.len() == 0 && v.failure is None,
        RolloutPhase::Registering { index } => v.created.len() == v.replicas && index
            < v.replicas && v.registered.len() == index && v.failure is None,
        RolloutPhase::Deregistering { index } => index < v.old.len() && v.created.len()
            == v.replicas && v.registered.len() == v.replicas && v.failure is None
            && v.leave_behind != LeaveBehind::Targets,
        RolloutPhase::StoppingOld { index } => index < v.old.len() && v.created.len()
            == v.replicas && v.registered.len() == v.replicas && v.failure is None
            && v.leave_behind == LeaveBehind::Nothing,
        RolloutPhase::Complete => v.created.len() == v.replicas && v.registered.len()
            == v.replicas && v.failure is None,
        RolloutPhase::RollingBack { index } => index < v.created.len() && v.created.len()
            <= v.replicas && v.failure is Some,
        RolloutPhase::RolledBack => v.failure is Some,
    }
}

/// The first state of a rollout of `plan`.
pub open spec fn initial(plan: RolloutPlan) -> RolloutView {
    RolloutView {
        replicas: plan.spec_replicas(),
        old: plan.spec_old(),
        leave_behind: plan.spec_leave_behind(),
        phase: RolloutPhase::VerifyingImage,
        created: seq![],
        registered: seq![],
        failure: None,
        unfinished: seq![],
    }
}

/// A rollout in progress.
#[derive(Debug)]
pub struct Rollout {
    plan: RolloutPlan,
    phase: RolloutPhase,
    created: Vec<u128>,
    registered: Vec<u128>,
    failure: Option<RolloutError>,
    unfinished: Vec<u128>,
}

impl View for Rollout {
    type V = RolloutView;

    closed spec fn view(&self) -> RolloutView {
        RolloutView {
            replicas: self.plan.replicas as nat,
            old: self.plan.old@,
            leave_behind: self.plan.leave_behind,
            phase: self.phase,
            created: self.created@,
            registered: self.registered@,
            failure: match &self.failure {
                Some(e) => Some((e.kind, e.detail@)),
                None => None,
            },
            unfinished: self.unfinished@,
        }
    }
}

impl Rollout {
    /// The plan being carried out.
    pub closed spec fn spec_plan(&self) -> RolloutPlan {
        self.plan
    }

    /// Starts a rollout of `plan`, at its first action.
    pub fn start(plan: RolloutPlan) -> (r: (Rollout, RolloutAction))
        ensures
            r.0@ == initial(plan),
            r.0.spec_plan() == plan,
            wf(r.0@),
            r.1 == action_of(r.0@),
    {
        let r = Rollout {
            plan,
            phase: RolloutPhase::VerifyingImage,
            created: Vec::new(),
            registered: Vec::new(),
            failure: None,
            unfinished: Vec::new(),
        };
        proof {
            use_type_invariant(&r.plan);
        }
        let _n_old = r.plan.old.len();
        (r, RolloutAction::VerifyImage)
    }

    /// The plan being carried out.
    pub fn plan(&self) -> (r: &RolloutPlan)
        ensures
            *r == self.spec_plan(),
    {
        &self.plan
    }

    /// The current phase.
    pub fn phase(&self) -> (r: RolloutPhase)
        ensures
            r == self@.phase,
    {
        self.phase
    }

    /// The workloads created by this attempt, in order.
    pub fn created(&self) -> (r: &[u128])
        ensures
            r@ == self@.created,
    {
        self.created.as_slice()
    }

    /// The targets registered for the new generation, in order.
    pub fn registered(&self) -> (r: &[u128])
        ensures
            r@ == self@.registered,
    {
        self.registered.as_slice()
    }

    /// The workloads and old targets whose best-effort stop or
    /// deregistration failed, in order.
    pub fn unfinished(&self) -> (r: &[u128])
        ensures
            r@ == self@.unfinished,
    {
        self.unfinished.as_slice()
    }

    /// The failure that ended, or is rolling back, this attempt.
    pub fn failure(&self) -> (r: Option<&RolloutError>)
        ensures
            r is None <==> self@.failure is None,
            r matches Some(e) ==> self@.failure == Some((e.kind, e.detail@)),
    {
        self.failure.as_ref()
    }

    fn fail(&mut self, kind: FailureKind, detail: String)
        requires
            old(self)@.failure is None,
        ensures
            final(self)@ == failed(old(self)@, kind, detail@),
            final(self).plan == old(self).plan,
    {
        self.failure = Some(RolloutError { kind, detail });
        self.phase = if self.created.len() > 0 {
            RolloutPhase::RollingBack { index: 0 }
        } else {
            RolloutPhase::RolledBack
        };
    }

    /// Takes in how the current action went and returns the next one.
    pub fn advance(&mut self, r: StepResult) -> (a: RolloutAction)
        requires
            wf(old(self)@),
        ensures
            final(self)@ == step(old(self)@, r),
            final(self).spec_plan() == old(self).spec_plan(),
            wf(final(self)@),
            a == action_of(final(self)@),
    {
        let ghost v = self@;
        let ghost res = r;
        let n_old = self.plan.old.len();
        let replicas = self.plan.replicas;
        match self.phase {
            RolloutPhase::VerifyingImage => match r {
                StepResult::Failed(d) => self.fail(FailureKind::Provision, d),
                _ => {
                    self.phase = RolloutPhase::Provisioning { index: 0 };
                },
            },
            RolloutPhase::Provisioning { index } => match r {
                StepResult::Created(w) => {
                    self.created.push(w);
                    self.phase = RolloutPhase::AwaitingHealth { index };
                },
                StepResult::Failed(d) => self.fail(FailureKind::Provision, d),
                StepResult::Done => self.fail(FailureKind::Provision, String::new()),
            },
            RolloutPhase::AwaitingHealth { index } => match r {
                StepResult::Failed(d) => self.fail(FailureKind::HealthCheck, d),
                _ => {
                    self.phase = if index + 1 < replicas {
                        RolloutPhase::Provisioning { index: index + 1 }
                    } else {
                        RolloutPhase::Registering { index: 0 }
                    };
                },
            },
            RolloutPhase::Registering { index } => match r {
                StepResult::Created(t) => {
                    self.registered.push(t);
                    self.phase = if index + 1 < self.created.len() {
                        RolloutPhase::Registering { index: index + 1 }
                    } else {
                        self.retire_phase()
                    };
                },
                StepResult::Failed(d) => self.fail(FailureKind::Registration, d),
                StepResult::Done => self.fail(FailureKind::Registration, String::new()),
            },
            RolloutPhase::Deregistering { index } => {
                if let StepResult::Failed(_) = r {
                    self.unfinished.push(self.plan.old[index].target);
                }
                self.phase = if index + 1 < n_old {
                    RolloutPhase::Deregistering { index: index + 1 }
                } else {
                    self.stop_phase()
                };
            },
            RolloutPhase::StoppingOld { index } => {
                if let StepResult::Failed(_) = r {
                    self.unfinished.push(self.plan.old[index].workload);
                }
                self.phase = if index + 1 < n_old {
                    RolloutPhase::StoppingOld { index: index + 1 }
                } else {
                    RolloutPhase::Complete
                };
            },
            RolloutPhase::RollingBack { index } => {
                if let StepResult::Failed(_) = r {
                    self.unfinished.push(self.created[index]);
                }
                self.phase = if index + 1 < self.created.len() {
                    RolloutPhase::RollingBack { index: index + 1 }
                } else {
                    RolloutPhase::RolledBack
                };
            },
            _ => {},
        }
        proof {
            assert(self@ =~= step(v, res));
        }
        self.current_action()
    }

    fn stop_phase(&self) -> (p: RolloutPhase)
        ensures
            p == stop_start(self@),
    {
        if self.plan.old.len() > 0 && self.plan.leave_behind == LeaveBehind::Nothing {
            RolloutPhase::StoppingOld { index: 0 }
        } else {
            RolloutPhase::Complete
        }
    }

    fn retire_phase(&self) -> (p: RolloutPhase)
        ensures
            p == retire_start(self@),
    {
        if self.plan.old.len() > 0 && self.plan.leave_behind != LeaveBehind::Targets {
            RolloutPhase::Deregistering { index: 0 }
        } else {
            self.stop_phase()
        }
    }

    /// The action the current state asks for.
    pub fn current_action(&self) -> (a: RolloutAction)
        requires
            wf(self@),
        ensures
            a == action_of(self@),
    {
        match self.phase {
            RolloutPhase::VerifyingImage => RolloutAction::VerifyImage,
            RolloutPhase::Provisioning { index } => RolloutAction::CreateWorkload { index },
            RolloutPhase::AwaitingHealth { index } => RolloutAction::AwaitHealth {
                workload: self.created[index],
            },
            RolloutPhase::Registering { index } => RolloutAction::RegisterTarget {
                workload: self.created[index],
            },
            RolloutPhase::Deregistering { index } => RolloutAction::RemoveTarget {
                target: self.plan.old[index].target,
            },
            RolloutPhase::StoppingOld { index } => RolloutAction::StopWorkload {
                workload: self.plan.old[index].workload,
            },
            RolloutPhase::RollingBack { index } => RolloutAction::StopWorkload {
                workload: self.created[index],
            },
            _ => RolloutAction::Finish,
        }
    }
}

/// The state after answering the actions in turn with `rs`.
pub open spec fn run(v: RolloutView, rs: Seq<StepResult>) -> RolloutView
    decreases rs.len(),
{
    if rs.len() == 0 {
        v
    } else {
        run(step(v, rs[0]), rs.drop_first())
    }
}

/// The actions asked for along the way, one for each answer in `rs`.
pub open spec fn actions(v: RolloutView, rs: Seq<StepResult>) -> Seq<RolloutAction>
    decreases rs.len(),
{
    if rs.len() == 0 {
        seq![]
    } else {
        seq![action_of(v)] + actions(step(v, rs[0]), rs.drop_first())
    }
}

/// Whether `r` reports success of `a`: a create step returned an id, a
/// check passed. Any answer will do for the best-effort steps.
pub open spec fn succeeds(a: RolloutAction, r: StepResult) -> bool {
    match a {
        RolloutAction::CreateWorkload { .. } => r is Created,
        RolloutAction::RegisterTarget { .. } => r is Created,
        RolloutAction::VerifyImage => !(r is Failed),
        RolloutAction::AwaitHealth { .. } => !(r is Failed),
        _ => true,
    }
}

/// Whether every answer in `rs` reports success of the action it answers.
pub open spec fn all_succeed(v: RolloutView, rs: Seq<StepResult>) -> bool
    decreases rs.len(),
{
    rs.len() == 0 || (succeeds(action_of(v), rs[0]) && all_succeed(step(v, rs[0]), rs.drop_first()))
}

/// How many actions retiring the old generation takes under the policy.
pub open spec fn retire_steps(v: RolloutView) -> nat {
    (if v.leave_behind != LeaveBehind::Targets {
        v.old.len()
    } else {
        0
    }) + (if v.leave_behind == LeaveBehind::Nothing {
        v.old.len()
    } else {
        0
    })
}

/// How many actions are left before completion when every one succeeds.
pub open spec fn steps_left(v: RolloutView) -> nat {
    let stops = if v.leave_behind == LeaveBehind::Nothing {
        v.old.len()
    } else {
        0
    };
    match v.phase {
        RolloutPhase::VerifyingImage => 1 + 3 * v.replicas + retire_steps(v),
        RolloutPhase::Provisioning { index } => (2 * (v.replicas - index) + v.replicas + retire_steps(
            v,
        )) as nat,
        RolloutPhase::AwaitingHealth { index } => (2 * (v.replicas - index) - 1 + v.replicas
            + retire_steps(v)) as nat,
        RolloutPhase::Registering { index } => ((v.replicas - index) + retire_steps(v)) as nat,
        RolloutPhase::Deregistering { index } => ((v.old.len() - index) + stops) as nat,
        RolloutPhase::StoppingOld { index } => (v.old.len() - index) as nat,
        _ => 0,
    }
}

/// Stopping each of the workloads, in order.
pub open spec fn stops_of(ws: Seq<u128>) -> Seq<RolloutAction> {
    ws.map_values(|w: u128| RolloutAction::StopWorkload { workload: w })
}

/// Deregistering each old target, in order.
pub open spec fn removals_of(olds: Seq<OldTarget>) -> Seq<RolloutAction> {
    olds.map_values(|o: OldTarget| RolloutAction::RemoveTarget { target: o.target })
}

/// Stopping the workload of each old target, in order.
pub open spec fn old_stops_of(olds: Seq<OldTarget>) -> Seq<RolloutAction> {
    olds.map_values(|o: OldTarget| RolloutAction::StopWorkload { workload: o.workload })
}

/// What retiring the old generation does under the leave-behind policy.
pub open spec fn retirement(olds: Seq<OldTarget>, leave_behind: LeaveBehind) -> Seq<RolloutAction> {
    (if leave_behind != LeaveBehind::Targets {
        removals_of(olds)
    } else {
        seq![]
    }) + (if leave_behind == LeaveBehind::Nothing {
        old_stops_of(olds)
    } else {
        seq![]
    })
}

/// Every step keeps a rollout's state well formed.
pub proof fn lemma_step_wf(v: RolloutView, r: StepResult)
    requires
        wf(v),
    ensures
        wf(step(v, r)),
        step(v, r).replicas == v.replicas,
        step(v, r).old == v.old,
        step(v, r).leave_behind == v.leave_behind,
{
}

proof fn lemma_success_completes(v: RolloutView, rs: Seq<StepResult>)
    requires
        wf(v),
        v.failure is None,
        all_succeed(v, rs),
        rs.len() == steps_left(v),
    ensures
        run(v, rs).phase == RolloutPhase::Complete,
        run(v, rs).registered.len() == v.replicas,
        run(v, rs).failure is None,
    decreases rs.len(),
{
    if rs.len() > 0 {
        let v1 = step(v, rs[0]);
        lemma_step_wf(v, rs[0]);
        assert(v1.failure is None);
        assert(steps_left(v1) + 1 == steps_left(v));
        lemma_success_completes(v1, rs.drop_first());
    }
}

/// When every replica is created and becomes healthy and every registration
/// succeeds, the rollout completes with exactly as many new targets as
/// replicas were asked for, whatever becomes of retiring the old generation.
pub proof fn lemma_all_healthy_completes(plan: RolloutPlan, rs: Seq<StepResult>)
    requires
        plan.spec_replicas() >= 1,
        plan.spec_old().len() <= usize::MAX,
        all_succeed(initial(plan), rs),
        rs.len() == steps_left(initial(plan)),
    ensures
        run(initial(plan), rs).phase == RolloutPhase::Complete,
        run(initial(plan), rs).registered.len() == plan.spec_replicas(),
        run(initial(plan), rs).failure is None,
        action_of(run(initial(plan), rs)) == RolloutAction::Finish,
{
    lemma_success_completes(initial(plan), rs);
}

proof fn lemma_rolling_back(v: RolloutView, rs: Seq<StepResult>)
    requires
        wf(v),
        v.phase is RollingBack,
        rs.len() == v.created.len() - v.phase->RollingBack_index,
    ensures
        actions(v, rs) == stops_of(v.created.subrange(v.phase->RollingBack_index as int, v.created.len() as int)),
        run(v, rs).phase == RolloutPhase::RolledBack,
        run(v, rs).registered == v.registered,
        run(v, rs).created == v.created,
        run(v, rs).failure == v.failure,
    decreases rs.len(),
{
    reveal_with_fuel(actions, 2);
    reveal_with_fuel(run, 2);
    let k = v.phase->RollingBack_index as int;
    let v1 = step(v, rs[0]);
    lemma_step_wf(v, rs[0]);
    let rest = v.created.subrange(k + 1, v.created.len() as int);
    assert(v.created.subrange(k, v.created.len() as int) == seq![v.created[k]] + rest);
    assert(stops_of(seq![v.created[k]] + rest) == seq![action_of(v)] + stops_of(rest));
    if rs.len() > 1 {
        lemma_rolling_back(v1, rs.drop_first());
    } else {
        assert(rest.len() == 0);
        assert(rs.drop_first().len() == 0);
        assert(stops_of(rest) == Seq::<RolloutAction>::empty());
    }
}

/// When a replica fails to be created or to become healthy, the rest of the
/// attempt stops exactly the workloads it created so far, in order, and
/// nothing else: no target is registered and the old generation is not
/// touched. The rollout ends rolled back with that failure.
pub proof fn lemma_replica_failure_rolls_back(v: RolloutView, r: StepResult, rs: Seq<StepResult>)
    requires
        wf(v),
        v.phase is Provisioning || v.phase is AwaitingHealth,
        !succeeds(action_of(v), r),
        rs.len() == v.created.len(),
    ensures
        v.phase matches RolloutPhase::Provisioning { index } ==> v.created.len() == index,
        v.phase matches RolloutPhase::AwaitingHealth { index } ==> v.created.len() == index + 1,
        actions(step(v, r), rs) == stops_of(v.created),
        run(step(v, r), rs).phase == RolloutPhase::RolledBack,
        run(step(v, r), rs).registered.len() == 0,
        run(step(v, r), rs).failure is Some,
{
    reveal_with_fuel(actions, 2);
    reveal_with_fuel(run, 2);
    let v1 = step(v, r);
    lemma_step_wf(v, r);
    if v.created.len() > 0 {
        assert(v.created.subrange(0, v.created.len() as int) == v.created);
        lemma_rolling_back(v1, rs);
    } else {
        assert(stops_of(v.created) == Seq::<RolloutAction>::empty());
    }
}

proof fn lemma_stopping_old(v: RolloutView, rs: Seq<StepResult>)
    requires
        wf(v),
        v.phase is StoppingOld,
        rs.len() == v.old.len() - v.phase->StoppingOld_index,
    ensures
        actions(v, rs) == old_stops_of(v.old.subrange(v.phase->StoppingOld_index as int, v.old.len() as int)),
        run(v, rs).phase == RolloutPhase::Complete,
    decreases rs.len(),
{
    reveal_with_fuel(actions, 2);
    reveal_with_fuel(run, 2);
    let k = v.phase->StoppingOld_index as int;
    let v1 = step(v, rs[0]);
    lemma_step_wf(v, rs[0]);
    let rest = v.old.subrange(k + 1, v.old.len() as int);
    assert(v.old.subrange(k, v.old.len() as int) == seq![v.old[k]] + rest);
    assert(old_stops_of(seq![v.old[k]] + rest) == seq![action_of(v)] + old_stops_of(rest));
    if rs.len() > 1 {
        lemma_stopping_old(v1, rs.drop_first());
    } else {
        assert(rest.len() == 0);
        assert(rs.drop_first().len() == 0);
        assert(old_stops_of(rest) == Seq::<RolloutAction>::empty());
    }
}

proof fn lemma_from_stop_start(v: RolloutView, rs: Seq<StepResult>)
    requires
        wf(with_phase(v, stop_start(v))),
        rs.len() == (if v.leave_behind == LeaveBehind::Nothing {
            v.old.len()
        } else {
            0
        }),
    ensures
        actions(with_phase(v, stop_start(v)), rs) == (if v.leave_behind == LeaveBehind::Nothing {
            old_stops_of(v.old)
        } else {
            seq![]
        }),
        run(with_phase(v, stop_start(v)), rs).phase == RolloutPhase::Complete,
{
    reveal_with_fuel(actions, 2);
    reveal_with_fuel(run, 2);
    let w = with_phase(v, stop_start(v));
    if v.old.len() > 0 && v.leave_behind == LeaveBehind::Nothing {
        assert(v.old.subrange(0, v.old.len() as int) == v.old);
        lemma_stopping_old(w, rs);
    } else if v.old.len() == 0 {
        assert(old_stops_of(v.old) == Seq::<RolloutAction>::empty());
    }
}

proof fn lemma_deregistering(v: RolloutView, rs: Seq<StepResult>)
    requires
        wf(v),
        v.phase is Deregistering,
        rs.len() == (v.old.len() - v.phase->Deregistering_index) + (if v.leave_behind
            == LeaveBehind::Nothing {
            v.old.len()
        } else {
            0
        }),
    ensures
        actions(v, rs) == removals_of(v.old.subrange(v.phase->Deregistering_index as int, v.old.len() as int)) + (
        if v.leave_behind == LeaveBehind::Nothing {
            old_stops_of(v.old)
        } else {
            seq![]
        }),
        run(v, rs).phase == RolloutPhase::Complete,
    decreases rs.len(),
{
    reveal_with_fuel(actions, 2);
    reveal_with_fuel(run, 2);
    let k = v.phase->Deregistering_index as int;
    let v1 = step(v, rs[0]);
    lemma_step_wf(v, rs[0]);
    let rest = v.old.subrange(k + 1, v.old.len() as int);
    let tail = if v.leave_behind == LeaveBehind::Nothing {
        old_stops_of(v.old)
    } else {
        seq![]
    };
    assert(v.old.subrange(k, v.old.len() as int) == seq![v.old[k]] + rest);
    assert(removals_of(seq![v.old[k]] + rest) == seq![action_of(v)] + removals_of(rest));
    if k + 1 < v.old.len() {
        lemma_deregistering(v1, rs.drop_first());
        assert(seq![action_of(v)] + (removals_of(rest) + tail) == (seq![action_of(v)] + removals_of(rest)) + tail);
    } else {
        assert(rest.len() == 0);
        assert(removals_of(rest) == Seq::<RolloutAction>::empty());
        assert(v1 == with_phase(v1, stop_start(v1)));
        lemma_from_stop_start(v1, rs.drop_first());
        assert(removals_of(rest) + tail == tail);
    }
}

/// Once the last new target is registered, the rest of the rollout retires
/// the old generation exactly as the leave-behind policy says, whatever each
/// retirement step reports, and completes: with `Targets` it does nothing;
/// with `Instances` it deregisters every old target and stops no workload;
/// with `Nothing` it deregisters every old target, then stops every old
/// workload.
pub proof fn lemma_retirement_follows_policy(v: RolloutView, r: StepResult, rs: Seq<StepResult>)
    requires
        wf(v),
        v.phase matches RolloutPhase::Registering { index } && index + 1 == v.replicas,
        r is Created,
        rs.len() == retire_steps(v),
    ensures
        actions(step(v, r), rs) == retirement(v.old, v.leave_behind),
        run(step(v, r), rs).phase == RolloutPhase::Complete,
        run(step(v, r), rs).registered.len() == v.replicas,
{
    reveal_with_fuel(actions, 2);
    reveal_with_fuel(run, 2);
    let v1 = step(v, r);
    lemma_step_wf(v, r);
    let tail = if v.leave_behind == LeaveBehind::Nothing {
        old_stops_of(v.old)
    } else {
        seq![]
    };
    if v.old.len() > 0 && v.leave_behind != LeaveBehind::Targets {
        assert(v.old.subrange(0, v.old.len() as int) == v.old);
        lemma_deregistering(v1, rs);
    } else {
        let w = with_phase(v1, stop_start(v1));
        assert(v1 == w);
        lemma_from_stop_start(v1, rs);
        if v.old.len() == 0 {
            assert(removals_of(v.old) == Seq::<RolloutAction>::empty());
            assert(old_stops_of(v.old) == Seq::<RolloutAction>::empty());
        }
        assert(retirement(v.old, v.leave_behind) == tail);
    }
    lemma_final_registered(v1, rs);
}

proof fn lemma_final_registered(v: RolloutView, rs: Seq<StepResult>)
    requires
        wf(v),
        v.failure is None,
        v.registered.len() == v.replicas,
    ensures
        run(v, rs).registered.len() == v.replicas,
    decreases rs.len(),
{
    if rs.len() > 0 {
        lemma_step_wf(v, rs[0]);
        lemma_final_registered(step(v, rs[0]), rs.drop_first());
    }
}

/// Running answers in two parts is running them whole.
pub proof fn lemma_run_split(v: RolloutView, a: Seq<StepResult>, b: Seq<StepResult>)
    ensures
        run(v, a + b) == run(run(v, a), b),
        actions(v, a + b) == actions(v, a) + actions(run(v, a), b),
    decreases a.len(),
{
    if a.len() == 0 {
        assert(a + b == b);
        assert(actions(v, a) == Seq::<RolloutAction>::empty());
        assert(actions(v, a) + actions(run(v, a), b) == actions(run(v, a), b));
    } else {
        assert((a + b)[0] == a[0]);
        assert((a + b).drop_first() == a.drop_first() + b);
        lemma_run_split(step(v, a[0]), a.drop_first(), b);
        assert(seq![action_of(v)] + (actions(step(v, a[0]), a.drop_first()) + actions(
            run(v, a),
            b,
        )) == (seq![action_of(v)] + actions(step(v, a[0]), a.drop_first())) + actions(run(v, a), b));
    }
}

/// The answers of replicas that are created with the given ids, in order,
/// and each become healthy.
pub open spec fn healthy_replicas(ws: Seq<u128>) -> Seq<StepResult>
    decreases ws.len(),
{
    if ws.len() == 0 {
        seq![]
    } else {
        healthy_replicas(ws.drop_last()) + seq![StepResult::Created(ws.last()), StepResult::Done]
    }
}

/// The phase that provisions the replica with the given index.
pub open spec fn provisioning(index: nat) -> RolloutPhase {
    RolloutPhase::Provisioning { index: index as usize }
}

/// The answers of a rollout whose replicas were created with ids `ws` and
/// became healthy, and whose next replica then failed: at creation, or,
/// where it was created with an id, at its health check.
pub open spec fn failing_run(ws: Seq<u128>, created: Option<u128>, failure: StepResult) -> Seq<StepResult> {
    seq![StepResult::Done] + healthy_replicas(ws) + match created {
        Some(w) => seq![StepResult::Created(w), failure],
        None => seq![failure],
    }
}

/// The workloads such a rollout created.
pub open spec fn created_by(ws: Seq<u128>, created: Option<u128>) -> Seq<u128> {
    match created {
        Some(w) => ws.push(w),
        None => ws,
    }
}

proof fn lemma_healthy_replicas(plan: RolloutPlan, ws: Seq<u128>)
    requires
        plan.spec_replicas() >= 1,
        plan.spec_old().len() <= usize::MAX,
        ws.len() < plan.spec_replicas(),
    ensures
        run(initial(plan), seq![StepResult::Done] + healthy_replicas(ws)).phase == provisioning(ws.len()),
        run(initial(plan), seq![StepResult::Done] + healthy_replicas(ws)).created == ws,
        wf(run(initial(plan), seq![StepResult::Done] + healthy_replicas(ws))),
        run(initial(plan), seq![StepResult::Done] + healthy_replicas(ws)).failure is None,
        run(initial(plan), seq![StepResult::Done] + healthy_replicas(ws)).replicas == plan.spec_replicas(),
    decreases ws.len(),
{
    reveal_with_fuel(run, 3);
    let v0 = initial(plan);
    if ws.len() == 0 {
        assert(seq![StepResult::Done] + healthy_replicas(ws) == seq![StepResult::Done]);
        assert(seq![StepResult::Done].drop_first().len() == 0);
    } else {
        let prev = seq![StepResult::Done] + healthy_replicas(ws.drop_last());
        let pair = seq![StepResult::Created(ws.last()), StepResult::Done];
        lemma_healthy_replicas(plan, ws.drop_last());
        assert(seq![StepResult::Done] + healthy_replicas(ws) == prev + pair);
        lemma_run_split(v0, prev, pair);
        let v = run(v0, prev);
        lemma_step_wf(v, pair[0]);
        lemma_step_wf(step(v, pair[0]), pair[1]);
        assert(pair.drop_first()[0] == StepResult::Done);
        assert(pair.drop_first().drop_first().len() == 0);
        assert(ws.drop_last().push(ws.last()) == ws);
    }
}

/// Where replicas 1..i-1 were created with ids `ws` and became healthy and
/// replica i then fails, the rollout stops exactly those workloads (with
/// replica i's own, when it was created before failing its health check), in
/// order, registers nothing, touches nothing of the old generation, and ends
/// rolled back.
pub proof fn lemma_failed_replica_stops_earlier_ones(
    plan: RolloutPlan,
    ws: Seq<u128>,
    created: Option<u128>,
    failure: StepResult,
    rs: Seq<StepResult>,
)
    requires
        plan.spec_replicas() >= 1,
        plan.spec_old().len() <= usize::MAX,
        ws.len() < plan.spec_replicas(),
        failure is Failed,
        rs.len() == created_by(ws, created).len(),
    ensures
        actions(run(initial(plan), failing_run(ws, created, failure)), rs) == stops_of(
            created_by(ws, created),
        ),
        run(run(initial(plan), failing_run(ws, created, failure)), rs).phase
            == RolloutPhase::RolledBack,
        run(run(initial(plan), failing_run(ws, created, failure)), rs).registered.len() == 0,
{
    reveal_with_fuel(run, 3);
    let v0 = initial(plan);
    let prefix = seq![StepResult::Done] + healthy_replicas(ws);
    lemma_healthy_replicas(plan, ws);
    let v = run(v0, prefix);
    match created {
        Some(w) => {
            let tail = seq![StepResult::Created(w), failure];
            lemma_run_split(v0, prefix, tail);
            lemma_step_wf(v, tail[0]);
            let v1 = step(v, tail[0]);
            assert(tail.drop_first()[0] == failure);
            assert(tail.drop_first().drop_first().len() == 0);
            assert(!succeeds(action_of(v1), failure));
            lemma_replica_failure_rolls_back(v1, failure, rs);
        },
        None => {
            let tail = seq![failure];
            lemma_run_split(v0, prefix, tail);
            assert(tail.drop_first().len() == 0);
            assert(!succeeds(action_of(v), failure));
            lemma_replica_failure_rolls_back(v, failure, rs);
        },
    }
}

/// Whether an action deregisters a target or stops a workload.
pub open spec fn retires(a: RolloutAction) -> bool {
    a is RemoveTarget || a is StopWorkload
}

/// Whether a phase comes before the retirement of the old generation.
pub open spec fn before_retirement(p: RolloutPhase) -> bool {
    p is VerifyingImage || p is Provisioning || p is AwaitingHealth || p is Registering
}

proof fn lemma_success_retires(v: RolloutView, rs: Seq<StepResult>)
    requires
        wf(v),
        v.failure is None,
        before_retirement(v.phase),
        all_succeed(v, rs),
        rs.len() == steps_left(v),
    ensures
        rs.len() >= retire_steps(v) + 1,
        actions(v, rs).len() == rs.len(),
        actions(v, rs).subrange(rs.len() - retire_steps(v), rs.len() as int) == retirement(
            v.old,
            v.leave_behind,
        ),
        forall|i: int| 0 <= i < rs.len() - retire_steps(v) ==> !retires(#[trigger] actions(v, rs)[i]),
    decreases rs.len(),
{
    reveal_with_fuel(actions, 2);
    let v1 = step(v, rs[0]);
    let rest = rs.drop_first();
    lemma_step_wf(v, rs[0]);
    lemma_actions_len(v1, rest);
    let n = rs.len() as int;
    let k = retire_steps(v) as int;
    if v.phase matches RolloutPhase::Registering { index } && index + 1 == v.replicas {
        lemma_retirement_follows_policy(v, rs[0], rest);
        assert(actions(v, rs) == seq![action_of(v)] + actions(v1, rest));
        assert(actions(v, rs).subrange(n - k, n) == actions(v1, rest));
        assert forall|i: int| 0 <= i < n - k implies !retires(#[trigger] actions(v, rs)[i]) by {
            assert(i == 0);
        }
    } else {
        assert(before_retirement(v1.phase));
        assert(steps_left(v1) + 1 == steps_left(v));
        assert(retire_steps(v1) == retire_steps(v));
        lemma_success_retires(v1, rest);
        assert(actions(v, rs) == seq![action_of(v)] + actions(v1, rest));
        assert(actions(v, rs).subrange(n - k, n) == actions(v1, rest).subrange(n - 1 - k, n - 1));
        assert forall|i: int| 0 <= i < n - k implies !retires(#[trigger] actions(v, rs)[i]) by {
            if i > 0 {
                assert(actions(v, rs)[i] == actions(v1, rest)[i - 1]);
            }
        }
    }
}

proof fn lemma_actions_len(v: RolloutView, rs: Seq<StepResult>)
    ensures
        actions(v, rs).len() == rs.len(),
    decreases rs.len(),
{
    if rs.len() > 0 {
        lemma_actions_len(step(v, rs[0]), rs.drop_first());
    }
}

/// In a rollout in which every replica is created and becomes healthy and
/// every registration succeeds, nothing of the old generation is touched
/// until the whole new generation is registered; then the rollout does
/// exactly what the leave-behind policy says: with `Targets` nothing, with
/// `Instances` it deregisters every old target, with `Nothing` it
/// deregisters every old target and then stops every old workload.
pub proof fn lemma_successful_rollout_retires_by_policy(plan: RolloutPlan, rs: Seq<StepResult>)
    requires
        plan.spec_replicas() >= 1,
        plan.spec_old().len() <= usize::MAX,
        all_succeed(initial(plan), rs),
        rs.len() == steps_left(initial(plan)),
    ensures
        actions(initial(plan), rs).subrange((1 + 3 * plan.spec_replicas()) as int, rs.len() as int) == retirement(
            plan.spec_old(),
            plan.spec_leave_behind(),
        ),
        forall|i: int|
            0 <= i < 1 + 3 * plan.spec_replicas() ==> !retires(#[trigger] actions(initial(plan), rs)[i]),
{
    lemma_success_retires(initial(plan), rs);
}

/// An outcome is final: a completed or rolled-back rollout asks for nothing
/// more and stays as it is, whatever it is told.
pub proof fn lemma_outcome_is_final(v: RolloutView, rs: Seq<StepResult>)
    requires
        v.phase is Complete || v.phase is RolledBack,
    ensures
        run(v, rs) == v,
        action_of(v) == RolloutAction::Finish,
    decreases rs.len(),
{
    if rs.len() > 0 {
        lemma_outcome_is_final(v, rs.drop_first());
    }
}

} // verus!
