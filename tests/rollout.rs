use unisrv::plan::{
    generate_deploy_hex, hex_is_free, old_generation, resolve_port, resolve_replicas,
    workload_name, LeaveBehind, OldTarget, PlanError, ServiceTarget,
};
use unisrv::rollout::{
    plan_rollout, FailureKind, Rollout, RolloutAction, RolloutPhase, StepResult,
};

fn target(id: u128, workload: u128, group: Option<&str>, port: u16) -> ServiceTarget {
    ServiceTarget {
        id,
        instance_id: workload,
        target_group: group.map(|g| g.to_string()),
        instance_port: port,
    }
}

fn old_targets() -> Vec<ServiceTarget> {
    vec![
        target(11, 101, None, 8080),
        target(12, 102, Some("default"), 8080),
        target(13, 103, Some("canary"), 9000),
    ]
}

/// Drives a rollout, answering each action with `answer`; returns the actions.
fn drive(
    rollout: &mut Rollout,
    first: RolloutAction,
    mut answer: impl FnMut(RolloutAction) -> StepResult,
) -> Vec<RolloutAction> {
    let mut seen = vec![];
    let mut action = first;
    while action != RolloutAction::Finish {
        seen.push(action);
        action = rollout.advance(answer(action));
    }
    seen
}

fn succeed(next_id: &mut u128) -> impl FnMut(RolloutAction) -> StepResult + '_ {
    move |a| match a {
        RolloutAction::CreateWorkload { .. } | RolloutAction::RegisterTarget { .. } => {
            *next_id += 1;
            StepResult::Created(*next_id)
        }
        _ => StepResult::Done,
    }
}

#[test]
fn port_taken_from_agreeing_targets() {
    let olds = old_generation(&old_targets(), "default");
    assert_eq!(olds.len(), 2);
    assert_eq!(resolve_port(None, &olds), Ok(8080));
}

#[test]
fn disagreeing_ports_need_explicit_port() {
    let targets = vec![target(1, 101, None, 8080), target(2, 102, None, 9090)];
    let olds = old_generation(&targets, "default");
    assert_eq!(resolve_port(None, &olds), Err(PlanError::PortsDisagree));
    assert_eq!(resolve_port(Some(7000), &olds), Ok(7000));
    let r = plan_rollout(1, "svc".to_string(), "default".to_string(), &targets, None, None, &[], LeaveBehind::Nothing);
    assert_eq!(r.err(), Some(PlanError::PortsDisagree));
}

#[test]
fn empty_group_needs_port() {
    let olds = old_generation(&old_targets(), "blue");
    assert!(olds.is_empty());
    assert_eq!(resolve_port(None, &olds), Err(PlanError::PortRequired));
    assert_eq!(resolve_replicas(None, 0), Ok(1));
    assert_eq!(resolve_replicas(None, 3), Ok(3));
    assert_eq!(resolve_replicas(Some(5), 3), Ok(5));
    assert_eq!(resolve_replicas(Some(0), 3), Err(PlanError::NoReplicas));
}

#[test]
fn old_generation_keeps_group_order() {
    let olds = old_generation(&old_targets(), "canary");
    assert_eq!(olds, vec![OldTarget { target: 13, workload: 103, port: 9000 }]);
}

#[test]
fn workload_names_follow_generation() {
    assert_eq!(workload_name("svc", "default", "ab12", 0), "svc_default_ab12_0");
    assert_eq!(workload_name("svc", "blue", "00ff", 12), "svc_blue_00ff_12");
}

#[test]
fn generation_marker_never_collides() {
    let existing = vec!["svc_default_ab12_0".to_string(), "other".to_string()];
    assert!(!hex_is_free("svc", "default", "ab12", &existing));
    assert!(hex_is_free("svc", "default", "ab13", &existing));
    assert!(hex_is_free("svc", "blue", "ab12", &existing));
    for _ in 0..500 {
        let hex = generate_deploy_hex("svc", "default", &existing).unwrap();
        assert_ne!(hex, "ab12");
        assert_eq!(hex.len(), 4);
        assert!(hex.chars().all(|c| c.is_ascii_hexdigit() && !c.is_ascii_uppercase()));
    }
}

#[test]
fn healthy_replicas_all_registered() {
    for replicas in 1..=4u32 {
        let plan = plan_rollout(1, "svc".to_string(), "default".to_string(), &old_targets(), None, Some(replicas), &[], LeaveBehind::Nothing).unwrap();
        assert_eq!(plan.port(), 8080);
        assert_eq!(plan.replicas(), replicas as usize);
        let (mut rollout, first) = Rollout::start(plan);
        let mut next = 1000;
        let actions = drive(&mut rollout, first, succeed(&mut next));
        assert_eq!(rollout.phase(), RolloutPhase::Complete);
        assert_eq!(rollout.registered().len(), replicas as usize);
        assert!(rollout.failure().is_none());
        let registrations = actions.iter().filter(|a| matches!(a, RolloutAction::RegisterTarget { .. })).count();
        assert_eq!(registrations, replicas as usize);
        assert_eq!(actions[0], RolloutAction::VerifyImage);
        assert_eq!(actions[1], RolloutAction::CreateWorkload { index: 0 });
    }
}

#[test]
fn replica_count_defaults_to_old_generation() {
    let plan = plan_rollout(1, "svc".to_string(), "default".to_string(), &old_targets(), None, None, &[], LeaveBehind::Nothing).unwrap();
    assert_eq!(plan.replicas(), 2);
    let name = plan.workload_name(1);
    assert!(name.starts_with("svc_default_"));
    assert!(name.ends_with("_1"));
}

#[test]
fn failed_replica_rolls_back_created_ones() {
    let plan = plan_rollout(1, "svc".to_string(), "default".to_string(), &old_targets(), None, Some(3), &[], LeaveBehind::Nothing).unwrap();
    let (mut rollout, first) = Rollout::start(plan);
    let mut next = 500;
    let actions = drive(&mut rollout, first, |a| match a {
        RolloutAction::CreateWorkload { index: 2 } => StepResult::Failed("quota exceeded".to_string()),
        RolloutAction::CreateWorkload { .. } => {
            next += 1;
            StepResult::Created(next)
        }
        _ => StepResult::Done,
    });
    assert_eq!(rollout.phase(), RolloutPhase::RolledBack);
    let failure = rollout.failure().unwrap();
    assert_eq!(failure.kind, FailureKind::Provision);
    assert_eq!(failure.detail, "quota exceeded");
    assert!(rollout.registered().is_empty());
    let tail: Vec<RolloutAction> = actions[actions.len() - 2..].to_vec();
    assert_eq!(tail, vec![
        RolloutAction::StopWorkload { workload: 501 },
        RolloutAction::StopWorkload { workload: 502 },
    ]);
    assert!(!actions.iter().any(|a| matches!(a, RolloutAction::RemoveTarget { .. } | RolloutAction::RegisterTarget { .. })));
    assert!(!actions.iter().any(|a| matches!(a, RolloutAction::StopWorkload { workload } if *workload < 500)));
}

#[test]
fn unhealthy_replica_is_stopped_too() {
    let plan = plan_rollout(1, "svc".to_string(), "default".to_string(), &[], Some(80), Some(2), &[], LeaveBehind::Nothing).unwrap();
    let (mut rollout, first) = Rollout::start(plan);
    let mut next = 0;
    let actions = drive(&mut rollout, first, |a| match a {
        RolloutAction::CreateWorkload { .. } => {
            next += 1;
            StepResult::Created(next)
        }
        RolloutAction::AwaitHealth { workload: 2 } => StepResult::Failed("closed".to_string()),
        _ => StepResult::Done,
    });
    assert_eq!(rollout.failure().unwrap().kind, FailureKind::HealthCheck);
    assert_eq!(rollout.created(), &[1, 2]);
    assert_eq!(&actions[actions.len() - 2..], &[
        RolloutAction::StopWorkload { workload: 1 },
        RolloutAction::StopWorkload { workload: 2 },
    ]);
}

#[test]
fn image_rejection_creates_nothing() {
    let plan = plan_rollout(1, "svc".to_string(), "default".to_string(), &[], Some(80), None, &[], LeaveBehind::Nothing).unwrap();
    let (mut rollout, first) = Rollout::start(plan);
    let action = rollout.advance(StepResult::Failed("manifest unknown".to_string()));
    assert_eq!(first, RolloutAction::VerifyImage);
    assert_eq!(action, RolloutAction::Finish);
    assert_eq!(rollout.phase(), RolloutPhase::RolledBack);
    assert!(rollout.created().is_empty());
}

#[test]
fn registration_failure_stops_whole_generation() {
    let plan = plan_rollout(1, "svc".to_string(), "default".to_string(), &old_targets(), None, Some(2), &[], LeaveBehind::Nothing).unwrap();
    let (mut rollout, first) = Rollout::start(plan);
    let mut next = 700;
    let mut registrations = 0;
    let actions = drive(&mut rollout, first, |a| match a {
        RolloutAction::CreateWorkload { .. } => {
            next += 1;
            StepResult::Created(next)
        }
        RolloutAction::RegisterTarget { .. } => {
            registrations += 1;
            if registrations == 2 { StepResult::Failed("conflict".to_string()) } else { StepResult::Created(900) }
        }
        _ => StepResult::Done,
    });
    assert_eq!(rollout.failure().unwrap().kind, FailureKind::Registration);
    assert_eq!(&actions[actions.len() - 2..], &[
        RolloutAction::StopWorkload { workload: 701 },
        RolloutAction::StopWorkload { workload: 702 },
    ]);
    assert!(!actions.iter().any(|a| matches!(a, RolloutAction::RemoveTarget { .. })));
}

fn retirement_actions(leave: LeaveBehind, fail_retirement: bool) -> (Rollout, Vec<RolloutAction>) {
    let plan = plan_rollout(1, "svc".to_string(), "default".to_string(), &old_targets(), None, Some(1), &[], leave).unwrap();
    let (mut rollout, first) = Rollout::start(plan);
    let mut next = 2000;
    let actions = drive(&mut rollout, first, |a| match a {
        RolloutAction::CreateWorkload { .. } | RolloutAction::RegisterTarget { .. } => {
            next += 1;
            StepResult::Created(next)
        }
        RolloutAction::RemoveTarget { .. } | RolloutAction::StopWorkload { .. } if fail_retirement => {
            StepResult::Failed("gone".to_string())
        }
        _ => StepResult::Done,
    });
    let after_registration = actions
        .iter()
        .position(|a| matches!(a, RolloutAction::RegisterTarget { .. }))
        .unwrap();
    (rollout, actions[after_registration + 1..].to_vec())
}

#[test]
fn leave_behind_targets_touches_nothing_old() {
    let (rollout, retire) = retirement_actions(LeaveBehind::Targets, false);
    assert_eq!(rollout.phase(), RolloutPhase::Complete);
    assert!(retire.is_empty());
}

#[test]
fn leave_behind_instances_only_deregisters() {
    let (rollout, retire) = retirement_actions(LeaveBehind::Instances, false);
    assert_eq!(rollout.phase(), RolloutPhase::Complete);
    assert!(rollout.unfinished().is_empty());
    assert_eq!(retire, vec![
        RolloutAction::RemoveTarget { target: 11 },
        RolloutAction::RemoveTarget { target: 12 },
    ]);
}

#[test]
fn no_leave_behind_deregisters_and_stops() {
    let (rollout, retire) = retirement_actions(LeaveBehind::Nothing, true);
    assert_eq!(rollout.phase(), RolloutPhase::Complete);
    assert!(rollout.failure().is_none());
    assert_eq!(rollout.unfinished(), &[11, 12, 101, 102]);
    assert_eq!(retire, vec![
        RolloutAction::RemoveTarget { target: 11 },
        RolloutAction::RemoveTarget { target: 12 },
        RolloutAction::StopWorkload { workload: 101 },
        RolloutAction::StopWorkload { workload: 102 },
    ]);
}

#[test]
fn missing_created_id_is_a_failure() {
    let plan = plan_rollout(1, "svc".to_string(), "default".to_string(), &[], Some(80), Some(1), &[], LeaveBehind::Nothing).unwrap();
    let (mut rollout, _) = Rollout::start(plan);
    assert_eq!(rollout.advance(StepResult::Done), RolloutAction::CreateWorkload { index: 0 });
    assert_eq!(rollout.advance(StepResult::Done), RolloutAction::Finish);
    let failure = rollout.failure().unwrap();
    assert_eq!(failure.kind, FailureKind::Provision);
    assert_eq!(failure.detail, "");
}
