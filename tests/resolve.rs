use unisrv::resolve::{resolve_id, EntityKind, ResolveError, ResolveFailure};
use unisrv::resources::{
    parse_target, resolve_host_id, resolve_network_id, resolve_service_id, resolve_uuid,
    HostResponse, InstanceResponse, NetworkListItem, Service, TargetError, WorkloadState,
};

const A: u128 = 0x123e4567_e89b_12d3_a456_426614174000;
const B: u128 = 0x123f0000_0000_4000_8000_000000000001;
const C: u128 = 0xabcdef01_2345_4678_9abc_def012345678;

fn services() -> Vec<Service> {
    vec![
        Service { id: A, name: "web".to_string(), service_type: "http".to_string() },
        Service { id: B, name: "api".to_string(), service_type: "http".to_string() },
        Service { id: C, name: "db".to_string(), service_type: "tcp".to_string() },
    ]
}

#[test]
fn full_uuid_resolves_without_lookup() {
    let r = resolve_service_id("00000000-0000-0000-0000-000000000007", &services());
    assert_eq!(r, Ok(7));
}

#[test]
fn exact_name_resolves() {
    assert_eq!(resolve_service_id("api", &services()), Ok(B));
}

#[test]
fn unique_prefix_resolves() {
    assert_eq!(resolve_service_id("abcd", &services()), Ok(C));
    assert_eq!(resolve_service_id("123e4567-e8", &services()), Ok(A));
}

#[test]
fn shared_prefix_is_ambiguous() {
    let r = resolve_service_id("123", &services());
    assert_eq!(
        r,
        Err(ResolveError {
            kind: EntityKind::Service,
            failure: ResolveFailure::Ambiguous { count: 2 }
        })
    );
}

#[test]
fn unknown_prefix_is_not_found() {
    let r = resolve_network_id("ffff", &[NetworkListItem {
        id: A,
        name: "net".to_string(),
        ipv4_cidr: "10.0.0.0/8".to_string(),
        instance_count: None,
    }]);
    assert_eq!(
        r,
        Err(ResolveError { kind: EntityKind::Network, failure: ResolveFailure::NotFound })
    );
}

#[test]
fn non_hex_unknown_name_is_not_found() {
    let r = resolve_host_id("example.com", &[HostResponse {
        id: A,
        host: "other.com".to_string(),
        service_id: None,
    }]);
    assert_eq!(r, Err(ResolveError { kind: EntityKind::Host, failure: ResolveFailure::NotFound }));
}

#[test]
fn host_resolves_by_domain() {
    let r = resolve_host_id("example.com", &[HostResponse {
        id: C,
        host: "example.com".to_string(),
        service_id: Some(A),
    }]);
    assert_eq!(r, Ok(C));
}

#[test]
fn duplicate_names_fall_through_to_prefix() {
    let items = vec![
        Service { id: A, name: "dead".to_string(), service_type: "http".to_string() },
        Service { id: C, name: "dead".to_string(), service_type: "http".to_string() },
    ];
    assert_eq!(resolve_id("dead", &items, EntityKind::Service), Err(ResolveError {
        kind: EntityKind::Service,
        failure: ResolveFailure::NotFound
    }));
}

#[test]
fn workloads_resolve_among_running_only() {
    let items = vec![
        InstanceResponse { id: A, name: Some("svc_default_ab12_0".to_string()), state: WorkloadState::Other },
        InstanceResponse { id: B, name: Some("worker".to_string()), state: WorkloadState::Running },
    ];
    assert_eq!(resolve_uuid("worker", &items), Ok(B));
    assert_eq!(resolve_uuid("123", &items), Ok(B));
    assert_eq!(
        resolve_uuid("svc_default_ab12_0", &items),
        Err(ResolveError { kind: EntityKind::Workload, failure: ResolveFailure::NotFound })
    );
}

#[test]
fn workload_state_reads_running() {
    assert_eq!(WorkloadState::from_text("running"), WorkloadState::Running);
    assert_eq!(WorkloadState::from_text("stopped"), WorkloadState::Other);
    assert_eq!(WorkloadState::from_text("Running"), WorkloadState::Other);
}

#[test]
fn uppercase_simple_uuid_resolves() {
    assert_eq!(resolve_service_id("123E4567E89B12D3A456426614174000", &services()), Ok(A));
}

#[test]
fn prefix_reads_hyphenated_text() {
    assert_eq!(resolve_service_id("123e4567-e89b-12d3", &services()), Ok(A));
    assert_eq!(
        resolve_service_id("123e4567e89b", &services()),
        Err(ResolveError { kind: EntityKind::Service, failure: ResolveFailure::NotFound })
    );
}

#[test]
fn targets_name_workload_and_port() {
    let items = vec![InstanceResponse { id: B, name: Some("worker".to_string()), state: WorkloadState::Running }];
    assert_eq!(parse_target("worker:8080", &items), Ok((B, 8080)));
    assert_eq!(parse_target("123f:443", &items), Ok((B, 443)));
    assert_eq!(parse_target("worker", &items), Err(TargetError::Format));
    assert_eq!(parse_target("worker:1:2", &items), Err(TargetError::Format));
    assert_eq!(parse_target("worker:http", &items), Err(TargetError::Port));
    assert_eq!(
        parse_target("nobody:80", &items),
        Err(TargetError::Workload(ResolveError { kind: EntityKind::Workload, failure: ResolveFailure::NotFound }))
    );
}
