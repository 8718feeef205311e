use unisrv::decl::{Port, PortError};
use unisrv::domain::{as_domain, DomainError};
use unisrv::params::{network_join, parse_env_vars, parse_memory_mb, EnvVarError, MemoryError};
use unisrv::config::CliConfig;
use unisrv::response::{classify_status, StatusClass};
use unisrv::registry::{
    credentials_missing, manifest_url, parse_www_authenticate, registry_root_url, scoped_token_url,
    select_platform, ChallengeError, RegistryTokenResponse,
};
use unisrv::service::{
    add_location, delete_location, location_target, HTTPLocation, HTTPLocationTarget,
    HTTPServiceConfig, LocationError,
};

#[test]
fn memory_sizes_parse() {
    assert_eq!(parse_memory_mb("1024M"), Ok(1024));
    assert_eq!(parse_memory_mb(" 512 "), Ok(512));
    assert_eq!(parse_memory_mb("2g"), Ok(2048));
    assert_eq!(parse_memory_mb("128G"), Ok(131072));
    assert_eq!(parse_memory_mb("128m"), Ok(128));
}

#[test]
fn memory_size_errors() {
    assert_eq!(parse_memory_mb("   "), Err(MemoryError::Empty));
    assert_eq!(parse_memory_mb("64M"), Err(MemoryError::OutOfRange));
    assert_eq!(parse_memory_mb("129G"), Err(MemoryError::OutOfRange));
    assert_eq!(parse_memory_mb("5000000G"), Err(MemoryError::OutOfRange));
    assert_eq!(parse_memory_mb("12X"), Err(MemoryError::InvalidUnit('X')));
    assert_eq!(parse_memory_mb("1a2M"), Err(MemoryError::NotANumber));
    assert_eq!(parse_memory_mb("M"), Err(MemoryError::InvalidNumber));
    assert_eq!(parse_memory_mb("99999999999"), Err(MemoryError::InvalidNumber));
}

#[test]
fn env_vars_split_at_first_equals() {
    let vars = vec!["A=1".to_string(), "URL=a=b".to_string(), "EMPTY=".to_string()];
    let pairs = parse_env_vars(Some(&vars)).unwrap().unwrap();
    assert_eq!(pairs, vec![
        ("A".to_string(), "1".to_string()),
        ("URL".to_string(), "a=b".to_string()),
        ("EMPTY".to_string(), "".to_string()),
    ]);
    assert_eq!(parse_env_vars(None), Ok(None));
    let bad = vec!["A=1".to_string(), "NOPE".to_string()];
    assert_eq!(parse_env_vars(Some(&bad)), Err(EnvVarError { index: 1 }));
}

#[test]
fn platform_domains() {
    assert_eq!(as_domain("app.unisrv.dev"), Ok(("app.unisrv.dev".to_string(), "app".to_string())));
    assert_eq!(as_domain("a.unisrv.dev.unisrv.dev"), Ok(("a.unisrv.dev.unisrv.dev".to_string(), "a".to_string())));
    assert_eq!(as_domain("example.com"), Err(DomainError::InvalidHost));
    assert_eq!(as_domain("app"), Err(DomainError::InvalidHost));
    assert_eq!(as_domain(""), Ok((".unisrv.dev".to_string(), "".to_string())));
}

#[test]
fn bearer_challenge_parses() {
    let header = "Bearer realm=\"https://auth.example.com/token\",service=\"registry.example.com\",scope=\"repository:user/image:pull\"";
    let (realm, service, scope) = parse_www_authenticate(header).unwrap();
    assert_eq!(realm, "https://auth.example.com/token");
    assert_eq!(service.as_deref(), Some("registry.example.com"));
    assert_eq!(scope.as_deref(), Some("repository:user/image:pull"));
}

#[test]
fn bearer_challenge_edge_cases() {
    let (realm, service, scope) = parse_www_authenticate("Bearer  realm = \"r\" , realm=\"s\",junk").unwrap();
    assert_eq!(realm, "s");
    assert_eq!(service, None);
    assert_eq!(scope, None);
    assert_eq!(parse_www_authenticate("Basic realm=\"x\""), Err(ChallengeError::UnsupportedScheme));
    assert_eq!(parse_www_authenticate("Bearer service=\"x\""), Err(ChallengeError::NoRealm));
}

#[test]
fn registry_token_prefers_token() {
    let both = RegistryTokenResponse { token: Some("t".to_string()), access_token: Some("a".to_string()), expires_in: Some(60) };
    assert_eq!(both.into_token(), Some("t".to_string()));
    let access = RegistryTokenResponse { token: None, access_token: Some("a".to_string()), expires_in: None };
    assert_eq!(access.into_token(), Some("a".to_string()));
}

#[test]
fn ports_parse() {
    assert_eq!(Port::parse("8080"), Ok(Port::Tcp(8080)));
    assert_eq!(Port::parse("udp:53"), Ok(Port::Udp(53)));
    assert_eq!(Port::parse("TCP:443"), Ok(Port::Tcp(443)));
    assert_eq!(Port::parse("sctp:1"), Err(PortError::UnknownProtocol));
    assert_eq!(Port::parse("tcp:70000"), Err(PortError::InvalidPort));
    assert_eq!(Port::parse("http"), Err(PortError::InvalidFormat));
    assert_eq!(Port::Udp(53).text(), "udp:53");
    assert_eq!(Port::Tcp(8080).text(), "tcp:8080");
}

#[test]
fn location_target_defaults_to_instances() {
    assert!(matches!(HTTPLocationTarget::default(), HTTPLocationTarget::Instance { group: None }));
}

#[test]
fn api_addresses() {
    let plain = CliConfig::init("http://localhost:8080");
    assert!(!plain.use_https);
    assert_eq!(plain.url("/instances"), "http://localhost:8080/instances");
    assert_eq!(plain.ws_url("/x"), "ws://localhost:8080/x");
    let tls = CliConfig::init("api.unisrv.io");
    assert!(tls.use_https);
    assert_eq!(tls.url("/services"), "https://api.unisrv.io/services");
    assert_eq!(tls.ws_url("/x"), "wss://api.unisrv.io/x");
    assert_eq!(CliConfig::init("https://h").api_host, "h");
}

#[test]
fn registry_rules() {
    assert!(credentials_missing("ghcr.io", false));
    assert!(!credentials_missing("ghcr.io", true));
    assert!(!credentials_missing("index.docker.io", false));
    assert_eq!(
        scoped_token_url("https://auth.docker.io/token", Some("registry.docker.io"), "library/nginx"),
        "https://auth.docker.io/token?service=registry.docker.io&scope=repository:library/nginx:pull"
    );
    assert_eq!(scoped_token_url("https://a/t", None, "x/y"), "https://a/t?scope=repository:x/y:pull");
    let platforms = vec![
        ("arm64".to_string(), "linux".to_string()),
        ("amd64".to_string(), "windows".to_string()),
        ("amd64".to_string(), "linux".to_string()),
    ];
    assert_eq!(select_platform(&platforms), Some(2));
    assert_eq!(select_platform(&platforms[..2]), None);
}

#[test]
fn locations_add_and_delete() {
    let mut config = HTTPServiceConfig { locations: vec![], allow_http: false };
    let target = location_target("srv", Some("blue")).unwrap();
    assert!(matches!(&target, HTTPLocationTarget::Instance { group: Some(g) } if g == "blue"));
    assert!(matches!(location_target("service", Some("")), Ok(HTTPLocationTarget::Instance { group: None })));
    assert!(matches!(location_target("url", None), Err(LocationError::UrlRequired)));
    assert!(matches!(location_target("file", None), Err(LocationError::InvalidTargetType)));
    let loc = |p: &str| HTTPLocation { path: p.to_string(), override_404: None, target: HTTPLocationTarget::default() };
    assert_eq!(add_location(&mut config, loc("/")), Ok(()));
    assert_eq!(add_location(&mut config, loc("/api")), Ok(()));
    assert_eq!(add_location(&mut config, loc("/api")), Err(LocationError::PathExists));
    assert_eq!(config.locations.len(), 2);
    assert_eq!(delete_location(&mut config, "/missing"), Err(LocationError::PathNotFound));
    assert_eq!(delete_location(&mut config, "/"), Ok(()));
    assert_eq!(config.locations.len(), 1);
    assert_eq!(config.locations[0].path, "/api");
}

#[test]
fn network_joins_split_at_at() {
    assert_eq!(network_join("backend"), (None, "backend".to_string()));
    assert_eq!(network_join("@backend"), (None, "backend".to_string()));
    assert_eq!(network_join("10.0.0.5@backend"), (Some("10.0.0.5".to_string()), "backend".to_string()));
    assert_eq!(network_join("a@b@c"), (Some("a".to_string()), "b@c".to_string()));
}

#[test]
fn status_classes() {
    assert_eq!(classify_status(200), StatusClass::Success);
    assert_eq!(classify_status(204), StatusClass::Success);
    assert_eq!(classify_status(404), StatusClass::Client);
    assert_eq!(classify_status(503), StatusClass::Unavailable);
    assert_eq!(classify_status(500), StatusClass::Other);
    assert_eq!(classify_status(302), StatusClass::Other);
}

#[test]
fn registry_addresses() {
    assert_eq!(registry_root_url("ghcr.io"), "https://ghcr.io/v2/");
    assert_eq!(
        manifest_url("index.docker.io", "library/nginx", None),
        "https://index.docker.io/v2/library/nginx/manifests/latest"
    );
    assert_eq!(
        manifest_url("ghcr.io", "org/app", Some("sha256:abc")),
        "https://ghcr.io/v2/org/app/manifests/sha256:abc"
    );
}
