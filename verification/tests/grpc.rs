use ledger_boot::grpc::{
    allowed_callers, configured_server, server_error_line, server_with, start_grpc, GrpcStart,
};
use ledger_boot::tls::{TlsError, TlsVars};
use tonic::transport::{Certificate, Identity, Server, ServerTlsConfig};

type Read = Result<String, String>;

fn callers(list: &str) -> Vec<String> {
    allowed_callers(&Some(list.to_string()))
}

fn all_named(dev_mode: &str) -> TlsVars {
    TlsVars {
        cert: Some("c".to_string()),
        key: Some("k".to_string()),
        ca: Some("a".to_string()),
        dev_mode: Some(dev_mode.to_string()),
    }
}

fn none_named(dev_mode: Option<&str>) -> TlsVars {
    TlsVars { cert: None, key: None, ca: None, dev_mode: dev_mode.map(|s| s.to_string()) }
}

fn self_signed() -> (String, String) {
    let certified_key =
        rcgen::generate_simple_self_signed(vec!["localhost".to_string()]).unwrap();
    (certified_key.cert.pem(), certified_key.key_pair.serialize_pem())
}

#[test]
fn default_callers_are_two() {
    assert_eq!(
        allowed_callers(&None),
        vec!["transaction-orchestrator", "treasury-orchestration"]
    );
}

#[test]
fn callers_are_trimmed_and_kept_in_order() {
    assert_eq!(callers(" b , a,\tc d\n"), vec!["b", "a", "c d"]);
    assert_eq!(callers("one"), vec!["one"]);
}

#[test]
fn an_empty_list_has_one_empty_name() {
    assert_eq!(callers(""), vec![""]);
    assert_eq!(callers("  "), vec![""]);
    assert_eq!(callers("a,,b,"), vec!["a", "", "b", ""]);
}

#[test]
fn no_name_holds_a_comma_or_outer_white_space() {
    let list = " x ,, y z ,\u{a0}";
    let names = callers(list);
    assert_eq!(names.len(), list.matches(',').count() + 1);
    for name in names {
        assert!(!name.contains(','));
        assert_eq!(name.trim(), name);
    }
}

#[test]
fn plain_text_is_served_in_dev_mode_only() {
    assert!(matches!(start_grpc(&none_named(Some("1")), &Vec::new()), GrpcStart::Serve(_)));
    for dev_mode in [None, Some("0"), Some("yes")] {
        match start_grpc(&none_named(dev_mode), &Vec::new()) {
            GrpcStart::Refuse(line) => assert_eq!(
                line,
                "[grpc] TLS config error: TLS_CERT_FILE/TLS_KEY_FILE/TLS_CA_FILE required when DEV_MODE!=1"
            ),
            other => panic!("{:?}", other),
        }
    }
}

#[test]
fn valid_files_are_served_with_tls() {
    let (cert, key) = self_signed();
    let files = [cert.clone(), key, cert];
    let mut reads: Vec<Read> = Vec::new();
    for (path, text) in ["c", "k", "a"].iter().zip(files) {
        match start_grpc(&all_named("0"), &reads) {
            GrpcStart::Read(next) => assert_eq!(&next, path),
            other => panic!("{:?}", other),
        }
        reads.push(Ok(text));
    }
    assert!(matches!(start_grpc(&all_named("0"), &reads), GrpcStart::Serve(_)));
}

#[test]
fn files_that_are_not_accepted_are_refused() {
    let (cert, key) = self_signed();
    let good = |text: &String| -> Read { Ok(text.clone()) };
    let junk = || -> Read { Ok("not a certificate".to_string()) };
    for reads in [
        vec![good(&key), good(&cert), good(&cert)],
        vec![good(&cert), good(&key), good(&key)],
        vec![junk(), good(&key), good(&cert)],
        vec![good(&cert), junk(), good(&cert)],
        vec![good(&cert), good(&key), junk()],
    ] {
        match start_grpc(&all_named("1"), &reads) {
            GrpcStart::Refuse(line) => {
                assert_eq!(line, "[grpc] TLS config error: transport error")
            }
            other => panic!("{:?}", other),
        }
    }
}

#[test]
fn an_unreadable_file_is_refused() {
    let reads = vec![Ok("x".to_string()), Err("denied".to_string())];
    match start_grpc(&all_named("1"), &reads) {
        GrpcStart::Refuse(line) => {
            assert_eq!(line, "[grpc] TLS config error: read key file k: denied")
        }
        other => panic!("{:?}", other),
    }
}

#[test]
fn loaded_settings_decide_about_the_server() {
    assert!(server_with(Ok(None)).is_ok());
    assert_eq!(
        server_with(Err(TlsError::Incomplete)).unwrap_err(),
        "[grpc] TLS config error: TLS_CERT_FILE, TLS_KEY_FILE and TLS_CA_FILE must all be set together"
    );
}

#[test]
fn an_outside_refusal_is_told() {
    assert!(configured_server(Ok(Server::builder())).is_ok());
    let config = ServerTlsConfig::new()
        .identity(Identity::from_pem("x", "y"))
        .client_ca_root(Certificate::from_pem("z"));
    let refused = Server::builder().tls_config(config);
    assert!(refused.is_err());
    assert_eq!(
        configured_server(refused).unwrap_err(),
        "[grpc] TLS config error: transport error"
    );
}

#[test]
fn a_server_error_is_told() {
    assert_eq!(server_error_line("transport error"), "[grpc] server error: transport error");
}
