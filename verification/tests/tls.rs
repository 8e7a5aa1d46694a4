use ledger_boot::tls::{
    dev_mode_at_start, is_dev_mode, load_otlp_tls, load_server_tls, next_pem, PemFile, PemStep,
    TlsError, TlsLoad, TlsMaterial, TlsVars,
};
use tonic::transport::ClientTlsConfig;

type Read = Result<String, String>;

fn vars(cert: &str, key: &str, ca: &str, dev_mode: &str) -> TlsVars {
    let set = |value: &str| {
        if value.is_empty() {
            None
        } else {
            Some(value.to_string())
        }
    };
    TlsVars { cert: set(cert), key: set(key), ca: set(ca), dev_mode: set(dev_mode) }
}

fn no_file(_path: &str) -> Read {
    Err("No such file or directory (os error 2)".to_string())
}

fn self_signed(path: &str) -> Read {
    let certified_key =
        rcgen::generate_simple_self_signed(vec!["localhost".to_string()]).unwrap();
    Ok(match path {
        "/tmp/key.pem" => certified_key.key_pair.serialize_pem(),
        _ => certified_key.cert.pem(),
    })
}

fn by_name(path: &str) -> Read {
    match path {
        "c" => Ok("CERT".to_string()),
        "k" => Ok("KEY".to_string()),
        "a" => Ok("AUTHORITY".to_string()),
        _ => no_file(path),
    }
}

fn server(vars: &TlsVars, read: fn(&str) -> Read) -> (Result<Option<TlsMaterial>, TlsError>, usize) {
    let mut reads = Vec::new();
    loop {
        match load_server_tls(vars, &reads) {
            TlsLoad::Read(path) => reads.push(read(&path)),
            TlsLoad::Done(result) => return (result, reads.len()),
        }
    }
}

fn otlp(vars: &TlsVars, read: fn(&str) -> Read) -> Result<Option<ClientTlsConfig>, TlsError> {
    let mut reads = Vec::new();
    loop {
        match load_otlp_tls(vars, &reads) {
            TlsLoad::Read(path) => reads.push(read(&path)),
            TlsLoad::Done(result) => return result,
        }
    }
}

#[test]
fn dev_mode_returns_none() {
    let (cfg, reads) = server(&vars("", "", "", "1"), no_file);
    assert!(cfg.unwrap().is_none());
    assert_eq!(reads, 0);
}

#[test]
fn prod_missing_env_is_error() {
    let (cfg, reads) = server(&vars("", "", "", "0"), no_file);
    assert!(cfg.is_err());
    assert_eq!(reads, 0);
}

#[test]
fn partial_set_is_error() {
    let (cfg, reads) = server(&vars("/x/cert.pem", "", "", "1"), no_file);
    assert!(cfg.is_err());
    assert_eq!(reads, 0);
}

#[test]
fn bad_cert_files_is_error() {
    let (cfg, reads) = server(&vars("/no/cert.pem", "/no/key.pem", "/no/ca.pem", "0"), no_file);
    assert_eq!(
        cfg.unwrap_err().message(),
        "read cert file /no/cert.pem: No such file or directory (os error 2)"
    );
    assert_eq!(reads, 1);
}

#[test]
fn valid_certs_returns_config() {
    let (cfg, reads) =
        server(&vars("/tmp/cert.pem", "/tmp/key.pem", "/tmp/ca.pem", "0"), self_signed);
    let cfg = cfg.unwrap().unwrap();
    assert!(format!("{:?}", cfg.server_config).contains("ServerTlsConfig"));
    assert_eq!(reads, 3);
}

#[test]
fn load_otlp_tls_dev_mode_returns_none() {
    let cfg = otlp(&vars("", "", "", "1"), no_file).unwrap();
    assert!(cfg.is_none());
}

#[test]
fn load_otlp_tls_prod_missing_env_is_error() {
    assert!(otlp(&vars("", "", "", "0"), no_file).is_err());
}

#[test]
fn load_otlp_tls_partial_set_is_error() {
    assert!(otlp(&vars("/x/cert.pem", "", "", "1"), no_file).is_err());
}

#[test]
fn load_otlp_tls_bad_cert_files_is_error() {
    assert!(otlp(&vars("/no/cert.pem", "/no/key.pem", "/no/ca.pem", "0"), no_file).is_err());
}

#[test]
fn load_otlp_tls_valid_certs_returns_config() {
    let cfg = otlp(&vars("/tmp/cert.pem", "/tmp/key.pem", "/tmp/ca.pem", "0"), self_signed)
        .unwrap()
        .unwrap();
    assert!(format!("{:?}", cfg).contains("ClientTlsConfig"));
}

#[test]
fn the_exporter_holds_what_was_read() {
    let cfg = otlp(&vars("c", "k", "a", ""), by_name).unwrap().unwrap();
    let shown = format!("{:?}", cfg);
    let certs = format!("certs: [Certificate {{ pem: {:?} }}]", "AUTHORITY".as_bytes());
    let identity = format!(
        "identity: Some(Identity {{ cert: Certificate {{ pem: {:?} }}, key: {:?} }})",
        "CERT".as_bytes(),
        "KEY".as_bytes()
    );
    assert!(shown.contains(&certs), "{}", shown);
    assert!(shown.contains(&identity), "{}", shown);
    assert!(shown.contains("domain: None"), "{}", shown);
    assert!(shown.contains("trust_anchors: []"), "{}", shown);
    assert!(shown.contains("assume_http2: false"), "{}", shown);
}

#[test]
fn only_one_switches_dev_mode_on() {
    assert!(is_dev_mode(&Some("1".to_string())));
    assert!(!is_dev_mode(&Some("0".to_string())));
    assert!(!is_dev_mode(&Some("true".to_string())));
    assert!(!is_dev_mode(&Some(" 1".to_string())));
    assert!(!is_dev_mode(&Some("".to_string())));
    assert!(!is_dev_mode(&None));
}

#[test]
fn a_service_under_test_defaults_to_dev_mode() {
    assert_eq!(dev_mode_at_start(true, &None), Some("1".to_string()));
    assert_eq!(dev_mode_at_start(true, &Some("0".to_string())), Some("0".to_string()));
    assert_eq!(dev_mode_at_start(false, &None), None);
    assert_eq!(dev_mode_at_start(false, &Some("x".to_string())), Some("x".to_string()));
}

#[test]
fn each_error_has_its_message() {
    assert_eq!(
        TlsError::Missing.message(),
        "TLS_CERT_FILE/TLS_KEY_FILE/TLS_CA_FILE required when DEV_MODE!=1"
    );
    assert_eq!(
        TlsError::Incomplete.message(),
        "TLS_CERT_FILE, TLS_KEY_FILE and TLS_CA_FILE must all be set together"
    );
    let unreadable = |file: PemFile| {
        TlsError::Unreadable { file, path: "/p".to_string(), cause: "denied".to_string() }.message()
    };
    assert_eq!(unreadable(PemFile::Cert), "read cert file /p: denied");
    assert_eq!(unreadable(PemFile::Key), "read key file /p: denied");
    assert_eq!(unreadable(PemFile::Ca), "read ca file /p: denied");
}

#[test]
fn each_partial_set_is_incomplete() {
    for (cert, key, ca) in [
        ("c", "", ""),
        ("", "k", ""),
        ("", "", "a"),
        ("c", "k", ""),
        ("c", "", "a"),
        ("", "k", "a"),
    ] {
        for dev_mode in ["", "0", "1"] {
            let (result, reads) = server(&vars(cert, key, ca, dev_mode), by_name);
            assert!(matches!(result, Err(TlsError::Incomplete)));
            assert_eq!(reads, 0);
        }
    }
}

#[test]
fn an_empty_variable_counts_as_unset() {
    let empty = Some(String::new());
    let vars = TlsVars {
        cert: empty.clone(),
        key: empty.clone(),
        ca: empty,
        dev_mode: Some("1".to_string()),
    };
    assert!(matches!(next_pem(&vars, &Vec::new()), PemStep::Off));
}

#[test]
fn files_are_read_in_order_and_the_result_is_final() {
    let vars = vars("c", "k", "a", "1");
    let mut reads: Vec<Read> = Vec::new();
    for path in ["c", "k", "a"] {
        match next_pem(&vars, &reads) {
            PemStep::Read(next) => assert_eq!(next, path),
            other => panic!("{:?}", other),
        }
        reads.push(by_name(path));
    }
    for _ in 0..2 {
        match next_pem(&vars, &reads) {
            PemStep::Ready(bundle) => {
                assert_eq!(bundle.cert, "CERT");
                assert_eq!(bundle.key, "KEY");
                assert_eq!(bundle.ca, "AUTHORITY");
            }
            other => panic!("{:?}", other),
        }
        reads.push(Err("late".to_string()));
    }
}

#[test]
fn the_first_unreadable_file_ends_the_load() {
    let (result, reads) = server(&vars("c", "missing", "a", ""), by_name);
    assert_eq!(
        result.unwrap_err().message(),
        "read key file missing: No such file or directory (os error 2)"
    );
    assert_eq!(reads, 2);
    let (result, reads) = server(&vars("c", "k", "missing", ""), by_name);
    assert_eq!(
        result.unwrap_err().message(),
        "read ca file missing: No such file or directory (os error 2)"
    );
    assert_eq!(reads, 3);
}

#[test]
fn server_and_exporter_agree() {
    for (cert, key, ca) in [("", "", ""), ("c", "", ""), ("c", "k", "a"), ("c", "x", "a")] {
        for dev_mode in ["", "1"] {
            let vars = vars(cert, key, ca, dev_mode);
            let (server, _) = server(&vars, by_name);
            let exporter = otlp(&vars, by_name);
            match (server, exporter) {
                (Ok(s), Ok(e)) => assert_eq!(s.is_some(), e.is_some()),
                (Err(s), Err(e)) => assert_eq!(s.message(), e.message()),
                (s, e) => panic!("{:?} {:?}", s.is_ok(), e.is_ok()),
            }
        }
    }
}
