use ledger_boot::telemetry::{
    checked_init_tracing, export_endpoint, init_tracing, service_name, service_resource,
    TracingOutcomes, TracingStep, TracingVars,
};
use ledger_boot::tls::TlsVars;
use opentelemetry::{Key, Value};

fn text(value: &str) -> Option<String> {
    Some(value.to_string())
}

fn tracing_vars(endpoint: Option<String>, cert: Option<String>) -> TracingVars {
    TracingVars {
        rust_log: None,
        endpoint,
        service_name: None,
        tls: TlsVars { cert: cert.clone(), key: cert.clone(), ca: cert, dev_mode: None },
    }
}

fn outcomes(reads: Vec<Result<String, String>>, exporter_built: Option<bool>) -> TracingOutcomes {
    TracingOutcomes { reads, exporter_built }
}

#[test]
fn a_blank_endpoint_is_none() {
    assert_eq!(export_endpoint(&None), None);
    assert_eq!(export_endpoint(&text("")), None);
    assert_eq!(export_endpoint(&text(" \t\n")), None);
    assert_eq!(export_endpoint(&text(" http://otel:4317 ")), text(" http://otel:4317 "));
}

#[test]
fn the_service_has_a_default_name() {
    assert_eq!(service_name(&None), "ledger-accounting");
    assert_eq!(service_name(&text("other")), "other");
    assert_eq!(service_name(&text("")), "");
}

#[test]
fn the_resource_has_three_attributes() {
    for (var, name) in [(None, "ledger-accounting"), (text("other"), "other")] {
        let resource = service_resource(&var);
        assert_eq!(resource.len(), 3);
        let value = |key: &'static str| resource.get(Key::new(key));
        assert_eq!(value("service.name"), Some(Value::from(name)));
        assert_eq!(value("service.namespace"), Some(Value::from("ai-crypto-onramp")));
        assert_eq!(value("deployment.environment"), Some(Value::from("dev")));
    }
}

#[test]
fn without_an_endpoint_nothing_is_exported() {
    let step = init_tracing(&tracing_vars(text(" "), text("c")), &outcomes(Vec::new(), None));
    assert!(matches!(step, TracingStep::Install { export: None, .. }));
}

#[test]
fn an_exporter_is_built_with_the_files() {
    let vars = tracing_vars(text("http://otel"), text("f"));
    let mut reads = Vec::new();
    for _ in 0..3 {
        match init_tracing(&vars, &outcomes(reads.clone(), None)) {
            TracingStep::Read(path) => assert_eq!(path, "f"),
            other => panic!("{:?}", other),
        }
        reads.push(Ok("PEM".to_string()));
    }
    match init_tracing(&vars, &outcomes(reads.clone(), None)) {
        TracingStep::BuildExporter { endpoint, tls } => {
            assert_eq!(endpoint, "http://otel");
            assert!(format!("{:?}", tls.unwrap()).contains(&format!("{:?}", "PEM".as_bytes())));
        }
        other => panic!("{:?}", other),
    }
    match init_tracing(&vars, &outcomes(reads.clone(), Some(true))) {
        TracingStep::Install { filter, export: Some(export) } => {
            assert_eq!(filter.to_string(), "info");
            assert_eq!(export.resource.len(), 3);
            assert_eq!(export.tracer, "ledger-accounting");
        }
        other => panic!("{:?}", other),
    }
    let step = init_tracing(&vars, &outcomes(reads, Some(false)));
    assert!(matches!(step, TracingStep::Install { export: None, .. }));
}

#[test]
fn a_tls_failure_does_not_stop_the_export() {
    for (vars, reads) in [
        (tracing_vars(text("e"), None), Vec::new()),
        (tracing_vars(text("e"), text("f")), vec![Err("denied".to_string())]),
    ] {
        match init_tracing(&vars, &outcomes(reads, None)) {
            TracingStep::BuildExporter { endpoint, tls } => {
                assert_eq!(endpoint, "e");
                assert!(tls.is_none());
            }
            other => panic!("{:?}", other),
        }
    }
}

#[test]
fn the_tracer_keeps_its_name() {
    let mut vars = tracing_vars(text("e"), None);
    vars.service_name = text("other");
    match init_tracing(&vars, &outcomes(Vec::new(), Some(true))) {
        TracingStep::Install { export: Some(export), .. } => {
            assert_eq!(export.tracer, "ledger-accounting");
            assert_eq!(export.resource.get(Key::new("service.name")), Some(Value::from("other")));
        }
        other => panic!("{:?}", other),
    }
}

#[test]
fn the_log_does_not_depend_on_the_export() {
    for (rust_log, rules) in [
        (None, "info"),
        (text("foo=trace"), "foo=trace"),
        (text("some_target=fake level"), "info"),
        (text("    a}[{=(xx\u{e9}}]=x"), "info"),
    ] {
        for endpoint in [None, text("e")] {
            for built in [true, false] {
                let mut vars = tracing_vars(endpoint.clone(), None);
                vars.rust_log = rust_log.clone();
                match checked_init_tracing(&vars, &outcomes(Vec::new(), Some(built))).unwrap() {
                    TracingStep::Install { filter, export } => {
                        assert_eq!(filter.to_string(), rules);
                        assert_eq!(export.is_some(), endpoint.is_some() && built);
                    }
                    other => panic!("{:?}", other),
                }
            }
        }
    }
}

#[test]
fn a_value_that_cannot_be_sliced_sets_nothing_up() {
    for endpoint in [None, text("e")] {
        let mut vars = tracing_vars(endpoint, text("f"));
        vars.rust_log = text(" \u{e9}=info");
        assert!(checked_init_tracing(&vars, &outcomes(Vec::new(), None)).is_none());
    }
}
