use ledger_boot::boot::{
    checked_ports, listen_ports, next_step, verify_chain_at_startup, BootConfig, BootOutcomes, BootStep,
    ChainBreak, FAILURE, LISTEN_HOST,
};
use ledger_boot::snapshot::{snapshot_step, SnapshotEvent, SnapshotStep};

fn config(db_url: &str, salt: Option<&str>) -> BootConfig {
    BootConfig { db_url: db_url.to_string(), hash_chain_salt: salt.map(|s| s.to_string()) }
}

fn nothing() -> BootOutcomes {
    BootOutcomes {
        isolation: None,
        connect: None,
        migrate: None,
        hydrate: None,
        audit: None,
        chain: None,
    }
}

/// Takes the steps one after the other; the step named by `fails` fails with the
/// cause `why`. Returns the names of the steps, the lines and the exit code.
fn start(config: &BootConfig, fails: &str) -> (Vec<&'static str>, Vec<String>, Option<i32>) {
    let mut outcomes = nothing();
    let mut steps = Vec::new();
    let mut printed = Vec::new();
    let outcome = |name: &str| if name == fails { Err("why".to_string()) } else { Ok(()) };
    loop {
        match next_step(config, &outcomes) {
            BootStep::CheckIsolation => {
                steps.push("isolation");
                outcomes.isolation = Some(outcome("isolation"));
            }
            BootStep::Connect { url, salt } => {
                assert_eq!(url, config.db_url);
                assert_eq!(salt, config.hash_chain_salt.clone().unwrap_or_default());
                steps.push("connect");
                outcomes.connect = Some(outcome("connect"));
            }
            BootStep::Migrate => {
                steps.push("migrate");
                outcomes.migrate = Some(outcome("migrate"));
            }
            BootStep::Hydrate => {
                steps.push("hydrate");
                outcomes.hydrate = Some(outcome("hydrate"));
            }
            BootStep::OpenAudit { in_memory, lines } => {
                assert_eq!(in_memory, config.db_url.is_empty());
                printed.extend(lines);
                steps.push("audit");
                outcomes.audit = Some(outcome("audit"));
            }
            BootStep::VerifyChain => {
                steps.push("chain");
                outcomes.chain = Some(outcome("chain").map_err(|reason| ChainBreak {
                    entry_id: "e7".to_string(),
                    reason,
                }));
            }
            BootStep::Serve { line } => {
                printed.push(line);
                return (steps, printed, None);
            }
            BootStep::Exit { code, line } => {
                printed.push(line);
                return (steps, printed, Some(code));
            }
        }
    }
}

#[test]
fn verify_chain_at_startup_passes_on_clean_store() {
    let verdict = verify_chain_at_startup(&Ok(()));
    assert_eq!(verdict.exit, None);
    assert_eq!(verdict.line, "[chain] verification passed at startup");
}

#[test]
fn a_broken_chain_is_fatal() {
    let verdict = verify_chain_at_startup(&Err(ChainBreak {
        entry_id: "e1".to_string(),
        reason: "hash mismatch".to_string(),
    }));
    assert_eq!(verdict.exit, Some(1));
    assert_eq!(verdict.line, "[chain] FATAL: hash chain broken at entry e1: hash mismatch");
}

#[test]
fn a_store_in_memory_needs_no_database() {
    let (steps, lines, exit) = start(&config("", None), "");
    assert_eq!(steps, vec!["isolation", "audit", "chain"]);
    assert_eq!(lines, vec!["[chain] verification passed at startup"]);
    assert_eq!(exit, None);
}

#[test]
fn a_database_is_connected_migrated_and_loaded_first() {
    let (steps, lines, exit) = start(&config("postgres://db", Some("salt")), "");
    assert_eq!(steps, vec!["isolation", "connect", "migrate", "hydrate", "audit", "chain"]);
    assert_eq!(
        lines,
        vec![
            "[boot] connected to postgres at postgres://db",
            "[chain] verification passed at startup"
        ]
    );
    assert_eq!(exit, None);
}

#[test]
fn a_missing_salt_is_warned_of() {
    let (_, lines, exit) = start(&config("postgres://db", None), "");
    assert_eq!(
        lines,
        vec![
            "[boot] WARNING: HASH_CHAIN_SALT unset; hash chain is forgeable by anyone with DB write access",
            "[boot] connected to postgres at postgres://db",
            "[chain] verification passed at startup"
        ]
    );
    assert_eq!(exit, None);
}

#[test]
fn each_failure_stops_the_service() {
    let order = ["isolation", "connect", "migrate", "hydrate", "audit", "chain"];
    let last_lines = [
        "[boot] why",
        "[boot] failed to connect to postgres: why",
        "[boot] why",
        "[boot] why",
        "[boot] audit sink init: why",
        "[chain] FATAL: hash chain broken at entry e7: why",
    ];
    for (i, fails) in order.iter().enumerate() {
        let (steps, lines, exit) = start(&config("postgres://db", Some("s")), fails);
        assert_eq!(steps, order[..=i].to_vec());
        assert_eq!(lines.last().unwrap(), last_lines[i]);
        assert_eq!(exit, Some(FAILURE));
    }
}

#[test]
fn the_end_is_final() {
    let mut outcomes = nothing();
    outcomes.isolation = Some(Err("no".to_string()));
    outcomes.audit = Some(Ok(()));
    outcomes.chain = Some(Ok(()));
    match next_step(&config("", None), &outcomes) {
        BootStep::Exit { code, line } => {
            assert_eq!(code, 1);
            assert_eq!(line, "[boot] no");
        }
        other => panic!("{:?}", other),
    }
}

#[test]
fn grpc_listens_behind_rest() {
    assert_eq!(listen_ports(8080), (8080, 8081));
    assert_eq!(listen_ports(0), (0, 1));
    assert_eq!(listen_ports(65534), (65534, 65535));
    assert_eq!(checked_ports(8080), Some((8080, 8081)));
    assert_eq!(checked_ports(65535), None);
    assert_eq!(LISTEN_HOST, [0, 0, 0, 0]);
}

#[test]
fn a_run_writes_no_more_than_once_per_interval() {
    let interval: u64 = 5;
    let mut time: u64 = 0;
    let mut written_at: Vec<u64> = Vec::new();
    let mut event = SnapshotEvent::Started;
    for _ in 0..20 {
        event = match snapshot_step(&event) {
            SnapshotStep::Sleep { .. } => {
                time += interval;
                SnapshotEvent::Slept
            }
            SnapshotStep::Write => {
                written_at.push(time);
                SnapshotEvent::Wrote(1)
            }
        };
        assert!(written_at.len() as u64 * interval <= time);
    }
    assert_eq!(written_at, (1..=10).map(|n| n * interval).collect::<Vec<u64>>());
}

#[test]
fn snapshots_are_written_once_per_interval() {
    assert!(matches!(
        snapshot_step(&SnapshotEvent::Started),
        SnapshotStep::Sleep { line: None }
    ));
    assert!(matches!(snapshot_step(&SnapshotEvent::Slept), SnapshotStep::Write));
    match snapshot_step(&SnapshotEvent::Wrote(12)) {
        SnapshotStep::Sleep { line: Some(line) } => {
            assert_eq!(line, "[snapshot] wrote 12 balance snapshots")
        }
        other => panic!("{:?}", other),
    }
    match snapshot_step(&SnapshotEvent::Wrote(0)) {
        SnapshotStep::Sleep { line: Some(line) } => {
            assert_eq!(line, "[snapshot] wrote 0 balance snapshots")
        }
        other => panic!("{:?}", other),
    }
}
