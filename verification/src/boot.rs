//! The start of the service: which steps are taken in which order, which of them
//! stop it, and what it tells of them.
//!
//! The steps themselves are left to the caller. [`next_step`] is called again
//! and again with the outcomes so far, and answers with what is to be done next.
use vstd::prelude::*;
use crate::text::followed_by;

verus! {

/// The exit code of a service that could not start.
pub const FAILURE: i32 = 1;

/// The address that the service listens on: all interfaces.
pub const LISTEN_HOST: [u8; 4] = [0, 0, 0, 0];

/// What the start of the service depends on.
pub struct BootConfig {
    /// The database, empty for a store that is held in memory.
    pub db_url: String,
    /// The salt of the hash chain.
    pub hash_chain_salt: Option<String>,
}

/// Where the hash chain of the entries is broken, and how.
#[derive(Debug)]
pub struct ChainBreak {
    pub entry_id: String,
    pub reason: String,
}

/// What has come of the steps so far, `None` for a step that was not taken. A
/// failure is told by what it displays.
pub struct BootOutcomes {
    /// The check that the configuration is isolated.
    pub isolation: Option<Result<(), String>>,
    /// The connection to the database.
    pub connect: Option<Result<(), String>>,
    /// The migrations of the database.
    pub migrate: Option<Result<(), String>>,
    /// The loading of the stored entries.
    pub hydrate: Option<Result<(), String>>,
    /// The opening of the audit sink.
    pub audit: Option<Result<(), String>>,
    /// The verification of the hash chain.
    pub chain: Option<Result<(), ChainBreak>>,
}

/// What is to be done next. The lines are to be printed first.
#[derive(Debug)]
pub enum BootStep {
    /// To check that the configuration is isolated.
    CheckIsolation,
    /// To connect to the database.
    Connect { url: String, salt: String },
    /// To run the migrations of the database.
    Migrate,
    /// To load the stored entries.
    Hydrate,
    /// To open the audit sink of the store: the one that was connected to, or a
    /// new one in memory.
    OpenAudit { in_memory: bool, lines: Vec<String> },
    /// To verify the hash chain.
    VerifyChain,
    /// To serve.
    Serve { line: String },
    /// To exit.
    Exit { code: i32, line: String },
}

/// The contents of a [`BootStep`].
pub enum BootStepView {
    CheckIsolation,
    Connect { url: Seq<char>, salt: Seq<char> },
    Migrate,
    Hydrate,
    OpenAudit { in_memory: bool, lines: Seq<Seq<char>> },
    VerifyChain,
    Serve { line: Seq<char> },
    Exit { code: int, line: Seq<char> },
}

impl View for BootStep {
    type V = BootStepView;

    open spec fn view(&self) -> BootStepView {
        match self {
            BootStep::CheckIsolation => BootStepView::CheckIsolation,
            BootStep::Connect { url, salt } => BootStepView::Connect { url: url@, salt: salt@ },
            BootStep::Migrate => BootStepView::Migrate,
            BootStep::Hydrate => BootStepView::Hydrate,
            BootStep::OpenAudit { in_memory, lines } => BootStepView::OpenAudit {
                in_memory: *in_memory,
                lines: crate::text::contents(lines@),
            },
            BootStep::VerifyChain => BootStepView::VerifyChain,
            BootStep::Serve { line } => BootStepView::Serve { line: line@ },
            BootStep::Exit { code, line } => BootStepView::Exit { code: *code as int, line: line@ },
        }
    }
}

/// What the verification of the hash chain means for the start.
#[derive(Debug)]
pub struct ChainVerdict {
    /// The line that tells of it.
    pub line: String,
    /// The code that the service exits with, if it does.
    pub exit: Option<i32>,
}

/// The line that tells where the hash chain is broken.
pub open spec fn chain_break_line(entry_id: Seq<char>, reason: Seq<char>) -> Seq<char> {
    "[chain] FATAL: hash chain broken at entry "@ + entry_id + ": "@ + reason
}

/// What stops the service after a failed step.
pub open spec fn stop(prefix: Seq<char>, cause: Seq<char>) -> BootStepView {
    BootStepView::Exit { code: FAILURE as int, line: prefix + cause }
}

/// The lines that tell of a connected database: that the hash chain has no salt,
/// where it has none, and where the database is.
pub open spec fn connected_lines(config: BootConfig) -> Seq<Seq<char>> {
    let connected = "[boot] connected to postgres at "@ + config.db_url@;
    if config.hash_chain_salt is None {
        seq![
            "[boot] WARNING: HASH_CHAIN_SALT unset; hash chain is forgeable by anyone with DB write access"@,
            connected,
        ]
    } else {
        seq![connected]
    }
}

/// What is left to be done to the database, `None` once it is ready.
pub open spec fn database_step(config: BootConfig, outcomes: BootOutcomes) -> Option<BootStepView> {
    match outcomes.connect {
        None => Some(
            BootStepView::Connect {
                url: config.db_url@,
                salt: crate::tls::text_of(config.hash_chain_salt),
            },
        ),
        Some(Err(cause)) => Some(stop("[boot] failed to connect to postgres: "@, cause@)),
        Some(Ok(())) => match outcomes.migrate {
            None => Some(BootStepView::Migrate),
            Some(Err(cause)) => Some(stop("[boot] "@, cause@)),
            Some(Ok(())) => match outcomes.hydrate {
                None => Some(BootStepView::Hydrate),
                Some(Err(cause)) => Some(stop("[boot] "@, cause@)),
                Some(Ok(())) => None,
            },
        },
    }
}

/// What is to be done once the store is there.
pub open spec fn store_step(config: BootConfig, outcomes: BootOutcomes) -> BootStepView {
    match outcomes.audit {
        None => BootStepView::OpenAudit {
            in_memory: config.db_url@.len() == 0,
            lines: if config.db_url@.len() == 0 {
                Seq::empty()
            } else {
                connected_lines(config)
            },
        },
        Some(Err(cause)) => stop("[boot] audit sink init: "@, cause@),
        Some(Ok(())) => match outcomes.chain {
            None => BootStepView::VerifyChain,
            Some(Err(broken)) => BootStepView::Exit {
                code: FAILURE as int,
                line: chain_break_line(broken.entry_id@, broken.reason@),
            },
            Some(Ok(())) => BootStepView::Serve {
                line: "[chain] verification passed at startup"@,
            },
        },
    }
}

/// What is to be done next.
pub open spec fn boot_step(config: BootConfig, outcomes: BootOutcomes) -> BootStepView {
    match outcomes.isolation {
        None => BootStepView::CheckIsolation,
        Some(Err(cause)) => stop("[boot] "@, cause@),
        Some(Ok(())) => if config.db_url@.len() == 0 {
            store_step(config, outcomes)
        } else {
            match database_step(config, outcomes) {
                Some(step) => step,
                None => store_step(config, outcomes),
            }
        },
    }
}

/// What the verification of the hash chain means for the start: a service whose
/// chain is broken does not start.
pub fn verify_chain_at_startup(verified: &Result<(), ChainBreak>) -> (r: ChainVerdict)
    ensures
        match *verified {
            Ok(()) => r.exit is None && r.line@ == "[chain] verification passed at startup"@,
            Err(broken) => r.exit == Some(FAILURE) && r.line@ == chain_break_line(
                broken.entry_id@,
                broken.reason@,
            ),
        },
{
    match verified {
        Ok(()) => ChainVerdict {
            line: "[chain] verification passed at startup".to_owned(),
            exit: None,
        },
        Err(broken) => {
            let place = followed_by(
                "[chain] FATAL: hash chain broken at entry ",
                broken.entry_id.as_str(),
            );
            let line = followed_by(followed_by(place.as_str(), ": ").as_str(), broken.reason.as_str());
            ChainVerdict { line, exit: Some(FAILURE) }
        },
    }
}

/// What stops the service after a failed step.
fn stopped(prefix: &str, cause: &String) -> (r: BootStep)
    ensures
        r@ == stop(prefix@, cause@),
{
    BootStep::Exit { code: FAILURE, line: followed_by(prefix, cause.as_str()) }
}

/// What is left to be done to the database, `None` once it is ready.
fn next_database_step(config: &BootConfig, outcomes: &BootOutcomes) -> (r: Option<BootStep>)
    ensures
        match r {
            Some(step) => database_step(*config, *outcomes) == Some(step@),
            None => database_step(*config, *outcomes) is None,
        },
{
    match &outcomes.connect {
        None => {
            let salt = match &config.hash_chain_salt {
                Some(salt) => salt.clone(),
                None => String::new(),
            };
            return Some(BootStep::Connect { url: config.db_url.clone(), salt });
        },
        Some(Err(cause)) => {
            return Some(stopped("[boot] failed to connect to postgres: ", cause));
        },
        Some(Ok(())) => {},
    }
    match &outcomes.migrate {
        None => {
            return Some(BootStep::Migrate);
        },
        Some(Err(cause)) => {
            return Some(stopped("[boot] ", cause));
        },
        Some(Ok(())) => {},
    }
    match &outcomes.hydrate {
        None => Some(BootStep::Hydrate),
        Some(Err(cause)) => Some(stopped("[boot] ", cause)),
        Some(Ok(())) => None,
    }
}

/// The lines that tell of a connected database.
fn tell_connected(config: &BootConfig) -> (r: Vec<String>)
    ensures
        crate::text::contents(r@) == connected_lines(*config),
{
    let mut lines: Vec<String> = Vec::new();
    if config.hash_chain_salt.is_none() {
        lines.push(
            "[boot] WARNING: HASH_CHAIN_SALT unset; hash chain is forgeable by anyone with DB write access".to_owned(),
        );
    }
    lines.push(followed_by("[boot] connected to postgres at ", config.db_url.as_str()));
    assert(crate::text::contents(lines@) =~= connected_lines(*config));
    lines
}

/// What is to be done next to start the service.
///
/// The configuration has to be isolated. A database, where one is named, has to
/// be connected to, migrated and loaded from; otherwise the store is held in
/// memory. Then the audit sink is opened and the hash chain is verified, and the
/// service serves. Whatever fails stops the service.
pub fn next_step(config: &BootConfig, outcomes: &BootOutcomes) -> (r: BootStep)
    ensures
        r@ == boot_step(*config, *outcomes),
{
    match &outcomes.isolation {
        None => {
            return BootStep::CheckIsolation;
        },
        Some(Err(cause)) => {
            return stopped("[boot] ", cause);
        },
        Some(Ok(())) => {},
    }
    let in_memory = config.db_url.as_str().is_empty();
    if !in_memory {
        if let Some(step) = next_database_step(config, outcomes) {
            return step;
        }
    }
    match &outcomes.audit {
        None => {
            let lines = if in_memory {
                Vec::new()
            } else {
                tell_connected(config)
            };
            assert(in_memory ==> crate::text::contents(lines@) =~= Seq::empty());
            BootStep::OpenAudit { in_memory, lines }
        },
        Some(Err(cause)) => stopped("[boot] audit sink init: ", cause),
        Some(Ok(())) => match &outcomes.chain {
            None => BootStep::VerifyChain,
            Some(verified) => {
                let verdict = verify_chain_at_startup(verified);
                match verdict.exit {
                    Some(code) => BootStep::Exit { code, line: verdict.line },
                    None => BootStep::Serve { line: verdict.line },
                }
            },
        },
    }
}

/// The ports that the service listens on: REST on the port that is configured,
/// gRPC on the one behind it.
pub fn listen_ports(port: u16) -> (r: (u16, u16))
    requires
        port < u16::MAX,
    ensures
        r.0 == port,
        r.1 == port + 1,
{
    (port, port + 1)
}

/// The ports that the service listens on, `None` where there is no port behind
/// the one that is configured.
pub fn checked_ports(port: u16) -> (r: Option<(u16, u16)>)
    ensures
        r == (if port < u16::MAX {
            Some((port, (port + 1) as u16))
        } else {
            None
        }),
{
    if port < u16::MAX {
        Some(listen_ports(port))
    } else {
        None
    }
}

/// Whether a step was taken and succeeded.
pub open spec fn passed<E>(outcome: Option<Result<(), E>>) -> bool {
    outcome matches Some(Ok(()))
}

/// Whether `after` is `before` with the outcome of `step` added to it.
pub open spec fn adds_outcome_of(
    step: BootStepView,
    before: BootOutcomes,
    after: BootOutcomes,
) -> bool {
    match step {
        BootStepView::CheckIsolation => after.isolation is Some && after == (BootOutcomes {
            isolation: after.isolation,
            ..before
        }),
        BootStepView::Connect { .. } => after.connect is Some && after == (BootOutcomes {
            connect: after.connect,
            ..before
        }),
        BootStepView::Migrate => after.migrate is Some && after == (BootOutcomes {
            migrate: after.migrate,
            ..before
        }),
        BootStepView::Hydrate => after.hydrate is Some && after == (BootOutcomes {
            hydrate: after.hydrate,
            ..before
        }),
        BootStepView::OpenAudit { .. } => after.audit is Some && after == (BootOutcomes {
            audit: after.audit,
            ..before
        }),
        BootStepView::VerifyChain => after.chain is Some && after == (BootOutcomes {
            chain: after.chain,
            ..before
        }),
        BootStepView::Serve { .. } => false,
        BootStepView::Exit { .. } => false,
    }
}

/// Whether `outcomes` tell that `step` failed.
pub open spec fn failed(step: BootStepView, outcomes: BootOutcomes) -> bool {
    match step {
        BootStepView::CheckIsolation => outcomes.isolation matches Some(Err(_)),
        BootStepView::Connect { .. } => outcomes.connect matches Some(Err(_)),
        BootStepView::Migrate => outcomes.migrate matches Some(Err(_)),
        BootStepView::Hydrate => outcomes.hydrate matches Some(Err(_)),
        BootStepView::OpenAudit { .. } => outcomes.audit matches Some(Err(_)),
        BootStepView::VerifyChain => outcomes.chain matches Some(Err(_)),
        BootStepView::Serve { .. } => false,
        BootStepView::Exit { .. } => false,
    }
}

/// The place of a step in the order of all steps.
pub open spec fn rank(step: BootStepView) -> nat {
    match step {
        BootStepView::CheckIsolation => 0,
        BootStepView::Connect { .. } => 1,
        BootStepView::Migrate => 2,
        BootStepView::Hydrate => 3,
        BootStepView::OpenAudit { .. } => 4,
        BootStepView::VerifyChain => 5,
        BootStepView::Serve { .. } => 6,
        BootStepView::Exit { .. } => 6,
    }
}

/// Whether `step` is one of those after which nothing is asked for.
pub open spec fn is_last(step: BootStepView) -> bool {
    step is Serve || step is Exit
}

/// Whether `after` holds every outcome that `before` holds.
pub open spec fn extends(before: BootOutcomes, after: BootOutcomes) -> bool {
    &&& before.isolation is Some ==> after.isolation == before.isolation
    &&& before.connect is Some ==> after.connect == before.connect
    &&& before.migrate is Some ==> after.migrate == before.migrate
    &&& before.hydrate is Some ==> after.hydrate == before.hydrate
    &&& before.audit is Some ==> after.audit == before.audit
    &&& before.chain is Some ==> after.chain == before.chain
}

/// The outcomes before any step was taken.
pub open spec fn no_outcomes() -> BootOutcomes {
    BootOutcomes {
        isolation: None,
        connect: None,
        migrate: None,
        hydrate: None,
        audit: None,
        chain: None,
    }
}

/// Whether `outcomes` can come of taking the steps one after the other as they
/// are asked for, `taken` of them.
pub open spec fn reached(config: BootConfig, outcomes: BootOutcomes, taken: nat) -> bool
    decreases taken,
{
    if taken == 0 {
        outcomes == no_outcomes()
    } else {
        exists|before: BootOutcomes|
            reached(config, before, (taken - 1) as nat) && #[trigger] adds_outcome_of(
                boot_step(config, before),
                before,
                outcomes,
            )
    }
}

/// The service serves exactly where its configuration is isolated, its database,
/// if it has one, is connected to, migrated and loaded from, its audit sink is
/// open and its hash chain is verified.
pub proof fn law_serving_takes_every_step(config: BootConfig, outcomes: BootOutcomes)
    ensures
        boot_step(config, outcomes) is Serve <==> {
            &&& passed(outcomes.isolation)
            &&& config.db_url@.len() == 0 || (passed(outcomes.connect) && passed(outcomes.migrate)
                && passed(outcomes.hydrate))
            &&& passed(outcomes.audit)
            &&& passed(outcomes.chain)
        },
{
}

/// A step that was asked for and failed stops the service with the exit code of
/// a failure.
pub proof fn law_a_failed_step_stops_the_service(
    config: BootConfig,
    before: BootOutcomes,
    after: BootOutcomes,
)
    requires
        adds_outcome_of(boot_step(config, before), before, after),
        failed(boot_step(config, before), after),
    ensures
        boot_step(config, after) matches BootStepView::Exit { code, .. } && code == FAILURE,
{
}

/// The service stops for no other reason than that a step failed, and with no
/// other exit code.
pub proof fn law_only_a_failed_step_stops_the_service(config: BootConfig, outcomes: BootOutcomes)
    requires
        boot_step(config, outcomes) is Exit,
    ensures
        boot_step(config, outcomes)->code == FAILURE,
        outcomes.isolation matches Some(Err(_)) || outcomes.connect matches Some(Err(_))
            || outcomes.migrate matches Some(Err(_)) || outcomes.hydrate matches Some(Err(_))
            || outcomes.audit matches Some(Err(_)) || outcomes.chain matches Some(Err(_)),
{
}

/// The end of the start is final: no further outcome makes a stopped service
/// serve, or a serving one stop.
pub proof fn law_the_last_step_is_final(
    config: BootConfig,
    before: BootOutcomes,
    after: BootOutcomes,
)
    requires
        is_last(boot_step(config, before)),
        extends(before, after),
    ensures
        boot_step(config, after) == boot_step(config, before),
{
}

/// Steps are taken in one order and none is taken twice.
pub proof fn law_every_step_is_a_step_forward(
    config: BootConfig,
    before: BootOutcomes,
    after: BootOutcomes,
    taken: nat,
)
    requires
        reached(config, before, taken),
        adds_outcome_of(boot_step(config, before), before, after),
    ensures
        rank(boot_step(config, before)) < rank(boot_step(config, after)),
        extends(before, after),
{
    lemma_outcomes_follow_the_order(config, before, taken);
}

/// The start is over after six steps at the latest, after three where there is
/// no database.
pub proof fn law_the_start_ends(config: BootConfig, outcomes: BootOutcomes, taken: nat)
    requires
        reached(config, outcomes, taken),
    ensures
        taken <= 6,
        config.db_url@.len() == 0 ==> taken <= 3,
        taken == 6 ==> is_last(boot_step(config, outcomes)),
        config.db_url@.len() == 0 && taken == 3 ==> is_last(boot_step(config, outcomes)),
{
    lemma_rank_grows(config, outcomes, taken);
}

/// Without a database none is connected to, migrated or loaded from.
pub proof fn law_a_store_in_memory_needs_no_database(config: BootConfig, outcomes: BootOutcomes)
    requires
        config.db_url@.len() == 0,
    ensures
        !(boot_step(config, outcomes) is Connect),
        !(boot_step(config, outcomes) is Migrate),
        !(boot_step(config, outcomes) is Hydrate),
{
}

/// A hash chain without a salt is warned of exactly where there is a database
/// that it could be forged in.
pub proof fn law_a_missing_salt_is_warned_of(config: BootConfig, outcomes: BootOutcomes)
    requires
        boot_step(config, outcomes) is OpenAudit,
    ensures
        boot_step(config, outcomes)->lines.len() == 2 <==> config.db_url@.len() > 0
            && config.hash_chain_salt is None,
        boot_step(config, outcomes)->lines.len() == 0 <==> config.db_url@.len() == 0,
{
}

/// The store that is audited and served is the one that the configuration names:
/// a new one in memory exactly where it names no database, and otherwise the one
/// that was connected to, at the address that it names and with its salt.
pub proof fn law_the_store_is_the_one_that_is_configured(
    config: BootConfig,
    outcomes: BootOutcomes,
    r: BootStep,
)
    requires
        call_ensures(next_step, (&config, &outcomes), r),
    ensures
        r matches BootStep::OpenAudit { in_memory, .. } ==> {
            &&& in_memory <==> config.db_url@.len() == 0
            &&& !in_memory ==> passed(outcomes.connect) && passed(outcomes.migrate) && passed(
                outcomes.hydrate,
            )
        },
        r matches BootStep::Connect { url, salt } ==> {
            &&& url@ == config.db_url@
            &&& config.hash_chain_salt matches Some(text) ==> salt@ == text@
            &&& config.hash_chain_salt is None ==> salt@.len() == 0
        },
{
}

/// Whenever the audit sink is opened in the course of a start, the store is a new
/// one in memory exactly where no database was connected to before.
pub proof fn law_a_connected_store_is_not_dropped(
    config: BootConfig,
    outcomes: BootOutcomes,
    taken: nat,
    r: BootStep,
)
    requires
        reached(config, outcomes, taken),
        call_ensures(next_step, (&config, &outcomes), r),
        r is OpenAudit,
    ensures
        r->in_memory <==> outcomes.connect is None,
        r->in_memory <==> taken == 1,
        !r->in_memory <==> taken == 4,
{
    lemma_taken(config, outcomes, taken);
}

/// When each step is asked for: the check of the isolation first; with a database
/// the connection to it, its migrations and the loading from it; then, and with no
/// database right after the check, the audit sink and the hash chain; in the end
/// the service serves. Each is asked for once all before it have succeeded and as
/// long as it has no outcome of its own.
pub proof fn law_when_each_step_is_asked_for(
    config: BootConfig,
    outcomes: BootOutcomes,
    r: BootStep,
)
    requires
        call_ensures(next_step, (&config, &outcomes), r),
    ensures
        ({
            let isolated = passed(outcomes.isolation);
            let database = config.db_url@.len() > 0;
            let ready = isolated && (database ==> passed(outcomes.connect) && passed(
                outcomes.migrate,
            ) && passed(outcomes.hydrate));
            &&& r is CheckIsolation <==> outcomes.isolation is None
            &&& r is Connect <==> isolated && database && outcomes.connect is None
            &&& r is Migrate <==> isolated && database && passed(outcomes.connect)
                && outcomes.migrate is None
            &&& r is Hydrate <==> isolated && database && passed(outcomes.connect) && passed(
                outcomes.migrate,
            ) && outcomes.hydrate is None
            &&& r is OpenAudit <==> ready && outcomes.audit is None
            &&& r is VerifyChain <==> ready && passed(outcomes.audit) && outcomes.chain is None
            &&& r is Serve <==> ready && passed(outcomes.audit) && passed(outcomes.chain)
        }),
{
}

/// A service that stops exits with code 1 and tells the cause, all of it, of the
/// first step that failed.
pub proof fn law_a_stopped_service_tells_the_first_failure(
    config: BootConfig,
    outcomes: BootOutcomes,
    r: BootStep,
)
    requires
        call_ensures(next_step, (&config, &outcomes), r),
        r is Exit,
    ensures
        r->code == 1,
        match outcomes.isolation {
            Some(Err(cause)) => r->Exit_line@ == "[boot] "@ + cause@,
            _ => match (config.db_url@.len() > 0, outcomes.connect) {
                (true, Some(Err(cause))) => r->Exit_line@
                    == "[boot] failed to connect to postgres: "@ + cause@,
                _ => match (config.db_url@.len() > 0, outcomes.migrate) {
                    (true, Some(Err(cause))) => r->Exit_line@ == "[boot] "@ + cause@,
                    _ => match (config.db_url@.len() > 0, outcomes.hydrate) {
                        (true, Some(Err(cause))) => r->Exit_line@ == "[boot] "@ + cause@,
                        _ => match outcomes.audit {
                            Some(Err(cause)) => r->Exit_line@ == "[boot] audit sink init: "@
                                + cause@,
                            _ => outcomes.chain matches Some(Err(broken)) && r->Exit_line@
                                == "[chain] FATAL: hash chain broken at entry "@ + broken.entry_id@
                                + ": "@ + broken.reason@,
                        },
                    },
                },
            },
        },
{
}

/// What is told before the audit sink is opened, and of a service that serves:
/// where the database is, if there is one, and before that a warning where the
/// hash chain has no salt.
pub proof fn law_what_is_told_of_the_database(
    config: BootConfig,
    outcomes: BootOutcomes,
    r: BootStep,
)
    requires
        call_ensures(next_step, (&config, &outcomes), r),
    ensures
        r matches BootStep::OpenAudit { lines, .. } ==> {
            let database = config.db_url@.len() > 0;
            &&& !database ==> lines@.len() == 0
            &&& database ==> lines@.len() > 0 && lines@.last()@
                == "[boot] connected to postgres at "@ + config.db_url@
            &&& database && config.hash_chain_salt is Some ==> lines@.len() == 1
            &&& database && config.hash_chain_salt is None ==> lines@.len() == 2 && lines@[0]@
                == "[boot] WARNING: HASH_CHAIN_SALT unset; hash chain is forgeable by anyone with DB write access"@
        },
        r matches BootStep::Serve { line } ==> line@ == "[chain] verification passed at startup"@,
{
    if let BootStep::OpenAudit { lines, .. } = r {
        let told = crate::text::contents(lines@);
        assert(told.len() == lines@.len());
        if told.len() > 0 {
            assert(told[0] == lines@[0]@);
            assert(told[told.len() - 1] == lines@[lines@.len() - 1]@);
        }
    }
}

/// A broken hash chain stops the service with code 1, and the line tells where it
/// is broken and how; an intact one does not.
pub proof fn law_a_broken_chain_stops_the_service(
    verified: Result<(), ChainBreak>,
    r: ChainVerdict,
)
    requires
        call_ensures(verify_chain_at_startup, (&verified,), r),
    ensures
        r.exit is Some <==> verified is Err,
        r.exit matches Some(code) ==> code == 1,
        verified is Ok ==> r.line@ == "[chain] verification passed at startup"@,
        verified matches Err(broken) ==> r.line@ == "[chain] FATAL: hash chain broken at entry "@
            + broken.entry_id@ + ": "@ + broken.reason@,
{
}

/// REST is on the port that is configured, gRPC on the one behind it; there are
/// two ports for every configured one but the last, which has none behind it. Both
/// are listened on at all interfaces.
pub proof fn law_grpc_is_on_the_next_port(
    port: u16,
    ports: (u16, u16),
    checked: Option<(u16, u16)>,
)
    requires
        port < u16::MAX ==> call_ensures(listen_ports, (port,), ports),
        call_ensures(checked_ports, (port,), checked),
    ensures
        port < 65535 ==> ports.0 == port && ports.1 - ports.0 == 1,
        port < 65535 ==> checked == Some(ports),
        port == 65535 ==> checked is None,
        forall|i: int| 0 <= i < 4 ==> #[trigger] LISTEN_HOST@[i] == 0,
{
}

/// Until the audit sink is asked for, what was taken is the check and, with a
/// database, the three steps on it.
proof fn lemma_taken(config: BootConfig, outcomes: BootOutcomes, taken: nat)
    requires
        reached(config, outcomes, taken),
    ensures
        match boot_step(config, outcomes) {
            BootStepView::CheckIsolation => taken == 0,
            BootStepView::Connect { .. } => taken == 1,
            BootStepView::Migrate => taken == 2,
            BootStepView::Hydrate => taken == 3,
            BootStepView::OpenAudit { .. } => taken == (if config.db_url@.len() == 0 {
                1nat
            } else {
                4nat
            }),
            _ => true,
        },
        config.db_url@.len() == 0 ==> outcomes.connect is None,
    decreases taken,
{
    if taken > 0 {
        let before = choose|before: BootOutcomes|
            reached(config, before, (taken - 1) as nat) && #[trigger] adds_outcome_of(
                boot_step(config, before),
                before,
                outcomes,
            );
        lemma_taken(config, before, (taken - 1) as nat);
        lemma_outcomes_follow_the_order(config, before, (taken - 1) as nat);
    }
}

/// In every state that is reached, what is not yet asked for has no outcome.
proof fn lemma_outcomes_follow_the_order(config: BootConfig, outcomes: BootOutcomes, taken: nat)
    requires
        reached(config, outcomes, taken),
    ensures
        match boot_step(config, outcomes) {
            BootStepView::CheckIsolation => outcomes == no_outcomes(),
            BootStepView::Connect { .. } => outcomes.connect is None && outcomes.migrate is None
                && outcomes.hydrate is None && outcomes.audit is None && outcomes.chain is None,
            BootStepView::Migrate => outcomes.migrate is None && outcomes.hydrate is None
                && outcomes.audit is None && outcomes.chain is None,
            BootStepView::Hydrate => outcomes.hydrate is None && outcomes.audit is None
                && outcomes.chain is None,
            BootStepView::OpenAudit { .. } => outcomes.audit is None && outcomes.chain is None,
            BootStepView::VerifyChain => outcomes.chain is None,
            _ => true,
        },
    decreases taken,
{
    if taken > 0 {
        let before = choose|before: BootOutcomes|
            reached(config, before, (taken - 1) as nat) && #[trigger] adds_outcome_of(
                boot_step(config, before),
                before,
                outcomes,
            );
        lemma_outcomes_follow_the_order(config, before, (taken - 1) as nat);
    }
}

/// Each step that is taken raises the rank of the step that is next.
proof fn lemma_rank_grows(config: BootConfig, outcomes: BootOutcomes, taken: nat)
    requires
        reached(config, outcomes, taken),
    ensures
        taken <= rank(boot_step(config, outcomes)),
        config.db_url@.len() == 0 && taken > 0 ==> taken + 3 <= rank(boot_step(config, outcomes)),
    decreases taken,
{
    if taken > 0 {
        let before = choose|before: BootOutcomes|
            reached(config, before, (taken - 1) as nat) && #[trigger] adds_outcome_of(
                boot_step(config, before),
                before,
                outcomes,
            );
        lemma_rank_grows(config, before, (taken - 1) as nat);
        law_every_step_is_a_step_forward(config, before, outcomes, (taken - 1) as nat);
    }
}

} // verus!
