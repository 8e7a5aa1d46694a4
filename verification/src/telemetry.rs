//! The logging and tracing of the service: by which rules it logs, and whether,
//! where and as what it exports its traces.
//!
//! Reading files and building the exporter are left to the caller.
//! [`init_tracing`] is called again and again with the outcomes so far, and
//! answers with what is to be done next.
use vstd::prelude::*;
use crate::log_filter::is_filterable;
use crate::log_filter::log_filter;
use crate::observability::key_value;
use crate::observability::resource_of;
use crate::text::trim;
use crate::tls::load_otlp_tls;
use crate::tls::PemStepView;
use crate::tls::TlsLoad;
use crate::tls::TlsVars;

verus! {

/// The name of the tracer, and that of the service where `OTEL_SERVICE_NAME`
/// gives no other.
pub const SERVICE_NAME: &'static str = "ledger-accounting";

/// The environment variables that govern logging and tracing, `None` for one that
/// is not set or is not valid Unicode.
pub struct TracingVars {
    /// `RUST_LOG`
    pub rust_log: Option<String>,
    /// `OTEL_EXPORTER_OTLP_ENDPOINT`
    pub endpoint: Option<String>,
    /// `OTEL_SERVICE_NAME`
    pub service_name: Option<String>,
    /// The variables that govern TLS.
    pub tls: TlsVars,
}

/// What has come of the steps so far.
pub struct TracingOutcomes {
    /// The outcomes of the reads of TLS files.
    pub reads: Vec<Result<String, String>>,
    /// Whether the exporter could be built, once it was tried.
    pub exporter_built: Option<bool>,
}

/// What traces are exported as.
#[derive(Debug)]
pub struct TraceExport {
    /// What they come from.
    pub resource: opentelemetry_sdk::Resource,
    /// The name of the tracer that records them.
    pub tracer: String,
}

/// What is to be done next.
#[derive(Debug)]
pub enum TracingStep {
    /// The file at this path is to be read.
    Read(String),
    /// An exporter to this endpoint is to be built.
    BuildExporter { endpoint: String, tls: Option<tonic::transport::ClientTlsConfig> },
    /// Logging is to be installed with this filter; traces are exported as
    /// `export` says, or not at all.
    Install { filter: tracing_subscriber::EnvFilter, export: Option<TraceExport> },
}

/// Whether `var` names an endpoint: whether it holds anything but white space.
pub open spec fn names_endpoint(var: Option<String>) -> bool {
    var matches Some(value) && crate::text::trimmed(value@).len() > 0
}

/// The name of the service.
pub open spec fn service_name_of(var: Option<String>) -> Seq<char> {
    match var {
        Some(name) => name@,
        None => SERVICE_NAME@,
    }
}

/// The attributes of the service.
pub open spec fn service_attributes(name: Seq<char>) -> Map<Seq<char>, Seq<char>> {
    map![
        "service.name"@ => name,
        "service.namespace"@ => "ai-crypto-onramp"@,
        "deployment.environment"@ => "dev"@,
    ]
}

/// Whether `tls` are the TLS settings with which traces are exported once the
/// loading of the files stands at `step`: none where there is anything wrong.
pub open spec fn exporter_tls(
    tls: Option<tonic::transport::ClientTlsConfig>,
    step: PemStepView,
) -> bool {
    match step {
        PemStepView::Ready(bundle) => tls matches Some(config) && crate::tls::client_uses(
            config,
            bundle,
        ),
        _ => tls is None,
    }
}

/// Whether `step` is to install logging, by the rules that `vars` give, and the
/// export of traces if `exports` holds and not otherwise.
pub open spec fn installs(step: TracingStep, vars: TracingVars, exports: bool) -> bool {
    &&& step matches TracingStep::Install { filter, export }
    &&& crate::observability::filter_rules(filter) == crate::log_filter::log_rules(vars.rust_log)
    &&& export is Some <==> exports
    &&& export matches Some(traces) ==> traces.tracer@ == SERVICE_NAME@
        && crate::observability::resource_attributes(traces.resource) == service_attributes(
        service_name_of(vars.service_name),
    )
}

/// Whether `step` is what is to be done next.
pub open spec fn tracing_step(
    step: TracingStep,
    vars: TracingVars,
    outcomes: TracingOutcomes,
) -> bool {
    let files = crate::tls::pem_step(vars.tls, outcomes.reads@);
    if !names_endpoint(vars.endpoint) {
        installs(step, vars, false)
    } else if let PemStepView::Read(path) = files {
        step matches TracingStep::Read(next) && next@ == path
    } else {
        match outcomes.exporter_built {
            None => step matches TracingStep::BuildExporter { endpoint, tls } && Some(endpoint)
                == vars.endpoint && exporter_tls(tls, files),
            Some(built) => installs(step, vars, built),
        }
    }
}

/// The endpoint that traces are exported to, if any: the value of
/// `OTEL_EXPORTER_OTLP_ENDPOINT` as it stands, unless it is blank.
pub fn export_endpoint(var: &Option<String>) -> (r: Option<String>)
    ensures
        r == (if names_endpoint(*var) {
            *var
        } else {
            None
        }),
{
    match var {
        Some(value) => if trim(value.as_str()).as_str().is_empty() {
            None
        } else {
            Some(value.clone())
        },
        None => None,
    }
}

/// The name of the service, from the value of `OTEL_SERVICE_NAME`.
pub fn service_name(var: &Option<String>) -> (r: String)
    ensures
        r@ == service_name_of(*var),
{
    match var {
        Some(name) => name.clone(),
        None => SERVICE_NAME.to_owned(),
    }
}

/// What the traces of the service are exported as coming from.
pub fn service_resource(service_name_var: &Option<String>) -> (r: opentelemetry_sdk::Resource)
    ensures
        crate::observability::resource_attributes(r) == service_attributes(
            service_name_of(*service_name_var),
        ),
{
    let name = key_value("service.name".to_owned(), service_name(service_name_var));
    let namespace = key_value("service.namespace".to_owned(), "ai-crypto-onramp".to_owned());
    let environment = key_value("deployment.environment".to_owned(), "dev".to_owned());
    let mut pairs: Vec<opentelemetry::KeyValue> = Vec::new();
    pairs.push(name);
    pairs.push(namespace);
    pairs.push(environment);
    proof {
        reveal_with_fuel(crate::observability::collected, 4);
        assert(pairs@.drop_last() =~= seq![name, namespace]);
        assert(pairs@.drop_last().drop_last() =~= seq![name]);
        assert(pairs@.drop_last().drop_last().drop_last() =~= Seq::empty());
        assert(crate::observability::collected(pairs@) =~= service_attributes(
            service_name_of(*service_name_var),
        ));
    }
    resource_of(pairs)
}

/// What is to be done next to set up logging and tracing.
///
/// Traces are exported where an endpoint is named and an exporter to it can be
/// built. TLS settings that cannot be loaded are left out, without an error.
pub fn init_tracing(vars: &TracingVars, outcomes: &TracingOutcomes) -> (r: TracingStep)
    requires
        crate::log_filter::filterable(vars.rust_log),
    ensures
        tracing_step(r, *vars, *outcomes),
{
    match export_endpoint(&vars.endpoint) {
        None => TracingStep::Install { filter: log_filter(&vars.rust_log), export: None },
        Some(endpoint) => match load_otlp_tls(&vars.tls, &outcomes.reads) {
            TlsLoad::Read(path) => TracingStep::Read(path),
            TlsLoad::Done(loaded) => match outcomes.exporter_built {
                None => {
                    let tls = match loaded {
                        Ok(tls) => tls,
                        Err(_) => None,
                    };
                    TracingStep::BuildExporter { endpoint, tls }
                },
                Some(built) => {
                    let export = if built {
                        Some(
                            TraceExport {
                                resource: service_resource(&vars.service_name),
                                tracer: SERVICE_NAME.to_owned(),
                            },
                        )
                    } else {
                        None
                    };
                    TracingStep::Install { filter: log_filter(&vars.rust_log), export }
                },
            },
        },
    }
}

/// What is to be done next, as [`init_tracing`] tells it, `None` where no filter
/// can be made of the value of `RUST_LOG`.
pub fn checked_init_tracing(vars: &TracingVars, outcomes: &TracingOutcomes) -> (r: Option<
    TracingStep,
>)
    ensures
        r is Some <==> crate::log_filter::filterable(vars.rust_log),
        r matches Some(step) ==> tracing_step(step, *vars, *outcomes),
{
    if is_filterable(&vars.rust_log) {
        Some(init_tracing(vars, outcomes))
    } else {
        None
    }
}

/// Without an endpoint logging is installed at once: nothing is read, no
/// exporter is built and nothing is exported.
pub proof fn law_without_an_endpoint_nothing_is_exported(
    step: TracingStep,
    vars: TracingVars,
    outcomes: TracingOutcomes,
)
    requires
        tracing_step(step, vars, outcomes),
        !names_endpoint(vars.endpoint),
    ensures
        step matches TracingStep::Install { export: None, .. },
{
}

/// Traces are exported only where an endpoint is named and the exporter to it
/// was built.
pub proof fn law_only_a_built_exporter_exports(
    step: TracingStep,
    vars: TracingVars,
    outcomes: TracingOutcomes,
)
    requires
        tracing_step(step, vars, outcomes),
        step matches TracingStep::Install { export: Some(_), .. },
    ensures
        names_endpoint(vars.endpoint),
        outcomes.exporter_built == Some(true),
{
}

/// The rules by which records are logged come from `RUST_LOG` alone, whatever
/// becomes of the export of traces.
pub proof fn law_the_log_does_not_depend_on_the_export(
    step: TracingStep,
    vars: TracingVars,
    outcomes: TracingOutcomes,
    other: TracingStep,
    other_vars: TracingVars,
    other_outcomes: TracingOutcomes,
)
    requires
        tracing_step(step, vars, outcomes),
        tracing_step(other, other_vars, other_outcomes),
        vars.rust_log == other_vars.rust_log,
        step is Install,
        other is Install,
    ensures
        crate::observability::filter_rules(step->filter) == crate::observability::filter_rules(
            other->filter,
        ),
{
}

/// TLS settings that cannot be loaded do not keep traces from being exported:
/// the exporter is then built without them.
pub proof fn law_a_tls_failure_does_not_stop_the_export(
    step: TracingStep,
    vars: TracingVars,
    outcomes: TracingOutcomes,
)
    requires
        tracing_step(step, vars, outcomes),
        names_endpoint(vars.endpoint),
        crate::tls::pem_step(vars.tls, outcomes.reads@) is Failed,
        outcomes.exporter_built is None,
    ensures
        step matches TracingStep::BuildExporter { endpoint, tls: None } && Some(endpoint)
            == vars.endpoint,
{
}

/// Logging is installed after three reads and one attempt at an exporter at the
/// latest.
pub proof fn law_logging_is_installed_in_the_end(
    step: TracingStep,
    vars: TracingVars,
    outcomes: TracingOutcomes,
)
    requires
        tracing_step(step, vars, outcomes),
        outcomes.reads@.len() >= 3,
        outcomes.exporter_built is Some,
    ensures
        step is Install,
{
    crate::tls::law_loading_takes_at_most_three_reads(vars.tls, outcomes.reads@);
}


/// Whether a variable is set and holds a character that is not white space.
pub open spec fn is_visible(var: Option<String>) -> bool {
    var matches Some(value) && exists|i: int|
        0 <= i < value@.len() && !crate::text::white_space(#[trigger] value@[i])
}

/// Traces are exported to the endpoint that is named, as it stands: an endpoint
/// is named exactly where the value holds a character that is not white space.
pub proof fn law_a_visible_endpoint_is_taken_as_it_stands(var: Option<String>, r: Option<String>)
    requires
        call_ensures(export_endpoint, (&var,), r),
    ensures
        is_visible(var) ==> r == var,
        !is_visible(var) ==> r is None,
{
    lemma_visible(var);
}

/// The service has the name that it is given, and a name of its own where it is
/// given none.
pub proof fn law_the_service_has_the_name_it_is_given(var: Option<String>, r: String)
    requires
        call_ensures(service_name, (&var,), r),
    ensures
        var matches Some(name) ==> r@ == name@,
        var is None ==> r@ == "ledger-accounting"@,
{
}

/// Whether a resource has three attributes: the name of the service, from the
/// variable that may give it one, its namespace and where it is deployed.
pub open spec fn identifies_the_service(
    resource: opentelemetry_sdk::Resource,
    name_var: Option<String>,
) -> bool {
    let attributes = crate::observability::resource_attributes(resource);
    &&& attributes.dom() =~= set![
        "service.name"@,
        "service.namespace"@,
        "deployment.environment"@,
    ]
    &&& name_var matches Some(name) ==> attributes["service.name"@] == name@
    &&& name_var is None ==> attributes["service.name"@] == "ledger-accounting"@
    &&& attributes["service.namespace"@] == "ai-crypto-onramp"@
    &&& attributes["deployment.environment"@] == "dev"@
}

/// The resource identifies the service by its name and nothing beside its
/// namespace and deployment.
pub proof fn law_the_resource_identifies_the_service(
    var: Option<String>,
    r: opentelemetry_sdk::Resource,
)
    requires
        call_ensures(service_resource, (&var,), r),
    ensures
        identifies_the_service(r, var),
{
    lemma_distinct_keys();
}

/// Whether `step` is how the set-up goes on, by the variables and the outcomes
/// themselves; `i` is the number of a read.
///
/// With no visible endpoint, and once an exporter was tried, logging is installed,
/// by the rules that `RUST_LOG` gives or by `info`, with an export of traces
/// exactly where an exporter was built. With one, the TLS files are read first
/// where all are named, and then an exporter to this very endpoint is built: with
/// TLS where all of them could be read, and without it otherwise.
pub open spec fn proceeds(
    step: TracingStep,
    vars: TracingVars,
    outcomes: TracingOutcomes,
    i: int,
) -> bool {
    let reads = outcomes.reads@;
    let paths = seq![vars.tls.cert, vars.tls.key, vars.tls.ca];
    let all = crate::tls::given(vars.tls.cert) && crate::tls::given(vars.tls.key)
        && crate::tls::given(vars.tls.ca);
    let reading = all && 0 <= i < 3 && i == reads.len() && crate::tls::all_read(reads, i);
    let broken = all && 0 <= i < 3 && i < reads.len() && crate::tls::all_read(reads, i)
        && reads[i] is Err;
    let loaded = all && crate::tls::all_read(reads, 3);
    let exports = is_visible(vars.endpoint) && outcomes.exporter_built == Some(true);
    &&& is_visible(vars.endpoint) && reading ==> (step matches TracingStep::Read(path) && path@
        == paths[i]->0@)
    &&& is_visible(vars.endpoint) && (!all || broken || loaded) && outcomes.exporter_built is None
        ==> {
        &&& step matches TracingStep::BuildExporter { endpoint, tls }
        &&& vars.endpoint == Some(endpoint)
        &&& tls is Some <==> loaded
        &&& tls matches Some(config) ==> {
            &&& crate::tonic_tls::client_identity(config) == Some(
                (
                    vstd::utf8::encode_utf8(reads[0]->Ok_0@),
                    vstd::utf8::encode_utf8(reads[1]->Ok_0@),
                ),
            )
            &&& crate::tonic_tls::client_ca_pems(config) =~= seq![
                vstd::utf8::encode_utf8(reads[2]->Ok_0@),
            ]
            &&& crate::tonic_tls::client_domain(config) is None
            &&& crate::tonic_tls::client_trust_anchors(config) == 0
            &&& !crate::tonic_tls::client_assumes_http2(config)
        }
    }
    &&& !is_visible(vars.endpoint) || ((!all || broken || loaded) && outcomes.exporter_built is Some)
        ==> {
        &&& step matches TracingStep::Install { filter, export }
        &&& match vars.rust_log {
            Some(directives) => match crate::observability::parsed_rules(directives@) {
                Some(rules) => crate::observability::filter_rules(filter) == rules,
                None => crate::observability::filter_rules(filter) == "info"@,
            },
            None => crate::observability::filter_rules(filter) == "info"@,
        }
        &&& export is Some <==> exports
        &&& export matches Some(traces) ==> traces.tracer@ == "ledger-accounting"@
            && identifies_the_service(traces.resource, vars.service_name)
    }
}

/// Set-up goes on as [`proceeds`] says, and stops before it starts exactly where
/// no filter can be made of `RUST_LOG`.
pub proof fn law_how_the_set_up_proceeds(
    vars: TracingVars,
    outcomes: TracingOutcomes,
    step: TracingStep,
    checked: Option<TracingStep>,
    filterable: bool,
    i: int,
)
    requires
        filterable ==> call_ensures(init_tracing, (&vars, &outcomes), step),
        call_ensures(checked_init_tracing, (&vars, &outcomes), checked),
        call_ensures(is_filterable, (&vars.rust_log,), filterable),
    ensures
        filterable ==> proceeds(step, vars, outcomes, i),
        checked is Some <==> filterable,
        checked matches Some(other) ==> proceeds(other, vars, outcomes, i),
{
    if filterable {
        lemma_proceeds(vars, outcomes, step, i);
    }
    if let Some(other) = checked {
        lemma_proceeds(vars, outcomes, other, i);
    }
}

/// What the contract of the set-up says, by the variables and the outcomes.
proof fn lemma_proceeds(vars: TracingVars, outcomes: TracingOutcomes, step: TracingStep, i: int)
    requires
        tracing_step(step, vars, outcomes),
    ensures
        proceeds(step, vars, outcomes, i),
{
    lemma_visible(vars.endpoint);
    lemma_distinct_keys();
    crate::tls::lemma_loading(vars.tls, outcomes.reads@, i);
}

/// A value that is trimmed is left with something exactly where it is visible.
proof fn lemma_visible(var: Option<String>)
    ensures
        names_endpoint(var) <==> is_visible(var),
{
    if let Some(value) = var {
        let bounds = crate::text::law_trimmed_is_the_inner_stretch(value@);
        let inner = crate::text::trimmed(value@);
        if inner.len() > 0 {
            assert(!crate::text::white_space(value@[bounds.0]));
        }
    }
}

/// The keys of the attributes differ.
proof fn lemma_distinct_keys()
    ensures
        "service.name"@ != "service.namespace"@,
        "service.name"@ != "deployment.environment"@,
        "service.namespace"@ != "deployment.environment"@,
{
    reveal_strlit("service.name");
    reveal_strlit("service.namespace");
    reveal_strlit("deployment.environment");
    assert("service.name"@.len() == 12);
    assert("service.namespace"@.len() == 17);
    assert("deployment.environment"@.len() == 22);
}

} // verus!
