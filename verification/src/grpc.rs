//! The start of the gRPC server: who may call it, and whether it serves with
//! TLS, in plain text or not at all.
use vstd::prelude::*;
use crate::text::followed_by;
use crate::text::split_trimmed;
use crate::tls::load_server_tls;
use crate::tls::TlsError;
use crate::tls::TlsLoad;
use crate::tls::TlsMaterial;
use crate::tls::TlsVars;
use crate::tls::PemStepView;
use crate::tonic_tls::configure_new;
use crate::tonic_tls::describe_transport_error;

verus! {

/// The callers that are let in where `ALLOWED_CALLERS` names none.
pub const DEFAULT_CALLERS: &'static str = "transaction-orchestrator,treasury-orchestration";

/// What is to be done about the gRPC server.
#[derive(Debug)]
pub enum GrpcStart {
    /// The file at this path is to be read first.
    Read(String),
    /// This server is to be run.
    Serve(tonic::transport::Server),
    /// No server is to be run, and this line tells why.
    Refuse(String),
}

/// The line that tells of a TLS failure.
pub open spec fn tls_refusal(cause: Seq<char>) -> Seq<char> {
    "[grpc] TLS config error: "@ + cause
}

/// Whether the settings can be given to a server: any that there are hold an
/// identity.
pub open spec fn applicable(tls: Result<Option<TlsMaterial>, TlsError>) -> bool {
    tls matches Ok(Some(material)) ==> crate::tonic_tls::server_identity(
        material.server_config,
    ) is Some
}

/// Whether `Server::tls_config` can have refused these settings with an error that
/// `line` tells of.
pub open spec fn refused(config: tonic::transport::ServerTlsConfig, line: Seq<char>) -> bool {
    exists|error: tonic::transport::Error| #[trigger]
        crate::tonic_tls::may_configure(config, Err(error)) && line == tls_refusal(
            crate::tonic_tls::transport_error_text(error),
        )
}

/// Whether `start` is what is to be done once the loading of the TLS files
/// stands at `step`.
pub open spec fn grpc_start(start: GrpcStart, step: PemStepView) -> bool {
    match step {
        PemStepView::Off => start matches GrpcStart::Serve(server) && crate::tonic_tls::server_tls(
            server,
        ) is None,
        PemStepView::Read(path) => start matches GrpcStart::Read(next) && next@ == path,
        PemStepView::Failed(error) => start matches GrpcStart::Refuse(line) && line@ == tls_refusal(
            crate::tls::tls_error_text(error),
        ),
        PemStepView::Ready(bundle) => match start {
            GrpcStart::Read(_) => false,
            GrpcStart::Serve(server) => crate::tonic_tls::server_tls(server) matches Some(config)
                && crate::tls::server_uses(config, bundle) && crate::tonic_tls::may_configure(
                config,
                Ok(server),
            ),
            GrpcStart::Refuse(line) => line@ == tls_refusal("transport error"@) && exists|
                config: tonic::transport::ServerTlsConfig,
            |
                #[trigger] crate::tls::server_uses(config, bundle) && refused(config, line@),
        },
    }
}

/// The list of callers, from the value of `ALLOWED_CALLERS`.
pub open spec fn caller_list(var: Option<String>) -> Seq<char> {
    match var {
        Some(list) => list@,
        None => DEFAULT_CALLERS@,
    }
}

/// The names of the callers that are let in, from the value of
/// `ALLOWED_CALLERS`: the parts between its commas, without the white space
/// around them. Empty parts are kept.
pub fn allowed_callers(var: &Option<String>) -> (r: Vec<String>)
    ensures
        crate::text::contents(r@) == crate::text::trimmed_pieces(caller_list(*var), ','),
{
    match var {
        Some(list) => split_trimmed(list.as_str(), ','),
        None => split_trimmed(DEFAULT_CALLERS, ','),
    }
}

/// The server that was given TLS, or the line that tells why it was not.
pub fn configured_server(
    configured: Result<tonic::transport::Server, tonic::transport::Error>,
) -> (r: Result<tonic::transport::Server, String>)
    ensures
        match configured {
            Ok(server) => r == Ok::<tonic::transport::Server, String>(server),
            Err(error) => r matches Err(line) && line@ == tls_refusal(
                crate::tonic_tls::transport_error_text(error),
            ),
        },
{
    match configured {
        Ok(server) => Ok(server),
        Err(error) => Err(
            followed_by("[grpc] TLS config error: ", describe_transport_error(&error).as_str()),
        ),
    }
}

/// A new server with these TLS settings: one that speaks plain text where there
/// are none, and no server where they could not be loaded or are not accepted.
///
/// Settings that hold an identity may still be refused: they are decoded here,
/// and the cryptography provider of the process has to be able to load the key.
pub fn server_with(tls: Result<Option<TlsMaterial>, TlsError>) -> (r: Result<
    tonic::transport::Server,
    String,
>)
    requires
        applicable(tls),
    ensures
        match tls {
            Ok(None) => r matches Ok(server) && crate::tonic_tls::server_tls(server) is None,
            Ok(Some(material)) => match r {
                Ok(server) => crate::tonic_tls::server_tls(server) == Some(material.server_config)
                    && crate::tonic_tls::may_configure(material.server_config, Ok(server)),
                Err(line) => line@ == tls_refusal("transport error"@) && refused(
                    material.server_config,
                    line@,
                ),
            },
            Err(error) => r matches Err(line) && line@ == tls_refusal(
                crate::tls::tls_error_text(error@),
            ),
        },
{
    match tls {
        Ok(Some(material)) => configured_server(configure_new(material.server_config)),
        Ok(None) => Ok(tonic::transport::Server::builder()),
        Err(error) => Err(followed_by("[grpc] TLS config error: ", error.message().as_str())),
    }
}

/// What is to be done about the gRPC server once `reads` are the outcomes of the
/// reads so far.
pub fn start_grpc(vars: &TlsVars, reads: &Vec<Result<String, String>>) -> (r: GrpcStart)
    ensures
        grpc_start(r, crate::tls::pem_step(*vars, reads@)),
{
    match load_server_tls(vars, reads) {
        TlsLoad::Read(path) => GrpcStart::Read(path),
        TlsLoad::Done(tls) => match server_with(tls) {
            Ok(server) => GrpcStart::Serve(server),
            Err(line) => GrpcStart::Refuse(line),
        },
    }
}

/// The line that tells why a running server ended.
pub fn server_error_line(cause: &str) -> (r: String)
    ensures
        r@ == "[grpc] server error: "@ + cause@,
{
    followed_by("[grpc] server error: ", cause)
}

/// The server speaks plain text only in development mode, and only where no TLS
/// file is named.
pub proof fn law_plain_text_is_served_only_in_dev_mode(
    start: GrpcStart,
    vars: TlsVars,
    reads: Seq<Result<String, String>>,
)
    requires
        grpc_start(start, crate::tls::pem_step(vars, reads)),
        start matches GrpcStart::Serve(server) && crate::tonic_tls::server_tls(server) is None,
    ensures
        vars.empty(),
        crate::tls::dev_mode_on(vars.dev_mode),
{
    crate::tls::law_tls_is_off_only_in_dev_mode(vars, reads);
}

/// A server with TLS requires a certificate of every client, and presents what
/// was read from the files that are named.
pub proof fn law_tls_is_mutual(
    start: GrpcStart,
    vars: TlsVars,
    reads: Seq<Result<String, String>>,
)
    requires
        grpc_start(start, crate::tls::pem_step(vars, reads)),
        start matches GrpcStart::Serve(server) && crate::tonic_tls::server_tls(server) is Some,
    ensures
        vars.complete(),
        reads.len() >= 3,
        crate::tonic_tls::server_tls(start->Serve_0) matches Some(config) && {
            &&& crate::tonic_tls::server_identity(config) == Some(
                (
                    vstd::utf8::encode_utf8(reads[0]->Ok_0@),
                    vstd::utf8::encode_utf8(reads[1]->Ok_0@),
                ),
            )
            &&& crate::tonic_tls::server_client_ca(config) == Some(
                vstd::utf8::encode_utf8(reads[2]->Ok_0@),
            )
            &&& !crate::tonic_tls::server_client_auth_optional(config)
        },
{
}

/// TLS settings that cannot be loaded never lead to a server: a failure is
/// refused, not served in plain text.
pub proof fn law_a_tls_failure_is_never_served(
    start: GrpcStart,
    vars: TlsVars,
    reads: Seq<Result<String, String>>,
)
    requires
        grpc_start(start, crate::tls::pem_step(vars, reads)),
        crate::tls::pem_step(vars, reads) is Failed,
    ensures
        start is Refuse,
{
}

/// No name in the list of callers holds a comma or has white space at its ends,
/// and the list has one name more than its text has commas.
pub proof fn law_callers_are_the_trimmed_parts(list: Seq<char>)
    ensures
        crate::text::trimmed_pieces(list, ',').len() == list.to_multiset().count(',') + 1,
        forall|i: int|
            0 <= i < crate::text::trimmed_pieces(list, ',').len() ==> {
                let name = #[trigger] crate::text::trimmed_pieces(list, ',')[i];
                &&& !name.contains(',')
                &&& name.len() > 0 ==> !crate::text::white_space(name[0])
                    && !crate::text::white_space(name.last())
            },
{
    let parts = crate::text::pieces(list, ',');
    let names = crate::text::trimmed_pieces(list, ',');
    crate::text::law_pieces_are_what_separators_bound(list, ',');
    assert forall|i: int| 0 <= i < names.len() implies {
        let name = #[trigger] names[i];
        &&& !name.contains(',')
        &&& name.len() > 0 ==> !crate::text::white_space(name[0]) && !crate::text::white_space(
            name.last(),
        )
    } by {
        let bounds = crate::text::law_trimmed_is_the_inner_stretch(parts[i]);
        assert(!parts[i].contains(','));
        assert forall|k: int| 0 <= k < names[i].len() implies names[i][k] != ',' by {
            assert(parts[i].contains(parts[i][bounds.0 + k]));
        }
    }
}


/// The callers that are let in are those that `ALLOWED_CALLERS` names: the parts
/// of its value between the commas, in their order, each without the white space
/// at its ends. Two are let in where it is not set, and only there.
pub proof fn law_the_callers_are_those_that_are_named(var: Option<String>, r: Vec<String>) -> (parts:
    Seq<Seq<char>>)
    requires
        call_ensures(allowed_callers, (&var,), r),
    ensures
        var matches Some(list) ==> {
            &&& parts.len() > 0
            &&& crate::text::joined(parts, ',') == list@
            &&& forall|i: int| 0 <= i < parts.len() ==> !(#[trigger] parts[i]).contains(',')
            &&& r@.len() == parts.len()
            &&& forall|i: int|
                0 <= i < parts.len() ==> crate::text::strips((#[trigger] r@[i])@, parts[i])
        },
        var is None ==> r@.len() == 2 && r@[0]@ == "transaction-orchestrator"@ && r@[1]@
            == "treasury-orchestration"@,
{
    let names = crate::text::contents(r@);
    assert(names.len() == r@.len());
    match var {
        Some(list) => {
            let parts = crate::text::pieces(list@, ',');
            crate::text::law_pieces_join_to_the_text(list@, ',');
            crate::text::law_pieces_are_what_separators_bound(list@, ',');
            assert forall|i: int| 0 <= i < parts.len() implies crate::text::strips(
                (#[trigger] r@[i])@,
                parts[i],
            ) by {
                assert(names[i] == r@[i]@);
                let bounds = crate::text::law_trimmed_is_the_inner_stretch(parts[i]);
                assert(r@[i]@ == parts[i].subrange(bounds.0, bounds.1));
            }
            parts
        },
        None => {
            let first = "transaction-orchestrator"@;
            let second = "treasury-orchestration"@;
            reveal_strlit("transaction-orchestrator");
            reveal_strlit("treasury-orchestration");
            reveal_strlit("transaction-orchestrator,treasury-orchestration");
            assert(DEFAULT_CALLERS@ =~= first.push(',') + second);
            crate::text::law_the_first_piece_ends_at_the_first_separator(first, second, ',');
            crate::text::lemma_one_piece(second, ',');
            crate::text::lemma_nothing_to_trim(first);
            crate::text::lemma_nothing_to_trim(second);
            assert(names[0] == r@[0]@);
            assert(names[1] == r@[1]@);
            seq![first, second]
        },
    }
}

/// A server is made with the settings that were loaded: one that speaks plain text
/// where TLS is off, one with TLS only where `Server::tls_config` gave it these
/// settings, and none, for this very reason, where they were not loaded or it
/// refused them.
pub proof fn law_a_server_is_what_the_settings_give(
    tls: Result<Option<TlsMaterial>, TlsError>,
    r: Result<tonic::transport::Server, String>,
    message: String,
)
    requires
        call_ensures(server_with, (tls,), r),
        tls matches Err(error) ==> call_ensures(TlsError::message, (&error,), message),
    ensures
        tls matches Ok(None) ==> (r matches Ok(server) && crate::tonic_tls::server_tls(
            server,
        ) is None),
        tls matches Err(_) ==> (r matches Err(line) && line@ == "[grpc] TLS config error: "@
            + message@),
        tls matches Ok(Some(material)) ==> match r {
            Ok(server) => crate::tonic_tls::may_configure(material.server_config, Ok(server))
                && crate::tonic_tls::server_tls(server) == Some(material.server_config),
            Err(line) => exists|error: tonic::transport::Error| #[trigger]
                crate::tonic_tls::may_configure(material.server_config, Err(error)) && line@
                    == "[grpc] TLS config error: "@ + crate::tonic_tls::transport_error_text(
                    error,
                ),
        },
{
}

/// A server that was given TLS is handed on, and a failure is told of.
pub proof fn law_a_configured_server_is_handed_on(
    configured: Result<tonic::transport::Server, tonic::transport::Error>,
    r: Result<tonic::transport::Server, String>,
)
    requires
        call_ensures(configured_server, (configured,), r),
    ensures
        configured is Ok <==> r is Ok,
        configured matches Ok(server) ==> r->Ok_0 == server,
        configured matches Err(error) ==> r->Err_0@ == "[grpc] TLS config error: "@
            + crate::tonic_tls::transport_error_text(error),
{
}

/// How the gRPC server is started, said of the variables and the reads themselves.
///
/// Plain text is served exactly where no file is named and `DEV_MODE` is `1`.
/// Where files are missing or cannot be read no server is run, and the line tells
/// why. With all files named, whatever `DEV_MODE` is, they are asked for one after
/// the other; once they are all read, what `Server::tls_config` returned for
/// settings with their contents decides, and nothing else: the server is run that
/// it returned, or none is run and its error is told.
pub proof fn law_start_of_the_server(
    vars: TlsVars,
    reads: Vec<Result<String, String>>,
    r: GrpcStart,
    i: int,
)
    requires
        call_ensures(start_grpc, (&vars, &reads), r),
    ensures
        ({
            let paths = seq![vars.cert, vars.key, vars.ca];
            let subjects = seq!["read cert file "@, "read key file "@, "read ca file "@];
            let none = !crate::tls::given(vars.cert) && !crate::tls::given(vars.key)
                && !crate::tls::given(vars.ca);
            let all = crate::tls::given(vars.cert) && crate::tls::given(vars.key)
                && crate::tls::given(vars.ca);
            let dev = crate::tls::is_one(vars.dev_mode);
            let prefix = "[grpc] TLS config error: "@;
            &&& none && dev ==> (r matches GrpcStart::Serve(server) && crate::tonic_tls::server_tls(
                server,
            ) is None)
            &&& none && !dev ==> (r matches GrpcStart::Refuse(line) && line@ == prefix
                + "TLS_CERT_FILE/TLS_KEY_FILE/TLS_CA_FILE required when DEV_MODE!=1"@)
            &&& !none && !all ==> (r matches GrpcStart::Refuse(line) && line@ == prefix
                + "TLS_CERT_FILE, TLS_KEY_FILE and TLS_CA_FILE must all be set together"@)
            &&& all && 0 <= i < 3 && i < reads@.len() && crate::tls::all_read(reads@, i)
                && reads@[i] is Err ==> (r matches GrpcStart::Refuse(line) && line@ == prefix + (
            subjects[i] + paths[i]->0@ + ": "@ + reads@[i]->Err_0@))
            &&& all && 0 <= i < 3 && i == reads@.len() && crate::tls::all_read(reads@, i) ==> (
            r matches GrpcStart::Read(path) && path@ == paths[i]->0@)
            &&& all && crate::tls::all_read(reads@, 3) ==> exists|
                config: tonic::transport::ServerTlsConfig,
            |
                {
                    &&& #[trigger] crate::tonic_tls::server_identity(config) == Some(
                        (
                            vstd::utf8::encode_utf8(reads@[0]->Ok_0@),
                            vstd::utf8::encode_utf8(reads@[1]->Ok_0@),
                        ),
                    )
                    &&& crate::tonic_tls::server_client_ca(config) == Some(
                        vstd::utf8::encode_utf8(reads@[2]->Ok_0@),
                    )
                    &&& !crate::tonic_tls::server_client_auth_optional(config)
                    &&& match r {
                        GrpcStart::Read(_) => false,
                        GrpcStart::Serve(server) => crate::tonic_tls::may_configure(
                            config,
                            Ok(server),
                        ) && crate::tonic_tls::server_tls(server) == Some(config),
                        GrpcStart::Refuse(line) => exists|error: tonic::transport::Error| #[trigger]
                            crate::tonic_tls::may_configure(config, Err(error)) && line@ == prefix
                                + crate::tonic_tls::transport_error_text(error),
                    }
                }
        }),
{
    crate::tls::lemma_loading(vars, reads@, i);
    if crate::tls::pem_step(vars, reads@) is Ready {
        let bundle = crate::tls::pem_step(vars, reads@)->Ready_0;
        match r {
            GrpcStart::Serve(server) => {
                assert(crate::tls::server_uses(
                    crate::tonic_tls::server_tls(server)->0,
                    bundle,
                ));
            },
            GrpcStart::Refuse(line) => {
                let config = choose|config: tonic::transport::ServerTlsConfig| #[trigger]
                    crate::tls::server_uses(config, bundle) && refused(config, line@);
                assert(crate::tonic_tls::server_identity(config) is Some);
            },
            GrpcStart::Read(_) => {},
        }
    }
}

/// The line on a server that ended tells the cause, all of it.
pub proof fn law_the_line_on_a_server_tells_the_cause(cause: &str, r: String)
    requires
        call_ensures(server_error_line, (cause,), r),
    ensures
        r@ == "[grpc] server error: "@ + cause@,
{
}

} // verus!
