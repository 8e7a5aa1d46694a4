//! What this library takes from `tonic::transport`: its TLS settings and its
//! server builder.
//!
//! The types are opaque. Their contents have names here, and every function
//! that is called is given in terms of those names.
use vstd::prelude::*;

verus! {

/// `tonic::transport::Certificate`: a certificate in PEM encoding.
#[verifier::external_type_specification]
#[verifier::external_body]
pub struct ExCertificate(tonic::transport::Certificate);

/// `tonic::transport::Identity`: a certificate and its private key, both in PEM
/// encoding.
#[verifier::external_type_specification]
#[verifier::external_body]
pub struct ExIdentity(tonic::transport::Identity);

/// `tonic::transport::ServerTlsConfig`: the TLS settings of a server.
#[verifier::external_type_specification]
#[verifier::external_body]
pub struct ExServerTlsConfig(tonic::transport::ServerTlsConfig);

/// `tonic::transport::ClientTlsConfig`: the TLS settings of a client.
#[verifier::external_type_specification]
#[verifier::external_body]
pub struct ExClientTlsConfig(tonic::transport::ClientTlsConfig);

/// `tonic::transport::Server`: a server that is being configured.
#[verifier::external_type_specification]
#[verifier::external_body]
#[verifier::reject_recursive_types(L)]
pub struct ExServer<L>(tonic::transport::Server<L>);

/// `tower::layer::util::Identity`: the middleware stack of a server to which no
/// middleware was added.
#[verifier::external_type_specification]
#[verifier::external_body]
pub struct ExNoLayer(tower::layer::util::Identity);

/// `tonic::transport::Error`.
#[verifier::external_type_specification]
#[verifier::external_body]
pub struct ExTransportError(tonic::transport::Error);

/// The bytes of a certificate.
pub uninterp spec fn certificate_pem(certificate: tonic::transport::Certificate) -> Seq<u8>;

/// The bytes of the certificate and of the private key of an identity.
pub uninterp spec fn identity_pem(identity: tonic::transport::Identity) -> (Seq<u8>, Seq<u8>);

/// The certificate and the private key that the server presents, where any are
/// set.
pub uninterp spec fn server_identity(config: tonic::transport::ServerTlsConfig) -> Option<
    (Seq<u8>, Seq<u8>),
>;

/// The certificate against which the server validates those of its clients,
/// where one is set.
pub uninterp spec fn server_client_ca(config: tonic::transport::ServerTlsConfig) -> Option<Seq<u8>>;

/// Whether the server lets in clients without a certificate although it has one
/// to validate them against.
pub uninterp spec fn server_client_auth_optional(
    config: tonic::transport::ServerTlsConfig,
) -> bool;

/// The certificate and the private key that the client presents, where any are
/// set.
pub uninterp spec fn client_identity(config: tonic::transport::ClientTlsConfig) -> Option<
    (Seq<u8>, Seq<u8>),
>;

/// The certificates against which the client validates that of the server, in
/// the order in which they were added.
pub uninterp spec fn client_ca_pems(config: tonic::transport::ClientTlsConfig) -> Seq<Seq<u8>>;

/// The name against which the client checks the certificate of the server, where
/// one is set; otherwise it is that of the host it connects to.
pub uninterp spec fn client_domain(config: tonic::transport::ClientTlsConfig) -> Option<Seq<char>>;

/// The number of trust anchors that the client has besides its certificates.
pub uninterp spec fn client_trust_anchors(config: tonic::transport::ClientTlsConfig) -> nat;

/// Whether the client takes it for granted that the server supports HTTP/2.
pub uninterp spec fn client_assumes_http2(config: tonic::transport::ClientTlsConfig) -> bool;

/// The TLS settings that a server was given, `None` for one that speaks plain
/// text.
pub uninterp spec fn server_tls(server: tonic::transport::Server) -> Option<
    tonic::transport::ServerTlsConfig,
>;

/// The text that an error displays.
pub uninterp spec fn transport_error_text(error: tonic::transport::Error) -> Seq<char>;

/// Calls `Certificate::from_pem`, which keeps the bytes of the text as they are.
#[verifier::external_body]
pub(crate) fn certificate_from_pem(pem: &str) -> (certificate: tonic::transport::Certificate)
    ensures
        certificate_pem(certificate) == vstd::utf8::encode_utf8(pem@),
{
    tonic::transport::Certificate::from_pem(pem)
}

/// Calls `Identity::from_pem`, which keeps the bytes of both texts as they are.
#[verifier::external_body]
pub(crate) fn identity_from_pem(cert: &str, key: &str) -> (identity: tonic::transport::Identity)
    ensures
        identity_pem(identity) == (
            vstd::utf8::encode_utf8(cert@),
            vstd::utf8::encode_utf8(key@),
        ),
{
    tonic::transport::Identity::from_pem(cert, key)
}

/// `ServerTlsConfig::new` returns settings with no identity, no certificate for
/// validating clients, and client authentication that is not optional.
pub assume_specification[ tonic::transport::ServerTlsConfig::new ]() -> (config:
    tonic::transport::ServerTlsConfig)
    ensures
        server_identity(config) is None,
        server_client_ca(config) is None,
        !server_client_auth_optional(config),
;

/// `ServerTlsConfig::identity` sets the identity and keeps the rest.
pub assume_specification[ tonic::transport::ServerTlsConfig::identity ](
    config: tonic::transport::ServerTlsConfig,
    identity: tonic::transport::Identity,
) -> (updated: tonic::transport::ServerTlsConfig)
    ensures
        server_identity(updated) == Some(identity_pem(identity)),
        server_client_ca(updated) == server_client_ca(config),
        server_client_auth_optional(updated) == server_client_auth_optional(config),
;

/// `ServerTlsConfig::client_ca_root` sets the certificate for validating clients
/// and keeps the rest.
pub assume_specification[ tonic::transport::ServerTlsConfig::client_ca_root ](
    config: tonic::transport::ServerTlsConfig,
    cert: tonic::transport::Certificate,
) -> (updated: tonic::transport::ServerTlsConfig)
    ensures
        server_identity(updated) == server_identity(config),
        server_client_ca(updated) == Some(certificate_pem(cert)),
        server_client_auth_optional(updated) == server_client_auth_optional(config),
;

/// `ClientTlsConfig::new` returns settings in which nothing is set.
pub assume_specification[ tonic::transport::ClientTlsConfig::new ]() -> (config:
    tonic::transport::ClientTlsConfig)
    ensures
        client_identity(config) is None,
        client_ca_pems(config) == Seq::<Seq<u8>>::empty(),
        client_domain(config) is None,
        client_trust_anchors(config) == 0,
        !client_assumes_http2(config),
;

/// `ClientTlsConfig::identity` sets the identity and keeps the rest.
pub assume_specification[ tonic::transport::ClientTlsConfig::identity ](
    config: tonic::transport::ClientTlsConfig,
    identity: tonic::transport::Identity,
) -> (updated: tonic::transport::ClientTlsConfig)
    ensures
        client_identity(updated) == Some(identity_pem(identity)),
        client_ca_pems(updated) == client_ca_pems(config),
        client_domain(updated) == client_domain(config),
        client_trust_anchors(updated) == client_trust_anchors(config),
        client_assumes_http2(updated) == client_assumes_http2(config),
;

/// `ClientTlsConfig::ca_certificate` adds a certificate behind those that are
/// there and keeps the rest.
pub assume_specification[ tonic::transport::ClientTlsConfig::ca_certificate ](
    config: tonic::transport::ClientTlsConfig,
    ca_certificate: tonic::transport::Certificate,
) -> (updated: tonic::transport::ClientTlsConfig)
    ensures
        client_identity(updated) == client_identity(config),
        client_ca_pems(updated) == client_ca_pems(config).push(certificate_pem(ca_certificate)),
        client_domain(updated) == client_domain(config),
        client_trust_anchors(updated) == client_trust_anchors(config),
        client_assumes_http2(updated) == client_assumes_http2(config),
;

/// `Server::builder` returns a server that speaks plain text.
pub assume_specification[ tonic::transport::Server::builder ]() -> (server:
    tonic::transport::Server)
    ensures
        server_tls(server) is None,
;

/// Calls `Server::tls_config`, which gives the server TLS with these settings or
/// fails with an error that displays as `transport error`. It panics on settings
/// without an identity.
///
/// Whether it succeeds is left open: the PEM texts are decoded there and the key
/// is loaded by the process-wide cryptography provider.
#[verifier::external_body]
pub(crate) fn configure_tls(
    server: tonic::transport::Server,
    config: tonic::transport::ServerTlsConfig,
) -> (configured: Result<tonic::transport::Server, tonic::transport::Error>)
    requires
        server_identity(config) is Some,
    ensures
        configured matches Ok(secured) ==> server_tls(secured) == Some(config),
        configured matches Err(error) ==> transport_error_text(error) == "transport error"@,
{
    server.tls_config(config)
}

/// Whether `Server::tls_config`, called on a server that speaks plain text, can
/// have returned `configured` for these settings.
pub closed spec fn may_configure(
    config: tonic::transport::ServerTlsConfig,
    configured: Result<tonic::transport::Server, tonic::transport::Error>,
) -> bool {
    exists|server: tonic::transport::Server|
        server_tls(server) is None && #[trigger] call_ensures(
            configure_tls,
            (server, config),
            configured,
        )
}

/// Gives a new server these TLS settings. What comes of it is what
/// `Server::tls_config` returned for them.
pub(crate) fn configure_new(config: tonic::transport::ServerTlsConfig) -> (configured: Result<
    tonic::transport::Server,
    tonic::transport::Error,
>)
    requires
        server_identity(config) is Some,
    ensures
        may_configure(config, configured),
        configured matches Ok(secured) ==> server_tls(secured) == Some(config),
        configured matches Err(error) ==> transport_error_text(error) == "transport error"@,
{
    let server = tonic::transport::Server::builder();
    let configure = configure_tls;
    configure(server, config)
}

/// What can come of TLS settings is what a call of `Server::tls_config` with them
/// returned: only a call that failed leads to a failure, and only one that
/// succeeded leads to a server.
pub(crate) proof fn law_only_a_call_configures(
    config: tonic::transport::ServerTlsConfig,
    configured: Result<tonic::transport::Server, tonic::transport::Error>,
) -> (server: tonic::transport::Server)
    requires
        may_configure(config, configured),
    ensures
        server_tls(server) is None,
        call_ensures(configure_tls, (server, config), configured),
{
    choose|server: tonic::transport::Server|
        server_tls(server) is None && #[trigger] call_ensures(
            configure_tls,
            (server, config),
            configured,
        )
}

/// Formats an error by the `Display` of `tonic::transport::Error`.
#[verifier::external_body]
pub(crate) fn describe_transport_error(error: &tonic::transport::Error) -> (text: String)
    ensures
        text@ == transport_error_text(*error),
{
    format!("{}", error)
}

} // verus!
