//! The TLS settings of the service: when they are needed, which files they are
//! read from, and what is made of the files.
//!
//! Reading a file is left to the caller. The functions that need the files are
//! called again and again with the outcomes of all reads so far, and answer with
//! the next path to read until they can answer with a result.
use vstd::prelude::*;
use vstd::string::StringExecFns;
use crate::tonic_tls::certificate_from_pem;
use crate::tonic_tls::identity_from_pem;

verus! {

/// The environment variables that govern TLS, `None` for one that is not set or
/// is not valid Unicode.
pub struct TlsVars {
    /// `TLS_CERT_FILE`
    pub cert: Option<String>,
    /// `TLS_KEY_FILE`
    pub key: Option<String>,
    /// `TLS_CA_FILE`
    pub ca: Option<String>,
    /// `DEV_MODE`
    pub dev_mode: Option<String>,
}

/// The files that TLS is set up from.
#[derive(Clone, Copy, Debug, PartialEq, Eq, Structural)]
pub enum PemFile {
    /// The certificate of the service.
    Cert,
    /// The private key of the service.
    Key,
    /// The certificate that those of the peers are validated against.
    Ca,
}

/// Why TLS could not be set up.
#[derive(Debug)]
pub enum TlsError {
    /// No file is named, and the service is not in development mode.
    Missing,
    /// Some files are named and some are not.
    Incomplete,
    /// A file could not be read.
    Unreadable { file: PemFile, path: String, cause: String },
}

/// The contents of a [`TlsError`].
pub enum TlsErrorView {
    Missing,
    Incomplete,
    Unreadable { file: PemFile, path: Seq<char>, cause: Seq<char> },
}

impl View for TlsError {
    type V = TlsErrorView;

    open spec fn view(&self) -> TlsErrorView {
        match self {
            TlsError::Missing => TlsErrorView::Missing,
            TlsError::Incomplete => TlsErrorView::Incomplete,
            TlsError::Unreadable { file, path, cause } => TlsErrorView::Unreadable {
                file: *file,
                path: path@,
                cause: cause@,
            },
        }
    }
}

/// The contents of the three files.
#[derive(Debug)]
pub struct PemBundle {
    pub cert: String,
    pub key: String,
    pub ca: String,
}

/// The contents of a [`PemBundle`].
pub struct PemBundleView {
    pub cert: Seq<char>,
    pub key: Seq<char>,
    pub ca: Seq<char>,
}

impl View for PemBundle {
    type V = PemBundleView;

    open spec fn view(&self) -> PemBundleView {
        PemBundleView { cert: self.cert@, key: self.key@, ca: self.ca@ }
    }
}

/// Where the loading of the files stands.
#[derive(Debug)]
pub enum PemStep {
    /// TLS is not wanted.
    Off,
    /// The file at this path is to be read next.
    Read(String),
    /// TLS cannot be set up.
    Failed(TlsError),
    /// All files are read.
    Ready(PemBundle),
}

/// The contents of a [`PemStep`].
pub enum PemStepView {
    Off,
    Read(Seq<char>),
    Failed(TlsErrorView),
    Ready(PemBundleView),
}

impl View for PemStep {
    type V = PemStepView;

    open spec fn view(&self) -> PemStepView {
        match self {
            PemStep::Off => PemStepView::Off,
            PemStep::Read(path) => PemStepView::Read(path@),
            PemStep::Failed(error) => PemStepView::Failed(error@),
            PemStep::Ready(bundle) => PemStepView::Ready(bundle@),
        }
    }
}

/// Where the loading of TLS settings stands.
#[derive(Debug)]
pub enum TlsLoad<T> {
    /// The file at this path is to be read next.
    Read(String),
    /// Loading is over: `Ok(None)` where TLS is not wanted.
    Done(Result<Option<T>, TlsError>),
}

/// The TLS settings of the server.
#[derive(Debug)]
pub struct TlsMaterial {
    pub server_config: tonic::transport::ServerTlsConfig,
}

/// The text of a variable, empty where there is none.
pub open spec fn text_of(var: Option<String>) -> Seq<char> {
    match var {
        Some(value) => value@,
        None => Seq::empty(),
    }
}

/// Whether `DEV_MODE` switches development mode on.
pub open spec fn dev_mode_on(dev_mode: Option<String>) -> bool {
    dev_mode matches Some(value) && value@ == "1"@
}

impl TlsVars {
    /// The path that is given for `file`, empty where there is none.
    pub open spec fn path(self, file: PemFile) -> Seq<char> {
        match file {
            PemFile::Cert => text_of(self.cert),
            PemFile::Key => text_of(self.key),
            PemFile::Ca => text_of(self.ca),
        }
    }

    /// Whether a path is given for `file`.
    pub open spec fn names(self, file: PemFile) -> bool {
        self.path(file).len() > 0
    }

    /// Whether paths are given for all files.
    pub open spec fn complete(self) -> bool {
        self.names(PemFile::Cert) && self.names(PemFile::Key) && self.names(PemFile::Ca)
    }

    /// Whether no path is given for any file.
    pub open spec fn empty(self) -> bool {
        !self.names(PemFile::Cert) && !self.names(PemFile::Key) && !self.names(PemFile::Ca)
    }
}

/// The files in the order in which they are read.
pub open spec fn read_order() -> Seq<PemFile> {
    seq![PemFile::Cert, PemFile::Key, PemFile::Ca]
}

/// Whether the `i`-th read is the first that failed.
pub open spec fn first_failure(reads: Seq<Result<String, String>>, i: int) -> bool {
    &&& 0 <= i < reads.len()
    &&& reads[i] is Err
    &&& forall|j: int| 0 <= j < i ==> reads[j] is Ok
}

/// Where loading stands once `reads` are the outcomes of the reads so far.
pub open spec fn pem_step(vars: TlsVars, reads: Seq<Result<String, String>>) -> PemStepView {
    if vars.empty() {
        if dev_mode_on(vars.dev_mode) {
            PemStepView::Off
        } else {
            PemStepView::Failed(TlsErrorView::Missing)
        }
    } else if !vars.complete() {
        PemStepView::Failed(TlsErrorView::Incomplete)
    } else if exists|i: int| i < 3 && first_failure(reads, i) {
        let i = choose|i: int| i < 3 && first_failure(reads, i);
        let file = read_order()[i];
        PemStepView::Failed(
            TlsErrorView::Unreadable { file, path: vars.path(file), cause: reads[i]->Err_0@ },
        )
    } else if reads.len() < 3 {
        PemStepView::Read(vars.path(read_order()[reads.len() as int]))
    } else {
        PemStepView::Ready(
            PemBundleView {
                cert: reads[0]->Ok_0@,
                key: reads[1]->Ok_0@,
                ca: reads[2]->Ok_0@,
            },
        )
    }
}

/// What an error displays.
pub open spec fn tls_error_text(error: TlsErrorView) -> Seq<char> {
    match error {
        TlsErrorView::Missing =>
            "TLS_CERT_FILE/TLS_KEY_FILE/TLS_CA_FILE required when DEV_MODE!=1"@,
        TlsErrorView::Incomplete =>
            "TLS_CERT_FILE, TLS_KEY_FILE and TLS_CA_FILE must all be set together"@,
        TlsErrorView::Unreadable { file, path, cause } => (match file {
            PemFile::Cert => "read cert file "@,
            PemFile::Key => "read key file "@,
            PemFile::Ca => "read ca file "@,
        }) + path + ": "@ + cause,
    }
}

/// Whether the server presents the certificate and key of `bundle` and lets in
/// no client whose certificate its CA certificate does not validate.
pub open spec fn server_uses(
    config: tonic::transport::ServerTlsConfig,
    bundle: PemBundleView,
) -> bool {
    &&& crate::tonic_tls::server_identity(config) == Some(
        (vstd::utf8::encode_utf8(bundle.cert), vstd::utf8::encode_utf8(bundle.key)),
    )
    &&& crate::tonic_tls::server_client_ca(config) == Some(vstd::utf8::encode_utf8(bundle.ca))
    &&& !crate::tonic_tls::server_client_auth_optional(config)
}

/// Whether the client presents the certificate and key of `bundle`, trusts its CA
/// certificate alone, and has nothing else set.
pub open spec fn client_uses(
    config: tonic::transport::ClientTlsConfig,
    bundle: PemBundleView,
) -> bool {
    &&& crate::tonic_tls::client_identity(config) == Some(
        (vstd::utf8::encode_utf8(bundle.cert), vstd::utf8::encode_utf8(bundle.key)),
    )
    &&& crate::tonic_tls::client_ca_pems(config) == seq![vstd::utf8::encode_utf8(bundle.ca)]
    &&& crate::tonic_tls::client_domain(config) is None
    &&& crate::tonic_tls::client_trust_anchors(config) == 0
    &&& !crate::tonic_tls::client_assumes_http2(config)
}

/// Whether `load` is where the loading of the server's settings stands once the
/// loading of the files stands at `step`.
pub open spec fn server_load(load: TlsLoad<TlsMaterial>, step: PemStepView) -> bool {
    match step {
        PemStepView::Off => load matches TlsLoad::Done(Ok(None)),
        PemStepView::Read(path) => load matches TlsLoad::Read(next) && next@ == path,
        PemStepView::Failed(error) => load matches TlsLoad::Done(Err(e)) && e@ == error,
        PemStepView::Ready(bundle) => load matches TlsLoad::Done(Ok(Some(material)))
            && server_uses(material.server_config, bundle),
    }
}

/// Whether `load` is where the loading of the client's settings stands once the
/// loading of the files stands at `step`.
pub open spec fn client_load(
    load: TlsLoad<tonic::transport::ClientTlsConfig>,
    step: PemStepView,
) -> bool {
    match step {
        PemStepView::Off => load matches TlsLoad::Done(Ok(None)),
        PemStepView::Read(path) => load matches TlsLoad::Read(next) && next@ == path,
        PemStepView::Failed(error) => load matches TlsLoad::Done(Err(e)) && e@ == error,
        PemStepView::Ready(bundle) => load matches TlsLoad::Done(Ok(Some(config))) && client_uses(
            config,
            bundle,
        ),
    }
}

/// Tells whether `DEV_MODE` switches development mode on: it does where its
/// value is `1`.
pub fn is_dev_mode(dev_mode: &Option<String>) -> (r: bool)
    ensures
        r == dev_mode_on(*dev_mode),
{
    match dev_mode {
        Some(value) => *value == "1".to_owned(),
        None => false,
    }
}

/// The value that `DEV_MODE` is given before a service under test starts: `1`
/// where it has none, otherwise its own.
pub fn dev_mode_at_start(under_test: bool, dev_mode: &Option<String>) -> (r: Option<String>)
    ensures
        under_test && dev_mode is None ==> dev_mode_on(r),
        !(under_test && dev_mode is None) ==> r == *dev_mode,
{
    if under_test && dev_mode.is_none() {
        Some("1".to_owned())
    } else {
        dev_mode.clone()
    }
}

/// The text of a variable, empty where there is none.
fn text_or_empty(var: &Option<String>) -> (r: String)
    ensures
        r@ == text_of(*var),
{
    match var {
        Some(value) => value.clone(),
        None => String::new(),
    }
}

impl TlsError {
    /// What the error displays.
    pub fn message(&self) -> (r: String)
        ensures
            r@ == tls_error_text(self@),
    {
        match self {
            TlsError::Missing =>
                "TLS_CERT_FILE/TLS_KEY_FILE/TLS_CA_FILE required when DEV_MODE!=1".to_owned(),
            TlsError::Incomplete =>
                "TLS_CERT_FILE, TLS_KEY_FILE and TLS_CA_FILE must all be set together".to_owned(),
            TlsError::Unreadable { file, path, cause } => {
                let subject = match file {
                    PemFile::Cert => "read cert file ",
                    PemFile::Key => "read key file ",
                    PemFile::Ca => "read ca file ",
                };
                let mut r = subject.to_owned();
                r.append(path.as_str());
                r.append(": ");
                r.append(cause.as_str());
                r
            },
        }
    }
}

impl TlsVars {
    /// The path that is given for `file`, empty where there is none.
    fn path_of(&self, file: PemFile) -> (r: String)
        ensures
            r@ == self.path(file),
    {
        match file {
            PemFile::Cert => text_or_empty(&self.cert),
            PemFile::Key => text_or_empty(&self.key),
            PemFile::Ca => text_or_empty(&self.ca),
        }
    }
}

/// Where loading stands once `reads` are the outcomes of the reads so far.
///
/// A file counts as named where its variable is set and not empty. The files are
/// read in the order certificate, key, CA certificate, up to the first that
/// cannot be read.
pub fn next_pem(vars: &TlsVars, reads: &Vec<Result<String, String>>) -> (r: PemStep)
    ensures
        r@ == pem_step(*vars, reads@),
{
    let cert = vars.path_of(PemFile::Cert);
    let key = vars.path_of(PemFile::Key);
    let ca = vars.path_of(PemFile::Ca);
    if cert.as_str().is_empty() && key.as_str().is_empty() && ca.as_str().is_empty() {
        if is_dev_mode(&vars.dev_mode) {
            return PemStep::Off;
        }
        return PemStep::Failed(TlsError::Missing);
    }
    if cert.as_str().is_empty() || key.as_str().is_empty() || ca.as_str().is_empty() {
        return PemStep::Failed(TlsError::Incomplete);
    }
    let mut texts: Vec<String> = Vec::new();
    let mut i: usize = 0;
    while i < 3
        invariant
            i <= 3,
            i <= reads@.len(),
            vars.complete(),
            texts@.len() == i,
            forall|j: int| 0 <= j < i ==> reads@[j] == Ok::<String, String>(#[trigger] texts@[j]),
        decreases 3 - i,
    {
        let file = if i == 0 {
            PemFile::Cert
        } else if i == 1 {
            PemFile::Key
        } else {
            PemFile::Ca
        };
        assert(file == read_order()[i as int]);
        assert forall|j: int| 0 <= j < i implies reads@[j] is Ok by {
            assert(reads@[j] == Ok::<String, String>(texts@[j]));
        }
        if i >= reads.len() {
            return PemStep::Read(vars.path_of(file));
        }
        match &reads[i] {
            Ok(text) => {
                texts.push(text.clone());
            },
            Err(cause) => {
                assert(first_failure(reads@, i as int));
                assert forall|k: int| first_failure(reads@, k) implies k == i by {}
                return PemStep::Failed(
                    TlsError::Unreadable { file, path: vars.path_of(file), cause: cause.clone() },
                );
            },
        }
        i = i + 1;
    }
    assert(reads@[0] == Ok::<String, String>(texts@[0]));
    assert(reads@[1] == Ok::<String, String>(texts@[1]));
    assert(reads@[2] == Ok::<String, String>(texts@[2]));
    PemStep::Ready(
        PemBundle { cert: texts[0].clone(), key: texts[1].clone(), ca: texts[2].clone() },
    )
}

/// Loads the TLS settings of the server.
///
/// TLS is off where no file is named in development mode. Otherwise all three
/// files have to be named and readable; the server then presents the
/// certificate with its key, and asks its clients for certificates that the CA
/// certificate validates.
pub fn load_server_tls(vars: &TlsVars, reads: &Vec<Result<String, String>>) -> (r: TlsLoad<
    TlsMaterial,
>)
    ensures
        server_load(r, pem_step(*vars, reads@)),
{
    match next_pem(vars, reads) {
        PemStep::Off => TlsLoad::Done(Ok(None)),
        PemStep::Read(path) => TlsLoad::Read(path),
        PemStep::Failed(error) => TlsLoad::Done(Err(error)),
        PemStep::Ready(bundle) => {
            let identity = identity_from_pem(bundle.cert.as_str(), bundle.key.as_str());
            let client_ca = certificate_from_pem(bundle.ca.as_str());
            let server_config = tonic::transport::ServerTlsConfig::new().identity(
                identity,
            ).client_ca_root(client_ca);
            TlsLoad::Done(Ok(Some(TlsMaterial { server_config })))
        },
    }
}

/// Loads the TLS settings with which traces are exported.
///
/// The rules are those of [`load_server_tls`]; the exporter presents the
/// certificate with its key, and trusts the CA certificate.
pub fn load_otlp_tls(vars: &TlsVars, reads: &Vec<Result<String, String>>) -> (r: TlsLoad<
    tonic::transport::ClientTlsConfig,
>)
    ensures
        client_load(r, pem_step(*vars, reads@)),
{
    match next_pem(vars, reads) {
        PemStep::Off => TlsLoad::Done(Ok(None)),
        PemStep::Read(path) => TlsLoad::Read(path),
        PemStep::Failed(error) => TlsLoad::Done(Err(error)),
        PemStep::Ready(bundle) => {
            let identity = identity_from_pem(bundle.cert.as_str(), bundle.key.as_str());
            let ca = certificate_from_pem(bundle.ca.as_str());
            let config = tonic::transport::ClientTlsConfig::new().identity(
                identity,
            ).ca_certificate(ca);
            assert(crate::tonic_tls::client_ca_pems(config) =~= seq![
                vstd::utf8::encode_utf8(bundle.ca@),
            ]);
            TlsLoad::Done(Ok(Some(config)))
        },
    }
}

/// TLS is off exactly where no file is named and development mode is on.
pub proof fn law_tls_is_off_only_in_dev_mode(vars: TlsVars, reads: Seq<Result<String, String>>)
    ensures
        pem_step(vars, reads) is Off <==> vars.empty() && dev_mode_on(vars.dev_mode),
{
}

/// Naming some of the files and not the others is an error, in development mode
/// too, and no file is read for it.
pub proof fn law_the_files_are_named_together(vars: TlsVars, reads: Seq<Result<String, String>>)
    requires
        !vars.empty(),
        !vars.complete(),
    ensures
        pem_step(vars, reads) == PemStepView::Failed(TlsErrorView::Incomplete),
{
}

/// With all files named, the certificate, the key and the CA certificate are
/// asked for in this order, and once all three are read they are what TLS is set
/// up from. `DEV_MODE` plays no part in it.
pub proof fn law_the_files_are_read_in_order(vars: TlsVars, reads: Seq<Result<String, String>>)
    requires
        vars.complete(),
        forall|i: int| 0 <= i < reads.len() ==> (#[trigger] reads[i]) is Ok,
    ensures
        reads.len() == 0 ==> pem_step(vars, reads) == PemStepView::Read(vars.path(PemFile::Cert)),
        reads.len() == 1 ==> pem_step(vars, reads) == PemStepView::Read(vars.path(PemFile::Key)),
        reads.len() == 2 ==> pem_step(vars, reads) == PemStepView::Read(vars.path(PemFile::Ca)),
        reads.len() >= 3 ==> pem_step(vars, reads) == PemStepView::Ready(
            PemBundleView { cert: reads[0]->Ok_0@, key: reads[1]->Ok_0@, ca: reads[2]->Ok_0@ },
        ),
{
}

/// A file that cannot be read ends the loading with an error that tells which
/// file it is, its path and the cause.
pub proof fn law_the_first_unreadable_file_is_reported(
    vars: TlsVars,
    reads: Seq<Result<String, String>>,
    i: int,
)
    requires
        vars.complete(),
        i < 3,
        first_failure(reads, i),
    ensures
        pem_step(vars, reads) == PemStepView::Failed(
            TlsErrorView::Unreadable {
                file: read_order()[i],
                path: vars.path(read_order()[i]),
                cause: reads[i]->Err_0@,
            },
        ),
{
    assert forall|k: int| first_failure(reads, k) implies k == i by {}
}

/// A result is final: once no file is asked for, no further read changes where
/// loading stands.
pub proof fn law_a_finished_load_stays_finished(
    vars: TlsVars,
    reads: Seq<Result<String, String>>,
    further: Seq<Result<String, String>>,
)
    requires
        !(pem_step(vars, reads) is Read),
    ensures
        pem_step(vars, reads + further) == pem_step(vars, reads),
{
    let all = reads + further;
    if vars.complete() {
        if exists|i: int| i < 3 && first_failure(reads, i) {
            let i = choose|i: int| i < 3 && first_failure(reads, i);
            assert(first_failure(all, i)) by {
                assert forall|j: int| 0 <= j < i implies all[j] is Ok by {
                    assert(all[j] == reads[j]);
                }
            }
            law_the_first_unreadable_file_is_reported(vars, reads, i);
            law_the_first_unreadable_file_is_reported(vars, all, i);
        } else {
            assert(reads.len() >= 3);
            lemma_no_early_failure(reads, 3);
            assert forall|i: int| i < 3 implies !first_failure(all, i) by {
                if 0 <= i {
                    assert(all[i] == reads[i]);
                }
            }
        }
    }
}

/// Loading ends after three reads at the latest.
pub proof fn law_loading_takes_at_most_three_reads(
    vars: TlsVars,
    reads: Seq<Result<String, String>>,
)
    requires
        reads.len() >= 3,
    ensures
        !(pem_step(vars, reads) is Read),
{
}

/// The server and the exporter get TLS on the same terms: with the same
/// variables and files both ask for the same file, both have it off, both fail
/// with the same error, or both have it on. In the last case both present the
/// same certificate and key, and the one CA certificate that the exporter trusts
/// is that which the server validates its clients against.
pub proof fn law_server_and_exporter_agree(
    server: TlsLoad<TlsMaterial>,
    exporter: TlsLoad<tonic::transport::ClientTlsConfig>,
    vars: TlsVars,
    reads: Seq<Result<String, String>>,
)
    requires
        server_load(server, pem_step(vars, reads)),
        client_load(exporter, pem_step(vars, reads)),
    ensures
        match server {
            TlsLoad::Read(path) => exporter matches TlsLoad::Read(p) && p@ == path@,
            TlsLoad::Done(Ok(None)) => exporter matches TlsLoad::Done(Ok(None)),
            TlsLoad::Done(Ok(Some(material))) => exporter matches TlsLoad::Done(Ok(Some(config)))
                && crate::tonic_tls::client_identity(config) == crate::tonic_tls::server_identity(
                material.server_config,
            ) && crate::tonic_tls::server_client_ca(material.server_config) is Some
                && crate::tonic_tls::client_ca_pems(config)
                == seq![crate::tonic_tls::server_client_ca(material.server_config)->0],
            TlsLoad::Done(Err(error)) => exporter matches TlsLoad::Done(Err(e)) && e@ == error@,
        },
{
}

/// Whether a variable is set and not empty.
pub open spec fn given(var: Option<String>) -> bool {
    var matches Some(value) && value@.len() > 0
}

/// Whether a variable is set to the text `1`.
pub open spec fn is_one(var: Option<String>) -> bool {
    var matches Some(value) && value@ =~= seq!['1']
}

/// Whether the first `n` reads are all there and succeeded.
pub open spec fn all_read(reads: Seq<Result<String, String>>, n: int) -> bool {
    n <= reads.len() && forall|j: int| 0 <= j < n ==> (#[trigger] reads[j]) is Ok
}

/// Development mode is on exactly where the value of `DEV_MODE` is the one
/// character `1`.
pub proof fn law_dev_mode_is_the_text_one(dev_mode: Option<String>, r: bool)
    requires
        call_ensures(is_dev_mode, (&dev_mode,), r),
    ensures
        r <==> is_one(dev_mode),
        dev_mode is None ==> !r,
        dev_mode matches Some(value) ==> (r <==> value@.len() == 1 && value@[0] == '1'),
{
    lemma_one(dev_mode);
}

/// A service under test is put into development mode where `DEV_MODE` is not
/// set; a value that is set, whatever it is, is left alone, and so is the absence
/// of one outside a test.
pub proof fn law_a_test_keeps_a_dev_mode_that_is_set(
    under_test: bool,
    dev_mode: Option<String>,
    r: Option<String>,
)
    requires
        call_ensures(dev_mode_at_start, (under_test, &dev_mode), r),
    ensures
        dev_mode is Some ==> r == dev_mode,
        !under_test ==> r == dev_mode,
        under_test && dev_mode is None ==> is_one(r),
{
    lemma_one(r);
}

/// What an error displays: what is asked for where files are not named, and
/// otherwise which file could not be read, its path and the cause.
pub proof fn law_an_error_tells_the_file_the_path_and_the_cause(error: TlsError, r: String)
    requires
        call_ensures(TlsError::message, (&error,), r),
    ensures
        error is Missing ==> r@
            == "TLS_CERT_FILE/TLS_KEY_FILE/TLS_CA_FILE required when DEV_MODE!=1"@,
        error is Incomplete ==> r@
            == "TLS_CERT_FILE, TLS_KEY_FILE and TLS_CA_FILE must all be set together"@,
        error matches TlsError::Unreadable { file, path, cause } ==> {
            let name = match file {
                PemFile::Cert => "cert"@,
                PemFile::Key => "key"@,
                PemFile::Ca => "ca"@,
            };
            r@ =~= "read "@ + name + " file "@ + path@ + ": "@ + cause@
        },
{
    reveal_strlit("read ");
    reveal_strlit(" file ");
    reveal_strlit("cert");
    reveal_strlit("key");
    reveal_strlit("ca");
    reveal_strlit("read cert file ");
    reveal_strlit("read key file ");
    reveal_strlit("read ca file ");
    if error matches TlsError::Unreadable { file, path, cause } {
        assert("read cert file "@ =~= "read "@ + "cert"@ + " file "@);
        assert("read key file "@ =~= "read "@ + "key"@ + " file "@);
        assert("read ca file "@ =~= "read "@ + "ca"@ + " file "@);
    }
}

/// How the loading of the files goes, said of the variables and the reads
/// themselves. With no file named it ends at once: TLS is off where `DEV_MODE` is
/// `1`, and missing for every other value and for none. With some of them named
/// it ends at once too. With all of them named, whatever `DEV_MODE` is, they are
/// read one after the other, up to the first that cannot be read.
pub proof fn law_loading_of_the_files(
    vars: TlsVars,
    reads: Vec<Result<String, String>>,
    r: PemStep,
    i: int,
)
    requires
        call_ensures(next_pem, (&vars, &reads), r),
    ensures
        ({
            let paths = seq![vars.cert, vars.key, vars.ca];
            let files = seq![PemFile::Cert, PemFile::Key, PemFile::Ca];
            let none = !given(vars.cert) && !given(vars.key) && !given(vars.ca);
            let all = given(vars.cert) && given(vars.key) && given(vars.ca);
            &&& none && is_one(vars.dev_mode) ==> r is Off
            &&& none && !is_one(vars.dev_mode) ==> (r matches PemStep::Failed(TlsError::Missing))
            &&& !none && !all ==> (r matches PemStep::Failed(TlsError::Incomplete))
            &&& all && 0 <= i < 3 && i < reads@.len() && all_read(reads@, i) && reads@[i] is Err
                ==> (r matches PemStep::Failed(TlsError::Unreadable { file, path, cause }) && file
                == files[i] && path@ == paths[i]->0@ && cause@ == reads@[i]->Err_0@)
            &&& all && 0 <= i < 3 && i == reads@.len() && all_read(reads@, i) ==> (
            r matches PemStep::Read(path) && path@ == paths[i]->0@)
            &&& all && all_read(reads@, 3) ==> (r matches PemStep::Ready(bundle) && bundle.cert@
                == reads@[0]->Ok_0@ && bundle.key@ == reads@[1]->Ok_0@ && bundle.ca@
                == reads@[2]->Ok_0@)
        }),
{
    lemma_loading(vars, reads@, i);
}

/// How the loading of the server's settings goes, said of the variables and the
/// reads themselves, as in [`law_loading_of_the_files`]: once all files are read
/// the server presents the certificate and key, and requires of its clients
/// certificates that the CA certificate validates.
pub proof fn law_loading_of_the_server_settings(
    vars: TlsVars,
    reads: Vec<Result<String, String>>,
    r: TlsLoad<TlsMaterial>,
    i: int,
)
    requires
        call_ensures(load_server_tls, (&vars, &reads), r),
    ensures
        ({
            let paths = seq![vars.cert, vars.key, vars.ca];
            let files = seq![PemFile::Cert, PemFile::Key, PemFile::Ca];
            let none = !given(vars.cert) && !given(vars.key) && !given(vars.ca);
            let all = given(vars.cert) && given(vars.key) && given(vars.ca);
            &&& none && is_one(vars.dev_mode) ==> (r matches TlsLoad::Done(Ok(None)))
            &&& none && !is_one(vars.dev_mode) ==> (r matches TlsLoad::Done(Err(TlsError::Missing)))
            &&& !none && !all ==> (r matches TlsLoad::Done(Err(TlsError::Incomplete)))
            &&& all && 0 <= i < 3 && i < reads@.len() && all_read(reads@, i) && reads@[i] is Err
                ==> (r matches TlsLoad::Done(Err(TlsError::Unreadable { file, path, cause }))
                && file == files[i] && path@ == paths[i]->0@ && cause@ == reads@[i]->Err_0@)
            &&& all && 0 <= i < 3 && i == reads@.len() && all_read(reads@, i) ==> (
            r matches TlsLoad::Read(path) && path@ == paths[i]->0@)
            &&& all && all_read(reads@, 3) ==> (r matches TlsLoad::Done(Ok(Some(material))) && {
                let config = material.server_config;
                &&& crate::tonic_tls::server_identity(config) == Some(
                    (
                        vstd::utf8::encode_utf8(reads@[0]->Ok_0@),
                        vstd::utf8::encode_utf8(reads@[1]->Ok_0@),
                    ),
                )
                &&& crate::tonic_tls::server_client_ca(config) == Some(
                    vstd::utf8::encode_utf8(reads@[2]->Ok_0@),
                )
                &&& !crate::tonic_tls::server_client_auth_optional(config)
            })
        }),
{
    lemma_loading(vars, reads@, i);
}

/// How the loading of the exporter's settings goes, said of the variables and the
/// reads themselves, as in [`law_loading_of_the_files`]: once all files are read
/// the exporter presents the certificate and key, and trusts the CA certificate
/// and nothing else.
pub proof fn law_loading_of_the_exporter_settings(
    vars: TlsVars,
    reads: Vec<Result<String, String>>,
    r: TlsLoad<tonic::transport::ClientTlsConfig>,
    i: int,
)
    requires
        call_ensures(load_otlp_tls, (&vars, &reads), r),
    ensures
        ({
            let paths = seq![vars.cert, vars.key, vars.ca];
            let files = seq![PemFile::Cert, PemFile::Key, PemFile::Ca];
            let none = !given(vars.cert) && !given(vars.key) && !given(vars.ca);
            let all = given(vars.cert) && given(vars.key) && given(vars.ca);
            &&& none && is_one(vars.dev_mode) ==> (r matches TlsLoad::Done(Ok(None)))
            &&& none && !is_one(vars.dev_mode) ==> (r matches TlsLoad::Done(Err(TlsError::Missing)))
            &&& !none && !all ==> (r matches TlsLoad::Done(Err(TlsError::Incomplete)))
            &&& all && 0 <= i < 3 && i < reads@.len() && all_read(reads@, i) && reads@[i] is Err
                ==> (r matches TlsLoad::Done(Err(TlsError::Unreadable { file, path, cause }))
                && file == files[i] && path@ == paths[i]->0@ && cause@ == reads@[i]->Err_0@)
            &&& all && 0 <= i < 3 && i == reads@.len() && all_read(reads@, i) ==> (
            r matches TlsLoad::Read(path) && path@ == paths[i]->0@)
            &&& all && all_read(reads@, 3) ==> (r matches TlsLoad::Done(Ok(Some(config))) && {
                &&& crate::tonic_tls::client_identity(config) == Some(
                    (
                        vstd::utf8::encode_utf8(reads@[0]->Ok_0@),
                        vstd::utf8::encode_utf8(reads@[1]->Ok_0@),
                    ),
                )
                &&& crate::tonic_tls::client_ca_pems(config) =~= seq![
                    vstd::utf8::encode_utf8(reads@[2]->Ok_0@),
                ]
                &&& crate::tonic_tls::client_domain(config) is None
                &&& crate::tonic_tls::client_trust_anchors(config) == 0
                &&& !crate::tonic_tls::client_assumes_http2(config)
            })
        }),
{
    lemma_loading(vars, reads@, i);
}

/// Development mode, by the characters of the variable.
pub(crate) proof fn lemma_one(var: Option<String>)
    ensures
        dev_mode_on(var) <==> is_one(var),
{
    reveal_strlit("1");
    if is_one(var) {
        assert(var->0@ =~= "1"@);
    }
}

/// Where the loading of the files stands, by the variables and the reads.
pub(crate) proof fn lemma_loading(vars: TlsVars, reads: Seq<Result<String, String>>, i: int)
    ensures
        ({
            let paths = seq![vars.cert, vars.key, vars.ca];
            let files = seq![PemFile::Cert, PemFile::Key, PemFile::Ca];
            let none = !given(vars.cert) && !given(vars.key) && !given(vars.ca);
            let all = given(vars.cert) && given(vars.key) && given(vars.ca);
            &&& none && is_one(vars.dev_mode) ==> pem_step(vars, reads) is Off
            &&& none && !is_one(vars.dev_mode) ==> pem_step(vars, reads) == PemStepView::Failed(
                TlsErrorView::Missing,
            )
            &&& !none && !all ==> pem_step(vars, reads) == PemStepView::Failed(
                TlsErrorView::Incomplete,
            )
            &&& all && 0 <= i < 3 && i < reads.len() && all_read(reads, i) && reads[i] is Err
                ==> pem_step(vars, reads) == PemStepView::Failed(
                TlsErrorView::Unreadable {
                    file: files[i],
                    path: paths[i]->0@,
                    cause: reads[i]->Err_0@,
                },
            )
            &&& all && 0 <= i < 3 && i == reads.len() && all_read(reads, i) ==> pem_step(
                vars,
                reads,
            ) == PemStepView::Read(paths[i]->0@)
            &&& all && all_read(reads, 3) ==> pem_step(vars, reads) == PemStepView::Ready(
                PemBundleView { cert: reads[0]->Ok_0@, key: reads[1]->Ok_0@, ca: reads[2]->Ok_0@ },
            )
        }),
{
    lemma_one(vars.dev_mode);
    if vars.complete() {
        if 0 <= i < 3 && i < reads.len() && all_read(reads, i) && reads[i] is Err {
            assert(first_failure(reads, i));
            law_the_first_unreadable_file_is_reported(vars, reads, i);
        }
        if all_read(reads, 3) {
            assert forall|k: int| k < 3 implies !first_failure(reads, k) by {
                if 0 <= k {
                    assert(reads[k] is Ok);
                }
            }
        }
        if i == reads.len() && all_read(reads, i) {
            assert forall|k: int| k < 3 implies !first_failure(reads, k) by {
                if 0 <= k < reads.len() {
                    assert(reads[k] is Ok);
                }
            }
        }
    }
}

proof fn lemma_no_early_failure(reads: Seq<Result<String, String>>, n: int)
    requires
        0 <= n <= reads.len(),
        forall|i: int| i < n ==> !first_failure(reads, i),
    ensures
        forall|i: int| 0 <= i < n ==> (#[trigger] reads[i]) is Ok,
    decreases n,
{
    if n > 0 {
        lemma_no_early_failure(reads, n - 1);
        assert(!first_failure(reads, n - 1));
    }
}

} // verus!
