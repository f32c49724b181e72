//! Pairing the daemon with the cloud.
//!
//! The daemon makes a key pair and a signing request for it. The operator, or
//! the cloud itself, answers with a token: JSON in URL-safe base64, which holds
//! the daemon's signed certificate, the pin of the cloud's certificate and the
//! endpoint to dial.
use vstd::prelude::*;

use crate::config;
use crate::config::Config;
use crate::deps;
use crate::failure;
use crate::failure::Failure;
use crate::hex;
use crate::text;
use crate::tunnel;
use crate::x509;
use crate::x509::{AltNameModel, CertModel, ParamsModel, RequestModel};

verus! {

/// The token format that is understood.
pub const TOKEN_VERSION: u32 = 1;

/// The name in the daemon's signing request.
pub const SUBJECT: &'static str = "membrane-daemon";

/// The name in a certificate made for tests.
pub const DEV_SUBJECT: &'static str = "membrane-daemon-dev";

/// A pairing token.
#[derive(Debug, Clone)]
pub struct PairingToken {
    /// Token format version.
    pub v: u32,
    /// PEM of the daemon's signed certificates, leaf first.
    pub daemon_cert_pem: String,
    /// Hash of the cloud's certificate, in hexadecimal.
    pub cloud_pin_hex: String,
    /// Endpoint to dial.
    pub endpoint: String,
    /// Customer label for display.
    pub customer_label: Option<String>,
}

/// The JSON that a token's text carries, white space around it aside, or why it
/// carries none.
pub open spec fn token_json(token: Seq<char>) -> Result<Seq<u8>, Seq<char>> {
    deps::base64_bytes(text::trimmed(token))
}

/// Why a token is refused, if it is.
pub open spec fn token_refused(t: PairingToken) -> Option<Seq<char>> {
    if t.v != TOKEN_VERSION {
        Some("unsupported token version "@ + text::decimal(t.v as nat))
    } else if t.daemon_cert_pem@.len() == 0 {
        Some("token missing daemon cert"@)
    } else if t.cloud_pin_hex@.len() == 0 {
        Some("token missing cloud pin"@)
    } else if t.endpoint@.len() == 0 {
        Some("token missing endpoint"@)
    } else {
        None
    }
}

impl PairingToken {
    /// The text of a token, given its JSON. Reading the text gives the JSON
    /// back, whatever white space was put around it.
    pub fn encode(json: &[u8]) -> (res: String)
        ensures
            res@ == deps::base64_of(json@),
            token_json(res@) == Ok::<Seq<u8>, Seq<char>>(json@),
            forall|lead: Seq<char>, tail: Seq<char>|
                text::is_blank(lead) && text::is_blank(tail) ==> #[trigger] token_json(lead + res@ + tail)
                    == Ok::<Seq<u8>, Seq<char>>(json@),
    {
        let token = deps::base64_encode(json);
        proof {
            let t = token@;
            if t.len() > 0 {
                assert(deps::is_url_safe(t[0]));
                assert(deps::is_url_safe(t[t.len() - 1]));
            }
            assert forall|lead: Seq<char>, tail: Seq<char>|
                text::is_blank(lead) && text::is_blank(tail) implies #[trigger] token_json(lead + t + tail)
                == Ok::<Seq<u8>, Seq<char>>(json@) by {
                text::lemma_trim_padded(lead, t, tail);
            }
            let none = Seq::<char>::empty();
            assert(none + t + none =~= t);
            assert(token_json(none + t + none) == token_json(t));
        }
        token
    }

    /// The JSON that a token's text carries.
    pub fn decode(token: &str) -> (res: Result<Vec<u8>, Failure>)
        ensures
            match (res, token_json(token@)) {
                (Ok(json), Ok(m)) => json@ == m,
                (Err(e), Err(m)) => e@ == failure::because("base64 decode"@, m),
                _ => false,
            },
    {
        match deps::base64_decode(text::trim(token)) {
            Ok(json) => Ok(json),
            Err(e) => Err(Failure::caused("base64 decode", e)),
        }
    }

    /// Accepts a token that was parsed from its JSON, if it is one that is
    /// understood and complete.
    pub fn accept(parsed: Result<PairingToken, String>) -> (res: Result<PairingToken, Failure>)
        ensures
            match parsed {
                Err(e) => res is Err && res->Err_0@ == failure::because("token JSON decode"@, e@),
                Ok(t) => match token_refused(t) {
                    Some(why) => res is Err && res->Err_0@ == failure::plain(why),
                    None => res == Ok::<PairingToken, Failure>(t),
                },
            },
    {
        let t = match parsed {
            Ok(t) => t,
            Err(e) => {
                return Err(Failure::caused("token JSON decode", e));
            },
        };
        if t.v != TOKEN_VERSION {
            let version = text::decimal_text(t.v as u64);
            return Err(Failure::new(text::text2("unsupported token version ", version.as_str())));
        }
        if t.daemon_cert_pem.as_str().unicode_len() == 0 {
            return Err(Failure::new("token missing daemon cert".to_string()));
        }
        if t.cloud_pin_hex.as_str().unicode_len() == 0 {
            return Err(Failure::new("token missing cloud pin".to_string()));
        }
        if t.endpoint.as_str().unicode_len() == 0 {
            return Err(Failure::new("token missing endpoint".to_string()));
        }
        Ok(t)
    }
}

// ── Keys and signing requests ───────────────────────────────────────

/// The daemon's key pair, with its DER, and with its PEM text if it is new and
/// that text is still to be stored.
pub struct DaemonKey {
    pub pair: rcgen::KeyPair,
    pub der: Vec<u8>,
    pub new_pem: Option<String>,
}

/// Whether a key is the one that a stored PEM text holds, with nothing to store.
pub open spec fn is_stored_key(pem: Seq<char>, key: DaemonKey) -> bool {
    &&& key.new_pem is None
    &&& key.der@ == deps::pem_contents(pem)
    &&& deps::key_der(key.pair) == Some(key.der@)
}

/// Whether a key comes with the PEM text that holds it, to be stored.
pub open spec fn is_new_key(key: DaemonKey) -> bool {
    &&& key.new_pem is Some
    &&& key.der@ == deps::pem_contents(key.new_pem->Some_0@)
    &&& deps::key_der(key.pair) == Some(key.der@)
}

/// The daemon's key pair: read from the PEM text of the stored one, or made if
/// there is none. The flag says whether it was made, so that a certificate for
/// an older one is of no use any more.
///
/// A stored key is used as it is. A key made here comes back from its text:
/// whenever that can be read, it holds the same key.
pub fn ensure_keypair(existing: Option<&str>) -> (res: Result<(DaemonKey, bool), Failure>)
    ensures
        match existing {
            Some(pem) => {
                &&& res matches Ok((key, new)) ==> !new && is_stored_key(pem@, key)
                &&& res matches Err(e) ==> {
                    &&& e@.message == "parse existing key PEM"@
                    &&& e@.cause is Some
                }
            },
            None => {
                &&& res matches Ok((key, new)) ==> new && is_new_key(key)
                &&& res matches Err(e) ==> {
                    &&& e@.message == "generate keypair"@
                    &&& e@.cause is Some
                }
            },
        },
{
    match existing {
        Some(pem) => match deps::key_from_pem(pem) {
            Ok((pair, der)) => Ok((DaemonKey { pair, der, new_pem: None }, false)),
            Err(e) => Err(Failure::caused("parse existing key PEM", e)),
        },
        None => match deps::key_generate() {
            Ok((pair, der, pem)) => Ok((DaemonKey { pair, der, new_pem: Some(pem) }, true)),
            Err(e) => Err(Failure::caused("generate keypair", e)),
        },
    }
}

/// A key that was made and stored comes back: what is read from the stored text
/// is the same key pair, and nothing is to be stored again.
pub proof fn law_stored_key_comes_back(made: DaemonKey, again: DaemonKey)
    requires
        is_new_key(made),
        is_stored_key(made.new_pem->Some_0@, again),
    ensures
        deps::key_der(again.pair) == deps::key_der(made.pair),
        again.der@ == made.der@,
        again.new_pem is None,
{
}

/// One name, as a list.
fn only(name: &str) -> (res: Vec<String>)
    ensures
        config::texts(res@) == seq![name@],
{
    let mut names: Vec<String> = Vec::new();
    names.push(name.to_string());
    assert(config::texts(names@) =~= seq![name@]);
    names
}

/// What a signing request for a daemon's key asks for: the name [`SUBJECT`],
/// and the key's public key.
pub open spec fn daemon_request(public_key: Seq<u8>) -> RequestModel {
    RequestModel {
        subject: seq![x509::common_name(SUBJECT@)],
        alt_names: seq![x509::dns_name(SUBJECT@)],
        public_key,
    }
}

/// A name with letters from beyond F is no network address.
proof fn lemma_no_address(names: Seq<String>, name: Seq<char>, alt_names: Seq<AltNameModel>)
    requires
        config::texts(names) == seq![name],
        name == SUBJECT@ || name == DEV_SUBJECT@,
        deps::is_named(alt_names, names),
    ensures
        alt_names == seq![x509::dns_name(name)],
{
    reveal_strlit("membrane-daemon");
    reveal_strlit("membrane-daemon-dev");
    assert(names.len() == config::texts(names).len());
    assert(config::texts(names)[0] == names[0]@);
    assert(!x509::is_address_char(name[0]));
    assert(x509::is_no_address(names[0]@));
    assert(alt_names[0] == x509::dns_name(name));
    assert(alt_names =~= seq![x509::dns_name(name)]);
}

/// A signing request for the key, in PEM. It is signed anew each time; what it
/// asks for is always [`daemon_request`] of the key's public key. That key is
/// not stated for a remote key pair, which holds no private key.
pub fn build_csr(key_pair: &rcgen::KeyPair) -> (res: Result<String, Failure>)
    ensures
        res matches Ok(pem) ==> {
            &&& text::begins_with(pem@, deps::CSR_HEADER@)
            &&& deps::csr_of(pem@) == daemon_request(deps::csr_of(pem@).public_key)
            &&& deps::key_der(*key_pair) matches Some(der) ==> deps::csr_of(pem@).public_key
                == deps::public_key_of(der)
        },
        res matches Err(e) ==> e@.message == "build CSR"@ && e@.cause is Some,
{
    let names = only(SUBJECT);
    let ghost listed = names@;
    proof {
        reveal_strlit("membrane-daemon");
        assert(names@.len() == config::texts(names@).len());
        assert(config::texts(names@)[0] == names@[0]@);
    }
    let mut params = match deps::cert_params(names) {
        Ok(params) => params,
        Err(e) => {
            return Err(Failure::caused("CSR params", e));
        },
    };
    let ghost subject = deps::params_of(params).subject;
    deps::push_common_name(&mut params, SUBJECT);
    proof {
        lemma_no_address(listed, SUBJECT@, deps::params_of(params).alt_names);
        assert(subject[0].oid == x509::common_name(SUBJECT@).oid);
        assert(deps::params_of(params).subject =~= seq![x509::common_name(SUBJECT@)]);
    }
    let csr = match deps::serialize_request(&params, key_pair) {
        Ok(csr) => csr,
        Err(e) => {
            return Err(Failure::caused("build CSR", e));
        },
    };
    match deps::csr_pem(&csr) {
        Ok(pem) => Ok(pem),
        Err(e) => Err(Failure::caused("CSR to PEM", e)),
    }
}

/// Why a certificate is not written though everything could be read.
pub const UNWRITABLE: &'static str = "a name or date in it cannot be written";

/// Whether this is what signing a request comes to: a certificate for what the
/// request asks for, issued by the subject of the issuer's certificate and
/// signed by the issuer's key.
pub open spec fn is_signed(
    request: RequestModel,
    issuer: ParamsModel,
    issuer_key: Seq<u8>,
    cert: CertModel,
) -> bool {
    &&& cert.subject == request.subject
    &&& cert.alt_names == request.alt_names
    &&& cert.public_key == request.public_key
    &&& cert.issuer == issuer.subject
    &&& cert.signers.contains(deps::public_key_of(issuer_key))
}

/// Whether this is why a request that can be read was not signed: the issuer's
/// key or certificate cannot be read, or a certificate cannot be written or
/// signed. Reading a key and signing also take the system's random numbers.
pub open spec fn is_unsigned(
    request: RequestModel,
    issuer_error: Option<Seq<char>>,
    issuer: ParamsModel,
    why: failure::FailureModel,
) -> bool {
    ||| why.message == "parse issuer key PEM"@ && why.cause is Some
    ||| match issuer_error {
        Some(m) => why == failure::because("parse issuer cert PEM"@, m),
        None => if !x509::can_write(issuer) {
            why == failure::because("rebuild issuer cert"@, UNWRITABLE@)
        } else {
            ||| why.message == "rebuild issuer cert"@ && why.cause is Some
            ||| if x509::can_write_request(request) {
                why.message == "sign CSR"@ && why.cause is Some
            } else {
                why == failure::because("sign CSR"@, UNWRITABLE@)
            }
        },
    }
}

/// Signs a request with an issuer's certificate and key, all in PEM. Which
/// input is refused follows from the inputs, the first bad one first. The
/// certificate is signed anew each time; what it says is always what the request
/// asks for, under the issuer's name and key. A request asks for what is read
/// from it: of several attributes of one type in its subject, one with the last
/// value.
pub fn sign_csr(csr_pem: &str, issuer_cert_pem: &str, issuer_key_pem: &str) -> (res: Result<
    String,
    Failure,
>)
    ensures
        match deps::csr_error(csr_pem@) {
            Some(e) => res is Err && res->Err_0@ == failure::because("parse CSR PEM"@, e),
            None => {
                &&& res matches Ok(pem) ==> {
                    &&& deps::ca_error(issuer_cert_pem@) is None
                    &&& x509::can_write(deps::ca_of(issuer_cert_pem@))
                    &&& x509::can_write_request(deps::csr_of(csr_pem@))
                    &&& text::begins_with(pem@, deps::CERT_HEADER@)
                    &&& is_signed(
                        deps::csr_of(csr_pem@),
                        deps::ca_of(issuer_cert_pem@),
                        deps::pem_contents(issuer_key_pem@),
                        deps::certificate_of(pem@),
                    )
                }
                &&& res matches Err(e) ==> is_unsigned(
                    deps::csr_of(csr_pem@),
                    deps::ca_error(issuer_cert_pem@),
                    deps::ca_of(issuer_cert_pem@),
                    e@,
                )
            },
        },
{
    let csr = match deps::csr_from_pem(csr_pem) {
        Ok(csr) => csr,
        Err(e) => {
            return Err(Failure::caused("parse CSR PEM", e));
        },
    };
    let (issuer_key, _) = match deps::key_from_pem(issuer_key_pem) {
        Ok(key) => key,
        Err(e) => {
            return Err(Failure::caused("parse issuer key PEM", e));
        },
    };
    let params = match deps::ca_from_pem(issuer_cert_pem) {
        Ok(params) => params,
        Err(e) => {
            return Err(Failure::caused("parse issuer cert PEM", e));
        },
    };
    if !x509::writable(&params) {
        return Err(Failure::caused("rebuild issuer cert", UNWRITABLE.to_string()));
    }
    let issuer = match deps::self_signed(params, &issuer_key) {
        Ok(issuer) => issuer,
        Err(e) => {
            return Err(Failure::caused("rebuild issuer cert", e));
        },
    };
    if !x509::writable(deps::request_params(&csr)) {
        return Err(Failure::caused("sign CSR", UNWRITABLE.to_string()));
    }
    match deps::signed_by(csr, &issuer, &issuer_key) {
        Ok(cert) => Ok(deps::cert_pem(&cert)),
        Err(e) => Err(Failure::caused("sign CSR", e)),
    }
}

/// A certificate signed for a daemon's request is for the daemon's own key and
/// name, whoever issued it.
pub proof fn law_signed_for_the_daemon(
    key_der: Seq<u8>,
    issuer: ParamsModel,
    issuer_key: Seq<u8>,
    cert: CertModel,
)
    requires
        is_signed(daemon_request(deps::public_key_of(key_der)), issuer, issuer_key, cert),
    ensures
        cert.public_key == deps::public_key_of(key_der),
        cert.subject == seq![x509::common_name(SUBJECT@)],
        cert.issuer == issuer.subject,
{
}

/// A request for a daemon's key is one that a certificate can be written for.
pub proof fn law_daemon_request_can_be_signed(public_key: Seq<u8>)
    ensures
        x509::can_write_request(daemon_request(public_key)),
{
}

/// Whether a certificate made for tests is for its key: named [`DEV_SUBJECT`],
/// and signed by the key itself.
pub open spec fn is_dev_cert(cert: CertModel, key_der: Seq<u8>) -> bool {
    &&& cert.alt_names == seq![x509::dns_name(DEV_SUBJECT@)]
    &&& cert.subject == seq![x509::common_name(x509::DEFAULT_SUBJECT@)]
    &&& cert.issuer == cert.subject
    &&& cert.public_key == deps::public_key_of(key_der)
    &&& cert.signers.contains(cert.public_key)
}

/// A self-signed certificate and its key, both in PEM, for tests against a mock
/// cloud; nothing if a certificate and a key are there already.
pub fn ensure_dev_cert(cert_exists: bool, key_exists: bool) -> (res: Result<
    Option<(String, String)>,
    Failure,
>)
    ensures
        cert_exists && key_exists ==> res == Ok::<Option<(String, String)>, Failure>(None),
        !(cert_exists && key_exists) ==> match res {
            Ok(Some((cert, key))) => {
                &&& text::begins_with(cert@, deps::CERT_HEADER@)
                &&& is_dev_cert(deps::certificate_of(cert@), deps::pem_contents(key@))
            },
            Ok(None) => false,
            Err(e) => e@.message == "generate self-signed cert"@ && e@.cause is Some,
        },
{
    if cert_exists && key_exists {
        return Ok(None);
    }
    let names = only(DEV_SUBJECT);
    let ghost listed = names@;
    match deps::simple_self_signed(names) {
        Ok(pair) => {
            proof {
                lemma_no_address(
                    listed,
                    DEV_SUBJECT@,
                    deps::certificate_of(pair.0@).alt_names,
                );
            }
            Ok(Some(pair))
        },
        Err(e) => Err(Failure::caused("generate self-signed cert", e)),
    }
}

// ── Pins and installation ───────────────────────────────────────────

/// Whether a character is a hexadecimal digit, upper or lower case.
pub open spec fn is_hex_digit(c: char) -> bool {
    '0' <= c <= '9' || 'a' <= c <= 'f' || 'A' <= c <= 'F'
}

/// Why a pin is refused, if it is: it must be 32 bytes in hexadecimal.
pub open spec fn pin_refused(pin: Seq<char>) -> Option<Seq<char>> {
    if !(forall|i: int| 0 <= i < pin.len() ==> is_hex_digit(#[trigger] pin[i])) {
        Some("cloud pin is not hex"@)
    } else if pin.len() != 64 {
        Some(
            "cloud pin is not 32 bytes (got "@ + text::decimal(pin.len())
                + " hex chars; expected 64)"@,
        )
    } else {
        None
    }
}

/// Why a PEM text that gave these sections does not do as the daemon's
/// certificate, if it does not: its first section must be one.
pub open spec fn cert_refused(sections: Seq<Result<Seq<u8>, Seq<char>>>) -> Option<
    failure::FailureModel,
> {
    if sections.len() == 0 {
        Some(failure::plain("token cert PEM contains no certificate"@))
    } else {
        match sections[0] {
            Ok(_) => None,
            Err(e) => Some(failure::because("parse daemon cert PEM"@, e)),
        }
    }
}

/// Why a token is not installed, if it is not.
pub open spec fn install_refused(
    sections: Seq<Result<Seq<u8>, Seq<char>>>,
    token: PairingToken,
) -> Option<failure::FailureModel> {
    match (cert_refused(sections), pin_refused(token.cloud_pin_hex@)) {
        (Some(why), _) => Some(why),
        (None, Some(why)) => Some(failure::plain(why)),
        (None, None) => None,
    }
}

/// What installing a token comes to: what to store, and the endpoint that was
/// replaced, if it was another one.
#[derive(Debug)]
pub struct Installation {
    pub cert_pem: String,
    pub pin: String,
    pub config: Config,
    pub previous_endpoint: Option<String>,
}

/// Whether this is what installing the token under a configuration comes to:
/// the token's certificate and pin, and the configuration with its endpoint.
pub open spec fn is_installed(
    token: PairingToken,
    cfg: config::ConfigModel,
    done: Installation,
) -> bool {
    &&& done.cert_pem@ == token.daemon_cert_pem@
    &&& done.pin@ == token.cloud_pin_hex@
    &&& done.config@ == (config::ConfigModel { endpoint: token.endpoint@, ..cfg })
    &&& match done.previous_endpoint {
        Some(previous) => previous@ == cfg.endpoint && cfg.endpoint != token.endpoint@,
        None => cfg.endpoint == token.endpoint@,
    }
}

/// Whether a text is all hexadecimal digits.
fn all_hex(s: &str) -> (res: bool)
    ensures
        res == (forall|i: int| 0 <= i < s@.len() ==> is_hex_digit(#[trigger] s@[i])),
{
    let cs = text::chars_of(s);
    let n: usize = cs.len();
    let mut i: usize = 0;
    while i < n
        invariant
            n == cs@.len(),
            i <= n,
            cs@ == s@,
            forall|j: int| 0 <= j < i ==> is_hex_digit(#[trigger] s@[j]),
        decreases n - i,
    {
        let c = cs[i];
        if !(('0' <= c && c <= '9') || ('a' <= c && c <= 'f') || ('A' <= c && c <= 'F')) {
            assert(!is_hex_digit(s@[i as int]));
            return false;
        }
        i += 1;
    }
    true
}

/// Checks a token whose certificate PEM gave these sections, and plans its
/// installation.
pub fn plan_install(
    sections: Vec<Result<Vec<u8>, String>>,
    token: &PairingToken,
    cfg: Config,
) -> (res: Result<Installation, Failure>)
    ensures
        match (res, install_refused(deps::sections_model(sections@), *token)) {
            (Ok(done), None) => is_installed(*token, cfg@, done),
            (Err(e), Some(why)) => e@ == why,
            _ => false,
        },
{
    let ghost read = deps::sections_model(sections@);
    if sections.len() == 0 {
        return Err(Failure::new("token cert PEM contains no certificate".to_string()));
    }
    assert(read[0] == match sections@[0] {
        Ok(der) => Ok::<Seq<u8>, Seq<char>>(der@),
        Err(e) => Err::<Seq<u8>, Seq<char>>(e@),
    });
    match &sections[0] {
        Ok(_) => {},
        Err(e) => {
            return Err(Failure::caused("parse daemon cert PEM", e.clone()));
        },
    }
    let pin = token.cloud_pin_hex.as_str();
    if !all_hex(pin) {
        return Err(Failure::new("cloud pin is not hex".to_string()));
    }
    let len: usize = pin.unicode_len();
    if len != 64 {
        return Err(
            Failure::new(
                text::text3(
                    "cloud pin is not 32 bytes (got ",
                    text::decimal_text(len as u64).as_str(),
                    " hex chars; expected 64)",
                ),
            ),
        );
    }
    let same = text::same_text(cfg.endpoint.as_str(), token.endpoint.as_str());
    let config = Config {
        endpoint: token.endpoint.clone(),
        policy: cfg.policy,
        max_exec_timeout_ms: cfg.max_exec_timeout_ms,
        max_output_bytes: cfg.max_output_bytes,
        max_read_bytes: cfg.max_read_bytes,
    };
    let previous_endpoint = if same {
        None
    } else {
        Some(cfg.endpoint)
    };
    Ok(
        Installation {
            cert_pem: token.daemon_cert_pem.clone(),
            pin: token.cloud_pin_hex.clone(),
            config,
            previous_endpoint,
        },
    )
}

/// Checks a token and plans its installation.
pub fn install_token(token: &PairingToken, cfg: Config) -> (res: Result<Installation, Failure>)
    ensures
        match (
            res,
            install_refused(
                deps::pem_certs_of(vstd::utf8::encode_utf8(token.daemon_cert_pem@)),
                *token,
            ),
        ) {
            (Ok(done), None) => is_installed(*token, cfg@, done),
            (Err(e), Some(why)) => e@ == why,
            _ => false,
        },
{
    let sections = deps::pem_certs(token.daemon_cert_pem.as_str().as_bytes());
    plan_install(sections, token, cfg)
}

/// The pin of a certificate: the hash of its DER in lower-case hexadecimal. It
/// is a pin that installation accepts, and that the certificate then meets.
pub fn pin_hex(cert_der: &[u8]) -> (res: String)
    ensures
        res@ == hex::hex_of(deps::blake3_of(cert_der@)),
        res@.len() == 64,
        forall|i: int|
            0 <= i < res@.len() ==> '0' <= #[trigger] res@[i] <= '9' || 'a' <= res@[i] <= 'f',
        pin_refused(res@) is None,
        tunnel::pinned_hash(vstd::utf8::encode_utf8(res@)) == deps::blake3_of(cert_der@),
{
    let digest = deps::blake3_hash(cert_der);
    let pin = hex::hex_encode(digest.as_slice());
    proof {
        hex::lemma_hex_chars(digest@);
        hex::law_hex_round_trip(digest@);
    }
    pin
}

/// What a token says is what the daemon then goes by: it dials the token's
/// endpoint, and accepts the certificate whose hash the token's pin writes.
pub proof fn law_installed_token_is_used(
    token: PairingToken,
    cfg: config::ConfigModel,
    done: Installation,
    backoff_secs: u64,
    hash: Seq<u8>,
)
    requires
        is_installed(token, cfg, done),
        token.cloud_pin_hex@ == hex::hex_of(hash),
    ensures
        tunnel::step(
            done.config@.endpoint,
            backoff_secs,
            tunnel::TunnelEventModel::Ready,
        ).action == tunnel::dial(token.endpoint@),
        tunnel::pinned_hash(vstd::utf8::encode_utf8(done.pin@)) == hash,
        done.config@.policy == cfg.policy,
{
    hex::law_hex_round_trip(hash);
}

/// A token that is understood and complete is accepted: of the one version that
/// there is, with a certificate, a pin and an endpoint. A label is not asked for.
pub proof fn law_complete_tokens_are_accepted(t: PairingToken)
    ensures
        token_refused(t) is None <==> {
            &&& t.v == 1
            &&& t.daemon_cert_pem@.len() > 0
            &&& t.cloud_pin_hex@.len() > 0
            &&& t.endpoint@.len() > 0
        },
        t.v != 1 ==> token_refused(t) == Some(
            "unsupported token version "@ + text::decimal(t.v as nat),
        ),
        t.v == 1 && t.daemon_cert_pem@.len() == 0 ==> token_refused(t) == Some(
            "token missing daemon cert"@,
        ),
        t.v == 1 && t.daemon_cert_pem@.len() > 0 && t.cloud_pin_hex@.len() == 0 ==> token_refused(t)
            == Some("token missing cloud pin"@),
        t.v == 1 && t.daemon_cert_pem@.len() > 0 && t.cloud_pin_hex@.len() > 0 && t.endpoint@.len()
            == 0 ==> token_refused(t) == Some("token missing endpoint"@),
{
}

/// A pin is accepted exactly if it is sixty-four hexadecimal digits, in upper or
/// lower case; so is every hash of thirty-two bytes that was written so.
pub proof fn law_pins_are_hashes(pin: Seq<char>, hash: Seq<u8>)
    ensures
        pin_refused(pin) is None <==> pin.len() == 64 && (forall|i: int|
            0 <= i < 64 ==> ('0' <= #[trigger] pin[i] <= '9' || 'a' <= pin[i] <= 'f' || 'A'
                <= pin[i] <= 'F')),
        hash.len() == 32 ==> pin_refused(hex::hex_of(hash)) is None,
{
    hex::lemma_hex_chars(hash);
    if pin_refused(pin) is None {
        assert forall|i: int| 0 <= i < 64 implies ('0' <= #[trigger] pin[i] <= '9' || 'a' <= pin[i]
            <= 'f' || 'A' <= pin[i] <= 'F') by {
            assert(is_hex_digit(pin[i]));
        }
    }
    let written = hex::hex_of(hash);
    assert forall|i: int| 0 <= i < written.len() implies is_hex_digit(#[trigger] written[i]) by {
        assert('0' <= written[i] <= '9' || 'a' <= written[i] <= 'f');
    }
}

/// A token is installed if its first section is a certificate and its pin is one,
/// whatever else it says; if not, the certificate's fault is told before the pin's.
pub proof fn law_good_tokens_are_installed(
    sections: Seq<Result<Seq<u8>, Seq<char>>>,
    token: PairingToken,
)
    ensures
        install_refused(sections, token) is None <==> {
            &&& sections.len() > 0
            &&& sections[0] is Ok
            &&& pin_refused(token.cloud_pin_hex@) is None
        },
        sections.len() == 0 ==> install_refused(sections, token) == Some(
            failure::FailureModel {
                message: "token cert PEM contains no certificate"@,
                cause: None,
            },
        ),
        sections.len() > 0 ==> (sections[0] matches Err(e) ==> install_refused(sections, token)
            == Some(
            failure::FailureModel { message: "parse daemon cert PEM"@, cause: Some(e) },
        )),
        sections.len() > 0 && sections[0] is Ok ==> (pin_refused(
            token.cloud_pin_hex@,
        ) matches Some(why) ==> install_refused(sections, token) == Some(
            failure::FailureModel { message: why, cause: None },
        )),
{
}

/// Installing a token changes the endpoint and nothing else of the configuration:
/// the policy and the limits stay. The certificate and the pin are stored as the
/// token has them, and the endpoint before is told if it was another.
pub proof fn law_installation_changes_the_endpoint_only(
    token: PairingToken,
    cfg: config::ConfigModel,
    done: Installation,
)
    requires
        is_installed(token, cfg, done),
    ensures
        done.cert_pem@ == token.daemon_cert_pem@,
        done.pin@ == token.cloud_pin_hex@,
        done.config@.endpoint == token.endpoint@,
        done.config@.policy == cfg.policy,
        done.config@.max_exec_timeout_ms == cfg.max_exec_timeout_ms,
        done.config@.max_output_bytes == cfg.max_output_bytes,
        done.config@.max_read_bytes == cfg.max_read_bytes,
        done.previous_endpoint is Some <==> cfg.endpoint != token.endpoint@,
        done.previous_endpoint matches Some(previous) ==> previous@ == cfg.endpoint,
{
}

/// A certificate is signed for what was asked, by whom it says: its subject, its
/// names and its key are those of the request, its issuer is the issuer's subject,
/// and its signature is good under the issuer's key.
pub proof fn law_certificate_says_what_was_asked(
    request: RequestModel,
    issuer: ParamsModel,
    issuer_key: Seq<u8>,
    cert: CertModel,
)
    requires
        is_signed(request, issuer, issuer_key, cert),
    ensures
        cert.subject == request.subject,
        cert.alt_names == request.alt_names,
        cert.public_key == request.public_key,
        cert.issuer == issuer.subject,
        cert.signers.contains(deps::public_key_of(issuer_key)),
{
}

/// A daemon asks for a certificate in its own name, as the subject's common name
/// and as a DNS name, and for the key that it was given.
pub proof fn law_daemon_asks_in_its_own_name(public_key: Seq<u8>)
    ensures
        ({
            let request = daemon_request(public_key);
            &&& request.public_key == public_key
            &&& request.subject.len() == 1
            &&& request.subject[0].oid == seq![2u64, 5u64, 4u64, 3u64]
            &&& request.subject[0].value == vstd::utf8::encode_utf8("membrane-daemon"@)
            &&& request.alt_names.len() == 1
            &&& request.alt_names[0].tag == 2
            &&& request.alt_names[0].oid is None
            &&& request.alt_names[0].value == vstd::utf8::encode_utf8("membrane-daemon"@)
        }),
{
}

/// A certificate made for tests is for its key and signed by it, in the name that
/// is for tests.
pub proof fn law_dev_certificate_is_its_own_issuer(cert: CertModel, key_der: Seq<u8>)
    requires
        is_dev_cert(cert, key_der),
    ensures
        cert.public_key == deps::public_key_of(key_der),
        cert.signers.contains(deps::public_key_of(key_der)),
        cert.issuer == cert.subject,
        cert.alt_names.len() == 1,
        cert.alt_names[0].value == vstd::utf8::encode_utf8("membrane-daemon-dev"@),
{
}

/// The key that the daemon uses is the one whose text is stored, and a new one is
/// never used without a text to store.
pub proof fn law_keys_match_their_text(pem: Seq<char>, key: DaemonKey)
    ensures
        is_stored_key(pem, key) ==> deps::key_der(key.pair) == Some(deps::pem_contents(pem))
            && key.new_pem is None,
        is_new_key(key) ==> key.new_pem is Some && deps::key_der(key.pair) == Some(
            deps::pem_contents(key.new_pem->Some_0@),
        ),
{
}

/// A request that was not signed is told why: the issuer's key could not be read;
/// or else the issuer's certificate could not, with the reader's own words; or it
/// or what is asked for cannot be written; or signing failed.
pub proof fn law_unsigned_request_says_why(
    request: RequestModel,
    issuer_error: Option<Seq<char>>,
    issuer: ParamsModel,
    why: failure::FailureModel,
)
    requires
        is_unsigned(request, issuer_error, issuer, why),
        why.message != "parse issuer key PEM"@,
    ensures
        why.cause is Some,
        issuer_error matches Some(m) ==> why == (failure::FailureModel {
            message: "parse issuer cert PEM"@,
            cause: Some(m),
        }),
        issuer_error is None && !x509::can_write(issuer) ==> why.message
            == "rebuild issuer cert"@,
        issuer_error is None && x509::can_write(issuer) ==> why.message == "rebuild issuer cert"@
            || why.message == "sign CSR"@,
{
}

/// A token's text is read as base64, white space around it aside.
pub proof fn law_token_text_is_base64(lead: Seq<char>, token: Seq<char>, tail: Seq<char>)
    requires
        text::is_blank(lead),
        text::is_blank(tail),
        token.len() > 0 ==> !text::is_white_space(token[0]) && !text::is_white_space(token.last()),
    ensures
        token_json(lead + token + tail) == deps::base64_bytes(token),
{
    text::lemma_trim_padded(lead, token, tail);
}

} // verus!
