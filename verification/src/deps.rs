//! The calls into other crates, and into the parts of the standard library
//! that have no specification of their own.
//!
//! What these items state is believed, not proved; each says what it claims.
use vstd::prelude::*;

use crate::x509;
use crate::x509::{AttributeModel, CertModel, ConstraintModel, ParamsModel, RequestModel};

verus! {

/// `std::str::from_utf8`: gives the bytes back as text exactly when they are
/// valid UTF-8.
#[verifier::external_body]
pub(crate) fn utf8_text(bytes: &[u8]) -> (res: Option<&str>)
    ensures
        res is Some <==> vstd::utf8::valid_utf8(bytes@),
        res matches Some(s) ==> vstd::utf8::encode_utf8(s@) == bytes@,
{
    std::str::from_utf8(bytes).ok()
}

/// The text of some bytes, with replacement characters where they are no UTF-8.
pub uninterp spec fn lossy_of(bytes: Seq<u8>) -> Seq<char>;

/// `String::from_utf8_lossy`: the text is a function of the bytes, and is theirs
/// where they are valid UTF-8.
#[verifier::external_body]
pub(crate) fn lossy_text(bytes: &[u8]) -> (res: String)
    ensures
        res@ == lossy_of(bytes@),
        vstd::utf8::valid_utf8(bytes@) ==> vstd::utf8::encode_utf8(res@) == bytes@,
{
    String::from_utf8_lossy(bytes).into_owned()
}

/// A text in lower case, by the rules of Unicode.
pub uninterp spec fn lower_of(text: Seq<char>) -> Seq<char>;

/// `str::to_lowercase`: the lower-case text is a function of the text.
#[verifier::external_body]
pub(crate) fn lower_text(text: &str) -> (res: String)
    ensures
        res@ == lower_of(text@),
{
    text.to_lowercase()
}

/// The 32-byte BLAKE3 hash of some bytes.
pub uninterp spec fn blake3_of(data: Seq<u8>) -> Seq<u8>;

/// `blake3::hash`: the hash is a function of the bytes and has 32 bytes.
#[verifier::external_body]
pub(crate) fn blake3_hash(data: &[u8]) -> (res: Vec<u8>)
    ensures
        res@ == blake3_of(data@),
        res@.len() == 32,
{
    blake3::hash(data).as_bytes().to_vec()
}

/// The strftime format of a day.
pub const DAY_FORMAT: &'static str = "%Y-%m-%d";

/// The strftime format of a second.
pub const SECOND_FORMAT: &'static str = "%Y-%m-%d %H:%M:%S";

/// A moment, given in seconds and nanoseconds since the epoch, in UTC under a
/// strftime format; none if chrono has no such moment.
pub uninterp spec fn utc_format(secs: i64, nanos: u32, format: Seq<char>) -> Option<Seq<char>>;

/// `chrono::DateTime::from_timestamp` and `DateTime::format`: the text is a
/// function of the moment and the format.
#[verifier::external_body]
pub(crate) fn format_utc(secs: i64, nanos: u32, format: &str) -> (res: Option<String>)
    requires
        format@ == DAY_FORMAT@ || format@ == SECOND_FORMAT@,
    ensures
        match (res, utc_format(secs, nanos, format@)) {
            (Some(t), Some(m)) => t@ == m,
            (None, None) => true,
            _ => false,
        },
{
    chrono::DateTime::from_timestamp(secs, nanos).map(|t| t.format(format).to_string())
}

/// The moment that an RFC 3339 text writes, in seconds and nanoseconds since
/// the epoch, or why it writes none.
pub uninterp spec fn rfc3339_of(text: Seq<char>) -> Result<(i64, u32), Seq<char>>;

/// `chrono::DateTime::parse_from_rfc3339`: the moment, or the error's message,
/// is a function of the text.
#[verifier::external_body]
pub(crate) fn parse_rfc3339(text: &str) -> (res: Result<(i64, u32), String>)
    ensures
        match (res, rfc3339_of(text@)) {
            (Ok(t), Ok(m)) => t == m,
            (Err(e), Err(m)) => e@ == m,
            _ => false,
        },
{
    chrono::DateTime::parse_from_rfc3339(text)
        .map(|t| (t.timestamp(), t.timestamp_subsec_nanos()))
        .map_err(|e| e.to_string())
}

// ── PEM ─────────────────────────────────────────────────────────────

/// What reading a PEM text for certificates gives, section by section: the DER
/// of a certificate, or why a section cannot be read.
pub uninterp spec fn pem_certs_of(pem: Seq<u8>) -> Seq<Result<Seq<u8>, Seq<char>>>;

/// What was read from a PEM text.
pub open spec fn sections_model(sections: Seq<Result<Vec<u8>, String>>) -> Seq<
    Result<Seq<u8>, Seq<char>>,
> {
    sections.map_values(
        |s: Result<Vec<u8>, String>|
            match s {
                Ok(der) => Ok(der@),
                Err(e) => Err(e@),
            },
    )
}

/// `rustls_pemfile::certs`: its items are a function of the PEM text.
#[verifier::external_body]
pub(crate) fn pem_certs(pem: &[u8]) -> (res: Vec<Result<Vec<u8>, String>>)
    ensures
        sections_model(res@) == pem_certs_of(pem@),
{
    let mut reader = pem;
    rustls_pemfile::certs(&mut reader)
        .map(|c| c.map(|der| der.to_vec()).map_err(|e| e.to_string()))
        .collect()
}

/// The formats of a private key.
#[derive(Debug, Clone, Copy, PartialEq, Eq, Structural)]
pub enum KeyFormat {
    Pkcs1,
    Sec1,
    Pkcs8,
    /// A format that is not told apart.
    Other,
}

/// The first private key in a PEM text, in its format, as DER; nothing where
/// there is none; or why the text cannot be read.
pub uninterp spec fn pem_key_of(pem: Seq<u8>) -> Result<Option<(KeyFormat, Seq<u8>)>, Seq<char>>;

/// `rustls_pemfile::private_key`: the key found is a function of the PEM text.
#[verifier::external_body]
pub(crate) fn pem_key(pem: &[u8]) -> (res: Result<Option<(KeyFormat, Vec<u8>)>, String>)
    ensures
        match (res, pem_key_of(pem@)) {
            (Ok(Some((format, der))), Ok(Some((f, d)))) => format == f && der@ == d,
            (Ok(None), Ok(None)) => true,
            (Err(e), Err(m)) => e@ == m,
            _ => false,
        },
{
    let mut reader = pem;
    let key = rustls_pemfile::private_key(&mut reader).map_err(|e| e.to_string())?;
    Ok(key.map(|k| match &k {
        rustls::pki_types::PrivateKeyDer::Pkcs1(_) => (KeyFormat::Pkcs1, k.secret_der().to_vec()),
        rustls::pki_types::PrivateKeyDer::Sec1(_) => (KeyFormat::Sec1, k.secret_der().to_vec()),
        rustls::pki_types::PrivateKeyDer::Pkcs8(_) => (KeyFormat::Pkcs8, k.secret_der().to_vec()),
        _ => (KeyFormat::Other, k.secret_der().to_vec()),
    }))
}

// ── Base64 ──────────────────────────────────────────────────────────

/// The URL-safe base64 text of some bytes, without padding.
pub uninterp spec fn base64_of(bytes: Seq<u8>) -> Seq<char>;

/// The bytes that an unpadded URL-safe base64 text writes, or why it writes
/// none.
pub uninterp spec fn base64_bytes(text: Seq<char>) -> Result<Seq<u8>, Seq<char>>;

/// Whether a character belongs to URL-safe base64.
pub open spec fn is_url_safe(c: char) -> bool {
    'A' <= c <= 'Z' || 'a' <= c <= 'z' || '0' <= c <= '9' || c == '-' || c == '_'
}

/// `base64::Engine::encode` of `URL_SAFE_NO_PAD`: the text is a function of the
/// bytes, is of the URL-safe alphabet, and decodes to the bytes again.
#[verifier::external_body]
pub(crate) fn base64_encode(bytes: &[u8]) -> (res: String)
    ensures
        res@ == base64_of(bytes@),
        base64_bytes(res@) is Ok && base64_bytes(res@)->Ok_0 == bytes@,
        forall|i: int| 0 <= i < res@.len() ==> is_url_safe(#[trigger] res@[i]),
{
    base64::Engine::encode(&base64::engine::general_purpose::URL_SAFE_NO_PAD, bytes)
}

/// `base64::Engine::decode` of `URL_SAFE_NO_PAD`: the bytes, or the error's
/// message, are a function of the text.
#[verifier::external_body]
pub(crate) fn base64_decode(text: &str) -> (res: Result<Vec<u8>, String>)
    ensures
        match (res, base64_bytes(text@)) {
            (Ok(bytes), Ok(m)) => bytes@ == m,
            (Err(e), Err(m)) => e@ == m,
            _ => false,
        },
{
    base64::Engine::decode(&base64::engine::general_purpose::URL_SAFE_NO_PAD, text)
        .map_err(|e| e.to_string())
}

// ── Keys ────────────────────────────────────────────────────────────

/// A key pair of rcgen.
#[verifier::external_type_specification]
#[verifier::external_body]
pub struct ExKeyPair(rcgen::KeyPair);

/// The bytes in the first section of a PEM text.
pub uninterp spec fn pem_contents(pem: Seq<char>) -> Seq<u8>;

/// The DER of a key pair's private key; nothing for a remote key pair, which
/// holds none.
pub uninterp spec fn key_der(pair: rcgen::KeyPair) -> Option<Seq<u8>>;

/// The bytes of the public key that belongs to a private key, given as DER.
pub uninterp spec fn public_key_of(der: Seq<u8>) -> Seq<u8>;

/// `rcgen::KeyPair::from_pem` and `KeyPair::serialize_der`: a key pair that is
/// read from a PEM text is the one with the bytes in that text as its DER.
/// Whether it can be read is left open, as that also takes the system's random
/// numbers.
#[verifier::external_body]
pub(crate) fn key_from_pem(pem: &str) -> (res: Result<(rcgen::KeyPair, Vec<u8>), String>)
    ensures
        res matches Ok((pair, der)) ==> der@ == pem_contents(pem@) && key_der(pair) == Some(der@),
{
    rcgen::KeyPair::from_pem(pem)
        .map(|k| {
            let der = k.serialize_der();
            (k, der)
        })
        .map_err(|e| e.to_string())
}

/// `rcgen::KeyPair::generate`, `KeyPair::serialize_der` and
/// `KeyPair::serialize_pem`: a new key pair, with its DER and its PEM text, which
/// holds the DER. The key itself is random, and so is whether one can be made.
#[verifier::external_body]
pub(crate) fn key_generate() -> (res: Result<(rcgen::KeyPair, Vec<u8>, String), String>)
    ensures
        res matches Ok((pair, der, pem)) ==> pem_contents(pem@) == der@ && key_der(pair) == Some(der@),
{
    rcgen::KeyPair::generate()
        .map(|k| {
            let (der, pem) = (k.serialize_der(), k.serialize_pem());
            (k, der, pem)
        })
        .map_err(|e| e.to_string())
}

// ── Names and parameters of certificates ────────────────────────────

/// A name of rcgen, made of attributes.
#[verifier::external_type_specification]
#[verifier::external_body]
pub struct ExDistinguishedName(rcgen::DistinguishedName);

/// The parameters of a certificate of rcgen.
#[verifier::external_type_specification]
#[verifier::external_body]
pub struct ExCertificateParams(rcgen::CertificateParams);

/// The attributes of a name, in their order.
pub uninterp spec fn name_of(name: rcgen::DistinguishedName) -> Seq<AttributeModel>;

/// What the parameters of a certificate hold.
pub uninterp spec fn params_of(params: rcgen::CertificateParams) -> ParamsModel;

/// Whether this was read of an attribute: its type's object identifier, unless
/// that is one of rcgen's own, which can be written; and its text if that is a
/// PrintableString.
pub open spec fn is_attribute(
    read: (Option<Vec<u64>>, Option<String>),
    attribute: AttributeModel,
) -> bool {
    &&& match read.0 {
        Some(oid) => oid@ == attribute.oid,
        None => x509::can_write_oid(attribute.oid),
    }
    &&& match read.1 {
        Some(text) => attribute.tag == x509::PRINTABLE_STRING && vstd::utf8::encode_utf8(text@)
            == attribute.value,
        None => attribute.tag != x509::PRINTABLE_STRING,
    }
}

/// `rcgen::DistinguishedName::iter`: hands the attributes out in their order,
/// each with its object identifier if its type is a custom one, and with its
/// text if that is a PrintableString.
#[verifier::external_body]
pub(crate) fn attributes(name: &rcgen::DistinguishedName) -> (res: Vec<
    (Option<Vec<u64>>, Option<String>),
>)
    ensures
        res@.len() == name_of(*name).len(),
        forall|i: int| 0 <= i < res@.len() ==> #[trigger] is_attribute(res@[i], name_of(*name)[i]),
{
    name.iter()
        .map(|(kind, value)| {
            let oid = match kind {
                rcgen::DnType::CustomDnType(oid) => Some(oid.clone()),
                _ => None,
            };
            let text = match value {
                rcgen::DnValue::PrintableString(text) => Some(text.as_str().to_string()),
                _ => None,
            };
            (oid, text)
        })
        .collect()
}

/// The field `distinguished_name` of `rcgen::CertificateParams`: the subject.
#[verifier::external_body]
pub(crate) fn subject(params: &rcgen::CertificateParams) -> (res: &rcgen::DistinguishedName)
    ensures
        name_of(*res) == params_of(*params).subject,
{
    &params.distinguished_name
}

/// Whether this was read of an alternative name: its object identifier, if it
/// has one.
pub open spec fn is_alt_name(read: Option<Vec<u64>>, name: x509::AltNameModel) -> bool {
    match (read, name.oid) {
        (Some(oid), Some(m)) => oid@ == m,
        (None, None) => true,
        _ => false,
    }
}

/// The field `subject_alt_names` of `rcgen::CertificateParams`: hands out the
/// object identifiers of the alternative names, in their order.
#[verifier::external_body]
pub(crate) fn alt_name_oids(params: &rcgen::CertificateParams) -> (res: Vec<Option<Vec<u64>>>)
    ensures
        res@.len() == params_of(*params).alt_names.len(),
        forall|i: int|
            0 <= i < res@.len() ==> #[trigger] is_alt_name(
                res@[i],
                params_of(*params).alt_names[i],
            ),
{
    params.subject_alt_names
        .iter()
        .map(|name| match name {
            rcgen::SanType::OtherName((oid, _)) => Some(oid.clone()),
            _ => None,
        })
        .collect()
}

/// A constraint on names.
pub enum Constraint<'a> {
    Text(String),
    Name(&'a rcgen::DistinguishedName),
    Address,
}

/// What a [`Constraint`] says.
pub open spec fn constraint_model(constraint: Constraint) -> ConstraintModel {
    match constraint {
        Constraint::Text(text) => ConstraintModel::Text(text@),
        Constraint::Name(name) => ConstraintModel::Name(name_of(*name)),
        Constraint::Address => ConstraintModel::Address,
    }
}

/// The field `name_constraints` of `rcgen::CertificateParams`: hands the
/// constraints out, those of permitted names before those of excluded ones.
#[verifier::external_body]
pub(crate) fn constraints(params: &rcgen::CertificateParams) -> (res: Vec<Constraint<'_>>)
    ensures
        res@.len() == params_of(*params).constraints.len(),
        forall|i: int|
            0 <= i < res@.len() ==> #[trigger] constraint_model(res@[i])
                == params_of(*params).constraints[i],
{
    params.name_constraints
        .iter()
        .flat_map(|c| c.permitted_subtrees.iter().chain(c.excluded_subtrees.iter()))
        .map(|tree| match tree {
            rcgen::GeneralSubtree::Rfc822Name(text) => Constraint::Text(text.clone()),
            rcgen::GeneralSubtree::DnsName(text) => Constraint::Text(text.clone()),
            rcgen::GeneralSubtree::DirectoryName(name) => Constraint::Name(name),
            _ => Constraint::Address,
        })
        .collect()
}

/// The fields `not_before` and `not_after` of `rcgen::CertificateParams`, by
/// `OffsetDateTime::year` and `OffsetDateTime::unix_timestamp` of the time crate.
#[verifier::external_body]
pub(crate) fn validity(params: &rcgen::CertificateParams) -> (res: ((i32, i64), (i32, i64)))
    ensures
        res.0 == (params_of(*params).not_before.year, params_of(*params).not_before.timestamp),
        res.1 == (params_of(*params).not_after.year, params_of(*params).not_after.timestamp),
{
    let (from, to) = (params.not_before, params.not_after);
    ((from.year(), from.unix_timestamp()), (to.year(), to.unix_timestamp()))
}

/// Whether some names are of ASCII characters only.
pub open spec fn all_ascii(names: Seq<String>) -> bool {
    forall|i: int| 0 <= i < names.len() ==> vstd::utf8::is_ascii_chars((#[trigger] names[i])@)
}

/// Whether alternative names are the given ones: each a DNS name, unless it may
/// be a network address.
pub open spec fn is_named(alt_names: Seq<x509::AltNameModel>, names: Seq<String>) -> bool {
    &&& alt_names.len() == names.len()
    &&& forall|i: int| 0 <= i < names.len() ==> (#[trigger] alt_names[i]).oid is None
    &&& forall|i: int|
        0 <= i < names.len() && x509::is_no_address(names[i]@) ==> #[trigger] alt_names[i]
            == x509::dns_name(names[i]@)
}

/// `rcgen::CertificateParams::new`: parameters for the given alternative names,
/// which must be of ASCII characters; with rcgen's own common name, with a
/// validity that can be written, and with nothing else.
#[verifier::external_body]
pub(crate) fn cert_params(names: Vec<String>) -> (res: Result<rcgen::CertificateParams, String>)
    ensures
        res is Ok <==> all_ascii(names@),
        res matches Ok(params) ==> params_of(params).subject == seq![
            x509::common_name(x509::DEFAULT_SUBJECT@),
        ] && params_of(params).standard,
        res matches Ok(params) ==> is_named(params_of(params).alt_names, names@),
        res matches Ok(params) ==> params_of(params).constraints.len() == 0
            && params_of(params).extras == 0,
        res matches Ok(params) ==> x509::can_write_moment(params_of(params).not_before)
            && x509::can_write_moment(params_of(params).not_after),
{
    rcgen::CertificateParams::new(names).map_err(|e| e.to_string())
}

/// `rcgen::DistinguishedName::push`: sets the common name of the subject, and
/// nothing else, where the subject's types are those that rcgen names.
#[verifier::external_body]
pub(crate) fn push_common_name(params: &mut rcgen::CertificateParams, name: &str)
    requires
        params_of(*old(params)).standard,
    ensures
        params_of(*final(params)) == (ParamsModel {
            subject: x509::with_attribute(
                params_of(*old(params)).subject,
                x509::common_name(name@),
            ),
            ..params_of(*old(params))
        }),
{
    params.distinguished_name.push(rcgen::DnType::CommonName, name);
}

// ── Signing requests ────────────────────────────────────────────────

/// A certificate signing request that rcgen made.
#[verifier::external_type_specification]
#[verifier::external_body]
pub struct ExCertificateSigningRequest(rcgen::CertificateSigningRequest);

/// A certificate signing request that rcgen read.
#[verifier::external_type_specification]
#[verifier::external_body]
pub struct ExCertificateSigningRequestParams(rcgen::CertificateSigningRequestParams);

/// What a signing request that was made asks for.
pub uninterp spec fn made_of(csr: rcgen::CertificateSigningRequest) -> RequestModel;

/// What the signing request in a PEM text asks for, as rcgen reads it: a subject
/// with one attribute of each type, with the value that comes last in the text.
pub uninterp spec fn csr_of(pem: Seq<char>) -> RequestModel;

/// `rcgen::CertificateParams::serialize_request`: a request for the subject and
/// the alternative names of the parameters and for the public key of the key
/// pair, signed anew each time. Nothing is said for a remote key pair, whose
/// public key is what its implementation says, nor of when there is a request:
/// that also takes the system's random numbers. A subject with attributes of a
/// type of one's own may hold two that are read back as one, and an alternative
/// name of such a type may not be read back, so parameters with either are left
/// out.
#[verifier::external_body]
pub(crate) fn serialize_request(
    params: &rcgen::CertificateParams,
    key: &rcgen::KeyPair,
) -> (res: Result<rcgen::CertificateSigningRequest, String>)
    requires
        x509::can_write(params_of(*params)),
        params_of(*params).standard,
        forall|i: int|
            0 <= i < params_of(*params).alt_names.len() ==> (
            #[trigger] params_of(*params).alt_names[i]).oid is None,
    ensures
        res matches Ok(csr) ==> made_of(csr).subject == params_of(*params).subject
            && made_of(csr).alt_names == params_of(*params).alt_names,
        res matches Ok(csr) ==> (key_der(*key) matches Some(der) ==> made_of(csr).public_key
            == public_key_of(der)),
{
    params.serialize_request(key).map_err(|e| e.to_string())
}

/// The first line of a signing request in PEM.
pub const CSR_HEADER: &'static str = "-----BEGIN CERTIFICATE REQUEST-----";

/// The first line of a certificate in PEM.
pub const CERT_HEADER: &'static str = "-----BEGIN CERTIFICATE-----";

/// `rcgen::CertificateSigningRequest::pem`: there is always a PEM text, it begins
/// as that of a signing request, and it holds the request.
#[verifier::external_body]
pub(crate) fn csr_pem(csr: &rcgen::CertificateSigningRequest) -> (res: Result<String, String>)
    ensures
        res is Ok && crate::text::begins_with(res->Ok_0@, CSR_HEADER@),
        res is Ok && csr_of(res->Ok_0@) == made_of(*csr),
{
    csr.pem().map_err(|e| e.to_string())
}

/// Why a PEM text holds no signing request that can be read, if it holds none.
pub uninterp spec fn csr_error(pem: Seq<char>) -> Option<Seq<char>>;

/// What a signing request that was read holds: parameters for the certificate.
pub uninterp spec fn request_params_of(csr: rcgen::CertificateSigningRequestParams) -> ParamsModel;

/// What a signing request that was read holds: the bytes of the public key.
pub uninterp spec fn request_key_of(csr: rcgen::CertificateSigningRequestParams) -> Seq<u8>;

/// `rcgen::CertificateSigningRequestParams::from_pem`: whether a request can be
/// read, and the error's message if not, is a function of the PEM text. What is
/// read is what the request asks for, with a validity that can be written, and
/// with nothing else.
#[verifier::external_body]
pub(crate) fn csr_from_pem(pem: &str) -> (res: Result<
    rcgen::CertificateSigningRequestParams,
    String,
>)
    ensures
        match (res, csr_error(pem@)) {
            (Ok(_), None) => true,
            (Err(e), Some(m)) => e@ == m,
            _ => false,
        },
        res matches Ok(csr) ==> request_params_of(csr).subject == csr_of(pem@).subject
            && request_params_of(csr).alt_names == csr_of(pem@).alt_names
            && request_key_of(csr) == csr_of(pem@).public_key,
        res matches Ok(csr) ==> request_params_of(csr).constraints.len() == 0
            && request_params_of(csr).extras == 0,
        res matches Ok(csr) ==> x509::can_write_moment(request_params_of(csr).not_before)
            && x509::can_write_moment(request_params_of(csr).not_after),
{
    rcgen::CertificateSigningRequestParams::from_pem(pem).map_err(|e| e.to_string())
}

/// The field `params` of `rcgen::CertificateSigningRequestParams`.
#[verifier::external_body]
pub(crate) fn request_params(
    csr: &rcgen::CertificateSigningRequestParams,
) -> (res: &rcgen::CertificateParams)
    ensures
        params_of(*res) == request_params_of(*csr),
{
    &csr.params
}

// ── Certificates ────────────────────────────────────────────────────

/// A certificate of rcgen.
#[verifier::external_type_specification]
#[verifier::external_body]
pub struct ExCertificate(rcgen::Certificate);

/// What a certificate that was made says.
pub uninterp spec fn cert_of(cert: rcgen::Certificate) -> CertModel;

/// What the certificate in a PEM text says.
pub uninterp spec fn certificate_of(pem: Seq<char>) -> CertModel;

/// Why a PEM text holds no certificate that can be read, if it holds none.
pub uninterp spec fn ca_error(pem: Seq<char>) -> Option<Seq<char>>;

/// The parameters that are read from the certificate in a PEM text.
pub uninterp spec fn ca_of(pem: Seq<char>) -> ParamsModel;

/// `rcgen::CertificateParams::from_ca_cert_pem`: whether a certificate can be
/// read, and the error's message if not, is a function of the PEM text, and so
/// are the parameters read. They hold no extras: extensions that rcgen does not
/// know are passed over.
#[verifier::external_body]
pub(crate) fn ca_from_pem(pem: &str) -> (res: Result<rcgen::CertificateParams, String>)
    ensures
        match (res, ca_error(pem@)) {
            (Ok(_), None) => true,
            (Err(e), Some(m)) => e@ == m,
            _ => false,
        },
        res matches Ok(params) ==> params_of(params) == ca_of(pem@) && params_of(params).extras == 0,
{
    rcgen::CertificateParams::from_ca_cert_pem(pem).map_err(|e| e.to_string())
}

/// `rcgen::CertificateParams::self_signed`: a certificate for the subject and
/// the alternative names of the parameters, issued by that subject; for the
/// public key of the key pair, and signed by it, anew each time. Nothing is said
/// of the keys for a remote key pair, nor of when there is a certificate: that
/// also takes the system's random numbers.
#[verifier::external_body]
pub(crate) fn self_signed(
    params: rcgen::CertificateParams,
    key: &rcgen::KeyPair,
) -> (res: Result<rcgen::Certificate, String>)
    requires
        x509::can_write(params_of(params)),
    ensures
        res matches Ok(cert) ==> cert_of(cert).subject == params_of(params).subject
            && cert_of(cert).alt_names == params_of(params).alt_names
            && cert_of(cert).issuer == params_of(params).subject,
        res matches Ok(cert) ==> (key_der(*key) matches Some(der) ==> cert_of(cert).public_key
            == public_key_of(der) && cert_of(cert).signers.contains(public_key_of(der))),
{
    params.self_signed(key).map_err(|e| e.to_string())
}

/// `rcgen::CertificateSigningRequestParams::signed_by`: a certificate for the
/// subject, the alternative names and the public key of the request, issued by
/// the issuer's subject and signed by the key pair, anew each time. Nothing is
/// said of the signature of a remote key pair, nor of when there is a
/// certificate: that also takes the system's random numbers.
#[verifier::external_body]
pub(crate) fn signed_by(
    csr: rcgen::CertificateSigningRequestParams,
    issuer: &rcgen::Certificate,
    key: &rcgen::KeyPair,
) -> (res: Result<rcgen::Certificate, String>)
    requires
        x509::can_write(request_params_of(csr)),
        x509::can_write_name(cert_of(*issuer).subject),
    ensures
        res matches Ok(cert) ==> cert_of(cert).subject == request_params_of(csr).subject
            && cert_of(cert).alt_names == request_params_of(csr).alt_names
            && cert_of(cert).public_key == request_key_of(csr)
            && cert_of(cert).issuer == cert_of(*issuer).subject,
        res matches Ok(cert) ==> (key_der(*key) matches Some(der) ==> cert_of(
            cert,
        ).signers.contains(public_key_of(der))),
{
    csr.signed_by(issuer, key).map_err(|e| e.to_string())
}

/// `rcgen::Certificate::pem`: the PEM text begins as that of a certificate, and
/// holds the certificate.
#[verifier::external_body]
pub(crate) fn cert_pem(cert: &rcgen::Certificate) -> (res: String)
    ensures
        crate::text::begins_with(res@, CERT_HEADER@),
        certificate_of(res@) == cert_of(*cert),
{
    cert.pem()
}

/// `rcgen::generate_simple_self_signed`: a certificate for the given alternative
/// names, with rcgen's own common name as subject and issuer, and a new key for
/// it, both in PEM. The certificate is for the key's public key, and signed by
/// it. The key is random, and so is whether one can be made.
#[verifier::external_body]
pub(crate) fn simple_self_signed(names: Vec<String>) -> (res: Result<(String, String), String>)
    ensures
        res matches Ok((cert, _)) ==> crate::text::begins_with(cert@, CERT_HEADER@),
        res matches Ok((cert, _)) ==> is_named(certificate_of(cert@).alt_names, names@),
        res matches Ok((cert, _)) ==> certificate_of(cert@).subject == seq![
            x509::common_name(x509::DEFAULT_SUBJECT@),
        ] && certificate_of(cert@).issuer == certificate_of(cert@).subject,
        res matches Ok((cert, key)) ==> certificate_of(cert@).public_key == public_key_of(
            pem_contents(key@),
        ) && certificate_of(cert@).signers.contains(public_key_of(pem_contents(key@))),
{
    rcgen::generate_simple_self_signed(names)
        .map(|c| (c.cert.pem(), c.key_pair.serialize_pem()))
        .map_err(|e| e.to_string())
}

// ── JSON ────────────────────────────────────────────────────────────

/// The text under a key of a JSON object, nothing where there is none; or why
/// the bytes are no JSON.
pub uninterp spec fn json_str_of(json: Seq<u8>, key: Seq<char>) -> Result<
    Option<Seq<char>>,
    Seq<char>,
>;

/// `serde_json::from_slice` into a `serde_json::Value`, `Value::get` and
/// `Value::as_str`: the text found, or the error's message, is a function of
/// the bytes and the key.
#[verifier::external_body]
pub(crate) fn json_str(json: &[u8], key: &str) -> (res: Result<Option<String>, String>)
    ensures
        match (res, json_str_of(json@, key@)) {
            (Ok(Some(s)), Ok(Some(m))) => s@ == m,
            (Ok(None), Ok(None)) => true,
            (Err(e), Err(m)) => e@ == m,
            _ => false,
        },
{
    let value: serde_json::Value = serde_json::from_slice(json).map_err(|e| e.to_string())?;
    Ok(value.get(key).and_then(|v| v.as_str()).map(|s| s.to_string()))
}

/// A JSON value, written without needless white space; or why the bytes are no
/// JSON.
pub uninterp spec fn json_text_of(json: Seq<u8>) -> Result<Seq<char>, Seq<char>>;

/// `serde_json::from_slice` into a `serde_json::Value`, and its `Display`: the
/// text, or the error's message, is a function of the bytes.
#[verifier::external_body]
pub(crate) fn json_text(json: &[u8]) -> (res: Result<String, String>)
    ensures
        match (res, json_text_of(json@)) {
            (Ok(s), Ok(m)) => s@ == m,
            (Err(e), Err(m)) => e@ == m,
            _ => false,
        },
{
    let value: serde_json::Value = serde_json::from_slice(json).map_err(|e| e.to_string())?;
    Ok(value.to_string())
}

} // verus!
