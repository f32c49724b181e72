//! Pairing.
use membrane_daemon::config::{Config, PolicyMode};
use membrane_daemon::pairing::{
    build_csr, ensure_dev_cert, ensure_keypair, install_token, pin_hex, plan_install, sign_csr,
    PairingToken,
};
use membrane_daemon::tunnel::PinnedVerifier;

fn ca_pair() -> (String, String, Vec<u8>) {
    let mut params = rcgen::CertificateParams::new(vec!["test-issuer".to_string()]).unwrap();
    params.distinguished_name.push(rcgen::DnType::CommonName, "test-issuer");
    let key = rcgen::KeyPair::generate().unwrap();
    let cert = params.self_signed(&key).unwrap();
    (cert.pem(), key.serialize_pem(), cert.der().to_vec())
}

fn token(v: u32, cert: &str, pin: &str, endpoint: &str, label: Option<&str>) -> PairingToken {
    PairingToken {
        v,
        daemon_cert_pem: cert.into(),
        cloud_pin_hex: pin.into(),
        endpoint: endpoint.into(),
        customer_label: label.map(|l| l.to_string()),
    }
}

/// A token as JSON.
fn to_json(t: &PairingToken) -> Vec<u8> {
    let mut map = serde_json::Map::new();
    map.insert("v".into(), t.v.into());
    map.insert("daemon_cert_pem".into(), t.daemon_cert_pem.clone().into());
    map.insert("cloud_pin_hex".into(), t.cloud_pin_hex.clone().into());
    map.insert("endpoint".into(), t.endpoint.clone().into());
    map.insert("customer_label".into(), t.customer_label.clone().into());
    serde_json::to_vec(&serde_json::Value::Object(map)).unwrap()
}

/// A token from JSON.
fn from_json(json: &[u8]) -> Result<PairingToken, String> {
    let value: serde_json::Value = serde_json::from_slice(json).map_err(|e| e.to_string())?;
    let text = |key: &str| value[key].as_str().map(|s| s.to_string());
    Ok(PairingToken {
        v: value["v"].as_u64().ok_or("no version")? as u32,
        daemon_cert_pem: text("daemon_cert_pem").ok_or("no certificate")?,
        cloud_pin_hex: text("cloud_pin_hex").ok_or("no pin")?,
        endpoint: text("endpoint").ok_or("no endpoint")?,
        customer_label: text("customer_label"),
    })
}

fn encode(t: &PairingToken) -> String {
    PairingToken::encode(&to_json(t))
}

fn decode(s: &str) -> Result<PairingToken, String> {
    let json = PairingToken::decode(s).map_err(|e| e.message)?;
    PairingToken::accept(from_json(&json)).map_err(|e| e.message)
}

const CERT: &str = "-----BEGIN CERTIFICATE-----\nAAAA\n-----END CERTIFICATE-----\n";

#[test]
fn token_round_trip() {
    let t = token(1, CERT, &"0".repeat(64), "https://cloud.example.com:443", Some("acme corp"));
    let encoded = encode(&t);
    let decoded = decode(&encoded).unwrap();
    assert_eq!(decoded.endpoint, t.endpoint);
    assert_eq!(decoded.customer_label, t.customer_label);
    assert_eq!(decoded.daemon_cert_pem, t.daemon_cert_pem);
    assert_eq!(decoded.cloud_pin_hex, t.cloud_pin_hex);
}

#[test]
fn token_rejects_unknown_version() {
    let t = token(99, CERT, &"0".repeat(64), "x", None);
    let encoded = encode(&t);
    assert!(decode(&encoded).is_err());
    assert_eq!(decode(&encoded).unwrap_err(), "unsupported token version 99");
}

#[test]
fn token_rejects_missing_fields() {
    let t = token(1, "abc", "", "x", None);
    let encoded = encode(&t);
    assert!(decode(&encoded).is_err());
    assert_eq!(decode(&encoded).unwrap_err(), "token missing cloud pin");
    assert_eq!(decode(&encode(&token(1, "", "", "", None))).unwrap_err(), "token missing daemon cert");
    assert_eq!(decode(&encode(&token(1, "a", "b", "", None))).unwrap_err(), "token missing endpoint");
}

#[test]
fn token_text_is_unpadded_url_safe_base64() {
    assert_eq!(PairingToken::encode(&[0xfb, 0xff]), "-_8");
    assert_eq!(PairingToken::decode("-_8").unwrap(), vec![0xfb, 0xff]);
    assert_eq!(PairingToken::decode(" \n-_8\t").unwrap(), vec![0xfb, 0xff]);
    assert_eq!(PairingToken::encode(b""), "");
    for bad in ["-_8=", "+/8", "-_ 8", "-"] {
        let e = PairingToken::decode(bad).unwrap_err();
        assert_eq!(e.message, "base64 decode");
        assert!(e.cause.is_some());
    }
}

#[test]
fn token_that_is_no_json_is_rejected() {
    let e = PairingToken::accept(Err("expected value".into())).unwrap_err();
    assert_eq!(e.message, "token JSON decode");
    assert_eq!(e.cause.as_deref(), Some("expected value"));
}

#[test]
fn keypair_is_created_then_reused() {
    let (kp1, new1) = ensure_keypair(None).unwrap();
    assert!(new1, "first call should generate");
    let pem1 = kp1.new_pem.unwrap();
    assert_eq!(pem1, kp1.pair.serialize_pem());

    let (kp2, new2) = ensure_keypair(Some(&pem1)).unwrap();
    assert!(!new2, "second call should reuse");
    assert_eq!(pem1, kp2.pair.serialize_pem());
    assert_eq!(kp1.der, kp2.der);
    assert!(kp2.new_pem.is_none());
}

#[test]
fn csr_is_for_the_key_and_the_name() {
    let (kp, _) = ensure_keypair(None).unwrap();
    let csr = rcgen::CertificateSigningRequestParams::from_pem(&build_csr(&kp.pair).unwrap()).unwrap();
    assert_eq!(rcgen::PublicKeyData::der_bytes(&csr.public_key), kp.pair.public_key_raw());
    let name = rcgen::DnValue::Utf8String("membrane-daemon".to_string());
    assert_eq!(csr.params.distinguished_name.get(&rcgen::DnType::CommonName), Some(&name));
    assert_eq!(csr.params.distinguished_name.iter().count(), 1);
    let dns = rcgen::SanType::DnsName("membrane-daemon".try_into().unwrap());
    assert_eq!(csr.params.subject_alt_names, vec![dns]);
}

/// Where some bytes occur among others.
fn find(all: &[u8], part: &[u8]) -> Option<usize> {
    all.windows(part.len()).position(|w| w == part)
}

fn pem_der(pem: &str) -> Vec<u8> {
    let body: String = pem.lines().filter(|l| !l.starts_with('-')).collect();
    base64::Engine::decode(&base64::engine::general_purpose::STANDARD, body).unwrap()
}

fn to_pem(label: &str, der: &[u8]) -> String {
    let body = base64::Engine::encode(&base64::engine::general_purpose::STANDARD, der);
    let lines: Vec<String> =
        body.as_bytes().chunks(64).map(|l| String::from_utf8(l.to_vec()).unwrap()).collect();
    format!("-----BEGIN {label}-----\n{}\n-----END {label}-----\n", lines.join("\n"))
}

/// The length of the DER value that some bytes begin with.
fn der_len(der: &[u8]) -> usize {
    match der[1] {
        0x81 => 3 + der[2] as usize,
        0x82 => 4 + 256 * der[2] as usize + der[3] as usize,
        short => 2 + short as usize,
    }
}

/// What is inside the DER value that some bytes begin with.
fn inside(der: &[u8]) -> &[u8] {
    let head = match der[1] {
        0x81 => 3,
        0x82 => 4,
        _ => 2,
    };
    &der[head..der_len(der)]
}

fn sequence(content: &[u8]) -> Vec<u8> {
    let n = content.len();
    let mut out = vec![0x30, 0x82, (n / 256) as u8, (n % 256) as u8];
    out.extend_from_slice(content);
    out
}

#[test]
fn signed_cert_is_for_the_request_and_by_the_issuer() {
    let (ca_pem, ca_key_pem, _) = ca_pair();
    let (kp, _) = ensure_keypair(None).unwrap();
    let signed = pem_der(&sign_csr(&build_csr(&kp.pair).unwrap(), &ca_pem, &ca_key_pem).unwrap());
    assert!(find(&signed, kp.pair.public_key_raw()).is_some());
    let (issuer, subject) = (find(&signed, b"test-issuer"), find(&signed, b"membrane-daemon"));
    assert!(issuer.unwrap() < subject.unwrap());

    let tbs = &signed[4..4 + der_len(&signed[4..])];
    let alg = &signed[4 + tbs.len()..];
    let bits = &alg[der_len(alg)..];
    let signature = &bits[3..];
    let key = rcgen::KeyPair::from_pem(&ca_key_pem).unwrap();
    let check = rustls::crypto::ring::default_provider()
        .signature_verification_algorithms
        .mapping
        .iter()
        .find(|(s, _)| *s == rustls::SignatureScheme::ECDSA_NISTP256_SHA256)
        .unwrap()
        .1;
    let verified = |key: &[u8]| {
        check.iter().any(|a| a.verify_signature(key, tbs, signature).is_ok())
    };
    assert!(verified(key.public_key_raw()));
    assert!(!verified(kp.pair.public_key_raw()));
}

#[test]
fn dev_cert_is_for_its_key_and_name() {
    let (pem, key) = ensure_dev_cert(false, true).unwrap().unwrap();
    let der = pem_der(&pem);
    let key = rcgen::KeyPair::from_pem(&key).unwrap();
    assert!(find(&der, key.public_key_raw()).is_some());
    let params = rcgen::CertificateParams::from_ca_cert_pem(&pem).unwrap();
    let dns = rcgen::SanType::DnsName("membrane-daemon-dev".try_into().unwrap());
    assert_eq!(params.subject_alt_names, vec![dns]);
    let name = rcgen::DnValue::Utf8String("rcgen self signed cert".to_string());
    assert_eq!(params.distinguished_name.get(&rcgen::DnType::CommonName), Some(&name));
}

/// An issuer whose certificate had some of its bytes replaced, which its
/// signature does not show when it is read.
fn odd_issuer(params: rcgen::CertificateParams, from: &[u8], to: &[u8]) -> (String, String) {
    let key = rcgen::KeyPair::generate().unwrap();
    let mut der = params.self_signed(&key).unwrap().der().to_vec();
    if !to.is_empty() {
        while let Some(at) = find(&der, from) {
            der[at..at + to.len()].copy_from_slice(to);
        }
    }
    (to_pem("CERTIFICATE", &der), key.serialize_pem())
}

#[test]
fn issuers_that_cannot_be_written_are_refused() {
    let (kp, _) = ensure_keypair(None).unwrap();
    let csr = build_csr(&kp.pair).unwrap();
    let named = |kind: rcgen::DnType, value: rcgen::DnValue| {
        let mut params = rcgen::CertificateParams::new(vec![]).unwrap();
        params.distinguished_name.push(kind, value);
        params
    };
    let plain = || rcgen::DnValue::Utf8String("x".to_string());
    let oid = rcgen::DnType::CustomDnType(vec![2, 5, 4, 99]);
    let printable = rcgen::DnValue::PrintableString("who-knows".try_into().unwrap());
    let mut other = rcgen::CertificateParams::new(vec![]).unwrap();
    other.subject_alt_names.push(rcgen::SanType::OtherName((vec![2, 5, 4, 99], "v".into())));
    let constrained = |tree: rcgen::GeneralSubtree| {
        let mut params = rcgen::CertificateParams::new(vec![]).unwrap();
        params.is_ca = rcgen::IsCa::Ca(rcgen::BasicConstraints::Unconstrained);
        params.name_constraints = Some(rcgen::NameConstraints {
            permitted_subtrees: vec![],
            excluded_subtrees: vec![tree],
        });
        params
    };
    let host = rcgen::GeneralSubtree::DnsName("ab.example".to_string());
    let cases = vec![
        (named(oid.clone(), plain()), vec![0x55u8, 4, 99], vec![0x78u8, 4, 99]),
        (named(rcgen::DnType::OrganizationName, printable), b"who-knows".to_vec(), b"who?knows".to_vec()),
        (other, vec![0x55, 4, 99], vec![0xff, 4, 99]),
        (constrained(host), b"ab.example".to_vec(), "é.example".as_bytes().to_vec()),
    ];
    for (params, from, to) in cases {
        let (cert, key) = odd_issuer(params.clone(), &from, &from[..0]);
        assert!(sign_csr(&csr, &cert, &key).is_ok());
        let (cert, key) = odd_issuer(params, &from, &to);
        let e = sign_csr(&csr, &cert, &key).unwrap_err();
        assert_eq!(e.message, "rebuild issuer cert");
        assert_eq!(e.cause.as_deref(), Some("a name or date in it cannot be written"));
    }
}

#[test]
fn issuers_of_unwritable_dates_are_refused() {
    let (kp, _) = ensure_keypair(None).unwrap();
    let csr = build_csr(&kp.pair).unwrap();
    let (ca_pem, ca_key_pem, ca_der) = ca_pair();
    let tbs = inside(&ca_der);
    let rest = &tbs[der_len(tbs)..];
    let tbs = inside(tbs);
    let at = find(tbs, b"750101000000Z").unwrap() - 4;
    let dated = |from: &[u8]| {
        let to = b"\x18\x0f40960101000000Z";
        let mut validity = vec![0x17, from.len() as u8];
        validity.extend_from_slice(from);
        validity.extend_from_slice(to);
        let mut content = tbs[..at].to_vec();
        content.extend_from_slice(&[0x30, validity.len() as u8]);
        content.extend_from_slice(&validity);
        content.extend_from_slice(&tbs[at + der_len(&tbs[at..])..]);
        to_pem("CERTIFICATE", &sequence(&[&sequence(&content), rest].concat()))
    };
    assert!(sign_csr(&csr, &ca_pem, &ca_key_pem).is_ok());
    assert!(sign_csr(&csr, &dated(b"500101000000Z"), &ca_key_pem).is_ok());
    assert!(sign_csr(&csr, &dated(b"500101013000+0100"), &ca_key_pem).is_ok());
    let e = sign_csr(&csr, &dated(b"500101003000+0100"), &ca_key_pem).unwrap_err();
    assert_eq!(e.message, "rebuild issuer cert");
    assert_eq!(e.cause.as_deref(), Some("a name or date in it cannot be written"));
    assert!(sign_csr(&csr, &dated(b"491231233000-0100"), &ca_key_pem).is_err());
}

#[test]
fn requests_that_cannot_be_written_are_refused() {
    let (ca_pem, ca_key_pem, _) = ca_pair();
    let key = rcgen::KeyPair::generate().unwrap();
    let mut params = rcgen::CertificateParams::new(vec![]).unwrap();
    params.distinguished_name.push(rcgen::DnType::CustomDnType(vec![2, 5, 4, 99]), "x");
    let der = params.serialize_request(&key).unwrap().der().to_vec();
    let signer = rustls::crypto::ring::sign::any_ecdsa_type(
        &rustls::pki_types::PrivateKeyDer::try_from(key.serialize_der()).unwrap(),
    )
    .unwrap()
    .choose_scheme(&[rustls::SignatureScheme::ECDSA_NISTP256_SHA256])
    .unwrap();
    let start = if der[1] == 0x81 { 3 } else { 4 };
    let tbs = &der[start..start + der_len(&der[start..])];
    let alg = &der[start + tbs.len()..];
    let alg = &alg[..der_len(alg)];
    let signed = |tbs: &[u8]| {
        let signature = signer.sign(tbs).unwrap();
        let mut bits = vec![3, signature.len() as u8 + 1, 0];
        bits.extend_from_slice(&signature);
        to_pem("CERTIFICATE REQUEST", &sequence(&[tbs, alg, &bits].concat()))
    };
    assert!(sign_csr(&signed(tbs), &ca_pem, &ca_key_pem).is_ok());
    let mut odd = tbs.to_vec();
    let at = find(&odd, &[0x55, 4, 99]).unwrap();
    odd[at] = 0x78;
    let e = sign_csr(&signed(&odd), &ca_pem, &ca_key_pem).unwrap_err();
    assert_eq!(e.message, "sign CSR");
    assert_eq!(e.cause.as_deref(), Some("a name or date in it cannot be written"));
}

#[test]
fn broken_key_is_refused() {
    match ensure_keypair(Some("no key at all")) {
        Err(e) => {
            assert_eq!(e.message, "parse existing key PEM");
            assert!(e.cause.is_some());
        }
        Ok(_) => panic!("that is no key"),
    }
}

#[test]
fn csr_signs_with_ca_and_validates_pem() {
    let (ca_pem, ca_key_pem, _) = ca_pair();
    let (kp, _) = ensure_keypair(None).unwrap();
    let csr_pem = build_csr(&kp.pair).unwrap();
    assert!(csr_pem.starts_with("-----BEGIN CERTIFICATE REQUEST-----"));

    let signed = sign_csr(&csr_pem, &ca_pem, &ca_key_pem).unwrap();
    assert!(signed.starts_with("-----BEGIN CERTIFICATE-----"));
    let parsed: Vec<_> = rustls_pemfile::certs(&mut signed.as_bytes())
        .collect::<Result<Vec<_>, _>>()
        .unwrap();
    assert_eq!(parsed.len(), 1, "should parse exactly one cert");
    let name = b"membrane-daemon";
    assert!(parsed[0].windows(name.len()).any(|w| w == name));
}

#[test]
fn bad_inputs_of_sign_csr_are_named_in_order() {
    let (ca_pem, ca_key_pem, _) = ca_pair();
    let (kp, _) = ensure_keypair(None).unwrap();
    let csr = build_csr(&kp.pair).unwrap();
    assert_eq!(sign_csr("x", "x", "x").unwrap_err().message, "parse CSR PEM");
    assert_eq!(sign_csr(&csr, "x", "x").unwrap_err().message, "parse issuer key PEM");
    assert_eq!(sign_csr(&csr, "x", &ca_key_pem).unwrap_err().message, "parse issuer cert PEM");
    assert!(sign_csr(&csr, &ca_pem, &ca_key_pem).is_ok());
}

#[test]
fn dev_cert_generated_on_first_call() {
    let (pem, key) = ensure_dev_cert(false, false).unwrap().unwrap();
    assert!(pem.starts_with("-----BEGIN CERTIFICATE-----"));
    assert!(rcgen::KeyPair::from_pem(&key).is_ok());
    assert!(ensure_dev_cert(true, false).unwrap().is_some());
}

#[test]
fn dev_cert_not_regenerated_if_present() {
    assert!(ensure_dev_cert(true, true).unwrap().is_none(), "cert should not have been regenerated");
}

#[test]
fn pin_hex_is_64_chars_lowercase() {
    let h = pin_hex(b"some cert bytes");
    assert_eq!(h.len(), 64);
    assert!(h.chars().all(|c| c.is_ascii_hexdigit() && (c.is_ascii_digit() || c.is_ascii_lowercase())));
    assert_eq!(
        pin_hex(b""),
        "af1349b9f5f9a1a6a0404dea36dcc9499bcb25c9adc112b7cc9a93cae41f3262"
    );
}

fn signed_cert() -> (String, Vec<u8>) {
    let (ca_pem, ca_key_pem, ca_der) = ca_pair();
    let (kp, _) = ensure_keypair(None).unwrap();
    let csr = build_csr(&kp.pair).unwrap();
    (sign_csr(&csr, &ca_pem, &ca_key_pem).unwrap(), ca_der)
}

#[test]
fn install_token_writes_cert_pin_and_endpoint() {
    let (cert, ca_der) = signed_cert();
    let token = token(
        1,
        &cert,
        &pin_hex(&ca_der),
        "https://new-cloud.example.com:443",
        Some("tester"),
    );
    let policy = PolicyMode::ReadOnly { roots: vec!["/ws".into()] };
    let cfg = Config { policy: policy.clone(), max_read_bytes: 5, ..Config::default() };
    let old = cfg.endpoint.clone();
    let done = install_token(&token, cfg).unwrap();
    assert!(done.previous_endpoint.is_some(), "endpoint changed; previous should be reported");
    assert_eq!(done.previous_endpoint.as_deref(), Some(old.as_str()));
    assert_eq!(done.pin, token.cloud_pin_hex);
    assert_eq!(done.cert_pem, cert);
    assert_eq!(done.config.endpoint, "https://new-cloud.example.com:443");
    assert_eq!(done.config.policy, policy);
    assert_eq!(done.config.max_read_bytes, 5);
    let verifier = PinnedVerifier { pin: done.pin.clone().into_bytes() };
    assert!(verifier.verify_server_cert(&ca_der).is_ok());
    assert!(verifier.verify_server_cert(b"another").is_err());
    let again = install_token(&token, done.config).unwrap();
    assert!(again.previous_endpoint.is_none());
}

#[test]
fn install_token_rejects_bad_pin() {
    let (cert, _) = signed_cert();
    let bad = token(1, &cert, "not-hex-and-too-short", "x", None);
    let result = install_token(&bad, Config::default());
    assert!(result.is_err());
    assert_eq!(result.unwrap_err().message, "cloud pin is not hex");
    let short = token(1, &cert, "abcd", "x", None);
    assert_eq!(
        install_token(&short, Config::default()).unwrap_err().message,
        "cloud pin is not 32 bytes (got 4 hex chars; expected 64)"
    );
}

#[test]
fn install_token_rejects_bad_certificates() {
    let none = token(1, "no pem", &"0".repeat(64), "x", None);
    assert_eq!(
        install_token(&none, Config::default()).unwrap_err().message,
        "token cert PEM contains no certificate"
    );
    let torn = token(1, "-----BEGIN CERTIFICATE-----\nAAAA\n", "zz", "x", None);
    let e = install_token(&torn, Config::default()).unwrap_err();
    assert_eq!(e.message, "parse daemon cert PEM");
    assert!(e.cause.is_some());
    let fine = token(1, "", &"a".repeat(64), "x", None);
    let sections = vec![Ok(vec![1]), Err("later".to_string())];
    assert!(plan_install(sections, &fine, Config::default()).is_ok());
}
