//! Certificates and signing requests: what they hold, and whether what was read
//! from one can be written again.
//!
//! Not everything that can be read can be written. An object identifier may
//! have no canonical form, a text may hold a character that its string type is
//! not written with, and a date may fall outside the years of its time type.
use vstd::prelude::*;

use crate::deps;

verus! {

/// The ASN.1 tag of a UTF8String.
pub const UTF8_STRING: u8 = 12;

/// The ASN.1 tag of a PrintableString.
pub const PRINTABLE_STRING: u8 = 19;

/// The tag of a DNS name among the alternative names.
pub const DNS_NAME: u8 = 2;

/// The common name that rcgen gives to parameters which name no other.
pub const DEFAULT_SUBJECT: &'static str = "rcgen self signed cert";

/// An attribute of a name: its type as an object identifier, the tag of its
/// string type, and the bytes of its value.
#[verifier::ext_equal]
pub struct AttributeModel {
    pub oid: Seq<u64>,
    pub tag: u8,
    pub value: Seq<u8>,
}

/// An alternative name: its tag, its object identifier if it is of no standard
/// kind, and the bytes of its value.
#[verifier::ext_equal]
pub struct AltNameModel {
    pub tag: u8,
    pub oid: Option<Seq<u64>>,
    pub value: Seq<u8>,
}

/// A constraint on names.
#[verifier::ext_equal]
pub enum ConstraintModel {
    /// On mail addresses or DNS names.
    Text(Seq<char>),
    /// On names made of attributes.
    Name(Seq<AttributeModel>),
    /// On network addresses.
    Address,
}

/// A moment: its year, in its own time zone, and the seconds since the epoch.
#[verifier::ext_equal]
pub struct MomentModel {
    pub year: i32,
    pub timestamp: i64,
}

/// What the parameters of a certificate hold.
#[verifier::ext_equal]
pub struct ParamsModel {
    pub subject: Seq<AttributeModel>,
    /// Whether every attribute of the subject is of a type that rcgen names.
    pub standard: bool,
    pub alt_names: Seq<AltNameModel>,
    pub constraints: Seq<ConstraintModel>,
    pub not_before: MomentModel,
    pub not_after: MomentModel,
    /// How many extensions of their own kind, revocation lists, and key usages
    /// of their own kind there are.
    pub extras: nat,
}

/// What a signing request asks for.
#[verifier::ext_equal]
pub struct RequestModel {
    pub subject: Seq<AttributeModel>,
    pub alt_names: Seq<AltNameModel>,
    /// The bytes of the public key.
    pub public_key: Seq<u8>,
}

/// What a certificate says.
#[verifier::ext_equal]
pub struct CertModel {
    pub subject: Seq<AttributeModel>,
    pub alt_names: Seq<AltNameModel>,
    /// The bytes of the subject's public key.
    pub public_key: Seq<u8>,
    pub issuer: Seq<AttributeModel>,
    /// The public keys under which the certificate's signature is good.
    pub signers: Set<Seq<u8>>,
}

/// The object identifier of a common name.
pub open spec fn common_name_oid() -> Seq<u64> {
    seq![2u64, 5u64, 4u64, 3u64]
}

/// A common name.
pub open spec fn common_name(name: Seq<char>) -> AttributeModel {
    AttributeModel {
        oid: common_name_oid(),
        tag: UTF8_STRING,
        value: vstd::utf8::encode_utf8(name),
    }
}

/// A DNS name.
pub open spec fn dns_name(name: Seq<char>) -> AltNameModel {
    AltNameModel { tag: DNS_NAME, oid: None, value: vstd::utf8::encode_utf8(name) }
}

/// Whether a character can occur in the text of a network address.
pub open spec fn is_address_char(c: char) -> bool {
    '0' <= c <= '9' || 'a' <= c <= 'f' || 'A' <= c <= 'F' || c == '.' || c == ':'
}

/// Whether a name can be no network address.
pub open spec fn is_no_address(name: Seq<char>) -> bool {
    exists|i: int| 0 <= i < name.len() && !is_address_char(#[trigger] name[i])
}

/// A name's attributes after one was set: in the place of the one with its type,
/// or at the end if there is none.
pub open spec fn with_attribute(
    name: Seq<AttributeModel>,
    attribute: AttributeModel,
) -> Seq<AttributeModel> {
    if exists|i: int| 0 <= i < name.len() && (#[trigger] name[i]).oid == attribute.oid {
        let i = choose|i: int| 0 <= i < name.len() && (#[trigger] name[i]).oid == attribute.oid;
        name.update(i, attribute)
    } else {
        name.push(attribute)
    }
}

// ── What can be written ─────────────────────────────────────────────

/// The byte `?`, which PrintableStrings are not written with.
pub const QUESTION_MARK: u8 = 0x3f;

/// When the year 0 begins, in seconds since the epoch.
pub const YEAR_0: i64 = -62_167_219_200;

/// When the year 1950 begins, in seconds since the epoch.
pub const YEAR_1950: i64 = -631_152_000;

/// When the year 2050 begins, in seconds since the epoch.
pub const YEAR_2050: i64 = 2_524_608_000;

/// When the year 10000 begins, in seconds since the epoch.
pub const YEAR_10000: i64 = 253_402_300_800;

/// Whether an object identifier has a canonical form.
pub open spec fn can_write_oid(oid: Seq<u64>) -> bool {
    &&& oid.len() >= 2
    &&& oid[0] < 3
    &&& oid[1] < 0xffff_ffff_ffff_ffaf
    &&& oid[0] == 2 || oid[1] < 40
}

/// Whether an attribute can be written.
pub open spec fn can_write_attribute(a: AttributeModel) -> bool {
    &&& can_write_oid(a.oid)
    &&& a.tag == PRINTABLE_STRING ==> !a.value.contains(QUESTION_MARK)
}

/// Whether a name can be written.
pub open spec fn can_write_name(name: Seq<AttributeModel>) -> bool {
    forall|i: int| 0 <= i < name.len() ==> can_write_attribute(#[trigger] name[i])
}

/// Whether an alternative name can be written.
pub open spec fn can_write_alt_name(name: AltNameModel) -> bool {
    match name.oid {
        Some(oid) => can_write_oid(oid),
        None => true,
    }
}

/// Whether alternative names can be written.
pub open spec fn can_write_alt_names(names: Seq<AltNameModel>) -> bool {
    forall|i: int| 0 <= i < names.len() ==> can_write_alt_name(#[trigger] names[i])
}

/// Whether a constraint can be written.
pub open spec fn can_write_constraint(constraint: ConstraintModel) -> bool {
    match constraint {
        ConstraintModel::Text(text) => vstd::utf8::is_ascii_chars(text),
        ConstraintModel::Name(name) => can_write_name(name),
        ConstraintModel::Address => true,
    }
}

/// Whether a moment can be written: with a two-digit year if its own year is
/// from 1950 to 2049, else with four digits; the year written is that of UTC.
pub open spec fn can_write_moment(m: MomentModel) -> bool {
    if 1950 <= m.year < 2050 {
        YEAR_1950 <= m.timestamp < YEAR_2050
    } else {
        YEAR_0 <= m.timestamp < YEAR_10000
    }
}

/// Whether a certificate can be written from some parameters.
pub open spec fn can_write(params: ParamsModel) -> bool {
    &&& can_write_name(params.subject)
    &&& can_write_alt_names(params.alt_names)
    &&& forall|i: int|
        0 <= i < params.constraints.len() ==> can_write_constraint(#[trigger] params.constraints[i])
    &&& can_write_moment(params.not_before)
    &&& can_write_moment(params.not_after)
    &&& params.extras == 0
}

/// Whether a certificate can be written for a request.
pub open spec fn can_write_request(request: RequestModel) -> bool {
    can_write_name(request.subject) && can_write_alt_names(request.alt_names)
}

/// Whether an object identifier has a canonical form.
fn oid_writable(oid: &Vec<u64>) -> (res: bool)
    ensures
        res == can_write_oid(oid@),
{
    oid.len() >= 2 && oid[0] < 3 && oid[1] < 0xffff_ffff_ffff_ffaf && (oid[0] == 2 || oid[1] < 40)
}

/// Whether a byte occurs among some.
fn has_byte(bytes: &[u8], byte: u8) -> (res: bool)
    ensures
        res == bytes@.contains(byte),
{
    let n: usize = bytes.len();
    let mut i: usize = 0;
    while i < n
        invariant
            n == bytes@.len(),
            i <= n,
            forall|j: int| 0 <= j < i ==> bytes@[j] != byte,
        decreases n - i,
    {
        if bytes[i] == byte {
            assert(bytes@[i as int] == byte);
            return true;
        }
        i += 1;
    }
    false
}

/// Whether a name can be written.
fn name_writable(name: &rcgen::DistinguishedName) -> (res: bool)
    ensures
        res == can_write_name(deps::name_of(*name)),
{
    let attributes = deps::attributes(name);
    let ghost all = deps::name_of(*name);
    let n: usize = attributes.len();
    let mut i: usize = 0;
    while i < n
        invariant
            n == attributes@.len(),
            i <= n,
            all.len() == n,
            all == deps::name_of(*name),
            forall|j: int| 0 <= j < n ==> #[trigger] deps::is_attribute(attributes@[j], all[j]),
            forall|j: int| 0 <= j < i ==> can_write_attribute(#[trigger] all[j]),
        decreases n - i,
    {
        assert(deps::is_attribute(attributes@[i as int], all[i as int]));
        let oid_fits = match &attributes[i].0 {
            Some(oid) => oid_writable(oid),
            None => true,
        };
        let text_fits = match &attributes[i].1 {
            Some(text) => !has_byte(text.as_str().as_bytes(), QUESTION_MARK),
            None => true,
        };
        if !oid_fits || !text_fits {
            assert(!can_write_attribute(all[i as int]));
            return false;
        }
        i += 1;
    }
    true
}

/// Whether the alternative names among some parameters can be written.
fn alt_names_writable(params: &rcgen::CertificateParams) -> (res: bool)
    ensures
        res == can_write_alt_names(deps::params_of(*params).alt_names),
{
    let oids = deps::alt_name_oids(params);
    let ghost all = deps::params_of(*params).alt_names;
    let n: usize = oids.len();
    let mut i: usize = 0;
    while i < n
        invariant
            n == oids@.len(),
            i <= n,
            all.len() == n,
            all == deps::params_of(*params).alt_names,
            forall|j: int| 0 <= j < n ==> #[trigger] deps::is_alt_name(oids@[j], all[j]),
            forall|j: int| 0 <= j < i ==> can_write_alt_name(#[trigger] all[j]),
        decreases n - i,
    {
        assert(deps::is_alt_name(oids@[i as int], all[i as int]));
        let fits = match &oids[i] {
            Some(oid) => oid_writable(oid),
            None => true,
        };
        if !fits {
            assert(!can_write_alt_name(all[i as int]));
            return false;
        }
        i += 1;
    }
    true
}

/// Whether a constraint can be written.
fn constraint_writable(constraint: &deps::Constraint) -> (res: bool)
    ensures
        res == can_write_constraint(deps::constraint_model(*constraint)),
{
    match constraint {
        deps::Constraint::Text(text) => text.as_str().is_ascii(),
        deps::Constraint::Name(name) => name_writable(name),
        deps::Constraint::Address => true,
    }
}

/// Whether the constraints among some parameters can be written.
fn constraints_writable(params: &rcgen::CertificateParams) -> (res: bool)
    ensures
        res == (forall|i: int|
            0 <= i < deps::params_of(*params).constraints.len() ==> can_write_constraint(
                #[trigger] deps::params_of(*params).constraints[i],
            )),
{
    let constraints = deps::constraints(params);
    let ghost all = deps::params_of(*params).constraints;
    let n: usize = constraints.len();
    let mut i: usize = 0;
    while i < n
        invariant
            n == constraints@.len(),
            i <= n,
            all.len() == n,
            all == deps::params_of(*params).constraints,
            forall|j: int|
                0 <= j < n ==> #[trigger] deps::constraint_model(constraints@[j]) == all[j],
            forall|j: int| 0 <= j < i ==> can_write_constraint(#[trigger] all[j]),
        decreases n - i,
    {
        assert(deps::constraint_model(constraints@[i as int]) == all[i as int]);
        if !constraint_writable(&constraints[i]) {
            assert(!can_write_constraint(all[i as int]));
            return false;
        }
        i += 1;
    }
    true
}

/// Whether a moment can be written.
fn moment_writable(year: i32, timestamp: i64) -> (res: bool)
    ensures
        res == can_write_moment(MomentModel { year, timestamp }),
{
    if 1950 <= year && year < 2050 {
        YEAR_1950 <= timestamp && timestamp < YEAR_2050
    } else {
        YEAR_0 <= timestamp && timestamp < YEAR_10000
    }
}

/// Whether a certificate can be written from parameters without extras.
pub(crate) fn writable(params: &rcgen::CertificateParams) -> (res: bool)
    requires
        deps::params_of(*params).extras == 0,
    ensures
        res == can_write(deps::params_of(*params)),
{
    let ((year, timestamp), (last_year, last_timestamp)) = deps::validity(params);
    name_writable(deps::subject(params)) && alt_names_writable(params) && constraints_writable(
        params,
    ) && moment_writable(year, timestamp) && moment_writable(last_year, last_timestamp)
}

// ── Laws ────────────────────────────────────────────────────────────

/// Ordinary certificates can be written: with attributes in UTF-8 of any type that
/// has a canonical form, with names of the standard kinds, without constraints, and
/// valid within the years from 1950 to 2049.
pub proof fn law_ordinary_certificates_can_be_written(params: ParamsModel)
    requires
        forall|i: int|
            #![trigger params.subject[i]]
            0 <= i < params.subject.len() ==> {
                &&& params.subject[i].tag == 12
                &&& params.subject[i].oid.len() >= 2
                &&& params.subject[i].oid[0] <= 2
                &&& params.subject[i].oid[0] < 2 ==> params.subject[i].oid[1] < 40
                &&& params.subject[i].oid[1] < 0xffff_ffff_ffff_ffaf
            },
        forall|i: int|
            0 <= i < params.alt_names.len() ==> (#[trigger] params.alt_names[i]).oid is None,
        params.constraints.len() == 0,
        params.extras == 0,
        1950 <= params.not_before.year <= 2049,
        1950 <= params.not_after.year <= 2049,
        -631_152_000 <= params.not_before.timestamp < 2_524_608_000,
        -631_152_000 <= params.not_after.timestamp < 2_524_608_000,
    ensures
        can_write(params),
        can_write_request(
            RequestModel {
                subject: params.subject,
                alt_names: params.alt_names,
                public_key: Seq::empty(),
            },
        ),
{
}

/// What cannot be written spoils the certificate: an attribute of a type without a
/// canonical form, one in a PrintableString with a question mark, a name of such a
/// type, a date outside its years, or anything extra.
pub proof fn law_one_bad_part_spoils_the_certificate(params: ParamsModel, i: int)
    requires
        can_write(params),
    ensures
        0 <= i < params.subject.len() ==> {
            let a = params.subject[i];
            &&& a.oid.len() >= 2
            &&& a.oid[0] <= 2
            &&& a.oid[0] < 2 ==> a.oid[1] < 40
            &&& a.tag == 19 ==> !a.value.contains(0x3f)
        },
        0 <= i < params.alt_names.len() ==> (params.alt_names[i].oid matches Some(oid)
            ==> oid.len() >= 2 && oid[0] <= 2),
        0 <= i < params.constraints.len() ==> (params.constraints[i] matches ConstraintModel::Text(
            text,
        ) ==> vstd::utf8::is_ascii_chars(text)),
        params.extras == 0,
        -62_167_219_200 <= params.not_before.timestamp < 253_402_300_800,
        -62_167_219_200 <= params.not_after.timestamp < 253_402_300_800,
{
    if 0 <= i < params.subject.len() {
        assert(can_write_attribute(params.subject[i]));
    }
    if 0 <= i < params.alt_names.len() {
        assert(can_write_alt_name(params.alt_names[i]));
    }
    if 0 <= i < params.constraints.len() {
        assert(can_write_constraint(params.constraints[i]));
    }
}

/// Setting an attribute puts it into the name and leaves those of other types as
/// they were; a name with one attribute of the type keeps its length.
pub proof fn law_attribute_is_set(name: Seq<AttributeModel>, attribute: AttributeModel, k: int)
    ensures
        with_attribute(name, attribute).contains(attribute),
        0 <= k < name.len() && name[k].oid != attribute.oid ==> with_attribute(name, attribute)[k]
            == name[k],
        with_attribute(name, attribute).len() <= name.len() + 1,
{
    let set = with_attribute(name, attribute);
    if exists|i: int| 0 <= i < name.len() && (#[trigger] name[i]).oid == attribute.oid {
        let i = choose|i: int| 0 <= i < name.len() && (#[trigger] name[i]).oid == attribute.oid;
        assert(set[i] == attribute);
    } else {
        assert(set[name.len() as int] == attribute);
    }
}

/// Every attribute whose type has a canonical form can be written, but for a
/// PrintableString with a question mark; so can every constraint in plain text or
/// on addresses, and every date between the years 0 and 9999 that is not written
/// with two digits.
pub proof fn law_good_parts_can_be_written(
    a: AttributeModel,
    text: Seq<char>,
    name: Seq<AttributeModel>,
    m: MomentModel,
)
    ensures
        a.oid.len() >= 2 && a.oid[0] <= 2 && (a.oid[0] < 2 ==> a.oid[1] < 40) && a.oid[1]
            < 0xffff_ffff_ffff_ffaf && (a.tag != 19 || !a.value.contains(0x3f))
            ==> can_write_attribute(a),
        vstd::utf8::is_ascii_chars(text) ==> can_write_constraint(ConstraintModel::Text(text)),
        can_write_name(name) <==> can_write_constraint(ConstraintModel::Name(name)),
        can_write_constraint(ConstraintModel::Address),
        (m.year < 1950 || m.year >= 2050) && -62_167_219_200 <= m.timestamp < 253_402_300_800
            ==> can_write_moment(m),
        1950 <= m.year < 2050 && -631_152_000 <= m.timestamp < 2_524_608_000
            ==> can_write_moment(m),
{
}

} // verus!
