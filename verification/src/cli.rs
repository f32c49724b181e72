//! What the commands of the command line decide.
//!
//! Whoever drives them reads files, asks the cloud, and prints.
use vstd::prelude::*;

use crate::audit;
use crate::audit::Event;
use crate::config;
use crate::config::{Config, PolicyMode};
use crate::deps;
use crate::failure;
use crate::failure::Failure;
use crate::text;

verus! {

// ── The cloud's address ─────────────────────────────────────────────

/// Whether a character ends the host and port of an address.
pub open spec fn ends_host(c: char) -> bool {
    c == '/' || c == '?' || c == '#'
}

/// How many characters of `s` come before the first that ends a host.
pub open spec fn host_len(s: Seq<char>) -> nat
    decreases s.len(),
{
    if s.len() > 0 && !ends_host(s[0]) {
        1 + host_len(s.skip(1))
    } else {
        0
    }
}

/// The scheme, the host and the port in an address, without what follows them:
/// what comes before the first slash, question mark or hash sign, those of
/// `://` aside.
pub open spec fn origin(s: Seq<char>) -> Seq<char> {
    let k = host_len(s) as int;
    if k > 0 && s[k - 1] == ':' && text::begins_with(s.skip(k), "//"@) {
        s.take(k + 2 + host_len(s.skip(k + 2)))
    } else {
        s.take(k)
    }
}

/// The cloud's base address in what a user gave for it: its scheme, host and
/// port.
pub open spec fn normalised(input: Seq<char>) -> Seq<char> {
    text::without_trailing(origin(text::trimmed(input)), '/')
}

/// The index of the first character from `from` on that ends a host, or the
/// length if there is none.
fn host_end(cs: &Vec<char>, from: usize) -> (res: usize)
    requires
        from <= cs@.len(),
    ensures
        res == from + host_len(cs@.skip(from as int)),
        res <= cs@.len(),
{
    let n: usize = cs.len();
    let mut i: usize = from;
    while i < n
        invariant
            n == cs@.len(),
            from <= i <= n,
            host_len(cs@.skip(from as int)) == i - from + host_len(cs@.skip(i as int)),
        decreases n - i,
    {
        let c = cs[i];
        if c == '/' || c == '?' || c == '#' {
            return i;
        }
        proof {
            assert(cs@.skip(i as int).skip(1) =~= cs@.skip(i + 1));
        }
        i += 1;
    }
    n
}

/// The cloud's base address: scheme, host and port, without what is sometimes
/// pasted with them, such as white space, slashes and paths.
pub fn normalise_cloud_url(input: &str) -> (res: String)
    ensures
        res@ == normalised(input@),
{
    let s: &str = text::trim(input);
    let cs = text::chars_of(s);
    proof {
        reveal_strlit("//");
        assert(cs@.skip(0) =~= cs@);
    }
    let k: usize = host_end(&cs, 0);
    let n: usize = cs.len();
    let end: usize = if k > 0 && cs[k - 1] == ':' && n - k >= 2 && cs[k] == '/' && cs[k + 1] == '/' {
        proof {
            assert(cs@.skip(k as int).take(2) =~= "//"@);
        }
        host_end(&cs, k + 2)
    } else {
        proof {
            if text::begins_with(s@.skip(k as int), "//"@) {
                assert(s@.skip(k as int).take(2)[0] == '/');
                assert(s@.skip(k as int).take(2)[1] == '/');
            }
        }
        k
    };
    proof {
        assert(s@.subrange(0, end as int) =~= s@.take(end as int));
    }
    text::trim_end_matches(s.substring_char(0, end), '/').to_string()
}

/// Whether no character of a text ends a host.
pub open spec fn is_host_text(s: Seq<char>) -> bool {
    forall|i: int| 0 <= i < s.len() ==> !ends_host(#[trigger] s[i])
}

/// Whether a base address is bare: it is nothing but a host and port, or a scheme
/// in front of one.
pub open spec fn is_bare(base: Seq<char>) -> bool {
    ||| is_host_text(base)
    ||| exists|k: int| #[trigger] is_split(base, k)
}

/// Whether a scheme of so many characters stands in front of a host.
pub open spec fn is_split(base: Seq<char>, k: int) -> bool {
    &&& 0 <= k < base.len() - 3
    &&& is_host_text(base.take(k))
    &&& base.subrange(k, k + 3) == "://"@
    &&& is_host_text(base.skip(k + 3))
}

proof fn lemma_no_trailing(s: Seq<char>, c: char)
    ensures
        text::without_trailing(s, c).len() > 0 ==> text::without_trailing(s, c).last() != c,
    decreases s.len(),
{
    if s.len() > 0 && s.last() == c {
        lemma_no_trailing(s.drop_last(), c);
    }
}

/// What comes before the end of a host holds no character that ends one.
proof fn lemma_host_len(s: Seq<char>)
    ensures
        host_len(s) <= s.len(),
        is_host_text(s.take(host_len(s) as int)),
        host_len(s) < s.len() ==> ends_host(s[host_len(s) as int]),
    decreases s.len(),
{
    if s.len() > 0 && !ends_host(s[0]) {
        let rest = s.skip(1);
        lemma_host_len(rest);
        let k = host_len(s) as int;
        assert forall|i: int| 0 <= i < k implies !ends_host(#[trigger] s.take(k)[i]) by {
            if i > 0 {
                assert(rest.take(k - 1)[i - 1] == s[i]);
            }
        }
    }
}

/// A host ends where the first character that ends one stands.
proof fn lemma_host_ends(host: Seq<char>, rest: Seq<char>)
    requires
        is_host_text(host),
        rest.len() > 0 ==> ends_host(rest[0]),
    ensures
        host_len(host + rest) == host.len(),
    decreases host.len(),
{
    let whole = host + rest;
    if host.len() > 0 {
        let tail = host.skip(1);
        assert(whole[0] == host[0]);
        assert(whole.skip(1) =~= tail + rest);
        assert forall|i: int| 0 <= i < tail.len() implies !ends_host(#[trigger] tail[i]) by {
            assert(tail[i] == host[i + 1]);
        }
        lemma_host_ends(tail, rest);
    } else {
        assert(whole =~= rest);
    }
}

/// Whatever was pasted behind the host and port of the cloud's address, and
/// whatever white space around: scheme, host and port come out.
pub proof fn law_base_url_comes_out(
    lead: Seq<char>,
    scheme: Seq<char>,
    host: Seq<char>,
    rest: Seq<char>,
    tail: Seq<char>,
)
    requires
        text::is_blank(lead),
        text::is_blank(tail),
        is_host_text(scheme),
        scheme.len() > 0 ==> !text::is_white_space(scheme[0]),
        is_host_text(host),
        host.len() > 0,
        rest.len() > 0 ==> ends_host(rest[0]) && !text::is_white_space(rest.last()),
        rest.len() == 0 ==> !text::is_white_space(host.last()),
    ensures
        normalised(lead + (scheme + "://"@ + host + rest) + tail) == scheme + "://"@ + host,
{
    reveal_strlit("://");
    reveal_strlit("//");
    let s = scheme + "://"@ + host + rest;
    text::lemma_trim_padded(lead, s, tail);
    let front = scheme.push(':');
    let behind = "//"@ + host + rest;
    assert(s =~= front + behind);
    lemma_host_ends(front, behind);
    let k = front.len() as int;
    assert(s.skip(k) =~= behind);
    assert(behind.take(2) =~= "//"@);
    assert(s[k - 1] == ':');
    assert(s.skip(k + 2) =~= host + rest);
    lemma_host_ends(host, rest);
    assert(s.take(k + 2 + host.len()) =~= scheme + "://"@ + host);
    assert((scheme + "://"@ + host).last() == host[host.len() - 1]);
}

/// Whatever the user gave, the base address is bare.
pub proof fn law_base_url_is_bare(input: Seq<char>)
    ensures
        is_bare(normalised(input)),
{
    reveal_strlit("://");
    reveal_strlit("//");
    let s = text::trimmed(input);
    let k = host_len(s) as int;
    lemma_host_len(s);
    let base = normalised(input);
    if k > 0 && s[k - 1] == ':' && text::begins_with(s.skip(k), "//"@) {
        let behind = s.skip(k + 2);
        let h = host_len(behind) as int;
        lemma_host_len(behind);
        let found = s.take(k + 2 + h);
        assert(found == origin(s));
        let two = s.skip(k).take(2);
        assert(two[0] == '/' && two[1] == '/');
        assert(s[k] == '/' && s[k + 1] == '/');
        if h == 0 {
            assert(found.last() == '/');
            assert(found.drop_last().last() == '/');
            assert(found.drop_last().drop_last() =~= s.take(k));
            assert(s.take(k).last() == ':');
            assert(text::without_trailing(found.drop_last().drop_last(), '/') == s.take(k));
            assert(text::without_trailing(found.drop_last(), '/') == s.take(k));
            assert(base == s.take(k));
        } else {
            assert(found.last() == behind.take(h)[h - 1]);
            assert(base == found);
            let scheme = found.take(k - 1);
            assert forall|i: int| 0 <= i < scheme.len() implies !ends_host(
                #[trigger] scheme[i],
            ) by {
                assert(s.take(k)[i] == scheme[i]);
            }
            assert(found.subrange(k - 1, k + 2) =~= "://"@);
            assert(found.skip(k + 2) =~= behind.take(h));
            assert(is_split(base, k - 1));
        }
    } else {
        let found = s.take(k);
        if k > 0 {
            assert(!ends_host(found[k - 1]));
        }
        assert(base == found);
    }
}

/// A base address never ends with a slash, so that a path can be put behind it.
pub proof fn law_base_url_has_no_trailing_slash(input: Seq<char>)
    ensures
        normalised(input).len() > 0 ==> normalised(input).last() != '/',
{
    lemma_no_trailing(origin(text::trimmed(input)), '/');
}

/// How the daemon is enrolled.
#[derive(Debug)]
pub struct EnrolPlan {
    /// Where the signing request is posted.
    pub url: String,
    /// The header that shows the API key.
    pub authorization: String,
    /// What to tell the user first.
    pub notes: Vec<String>,
}

/// What to tell the user before enrolling.
pub open spec fn enrol_notes(cloud_url: Seq<char>) -> Seq<Seq<char>> {
    let base = normalised(cloud_url);
    let going = "enrolling against "@ + (base + "/v1/agent/enroll"@);
    if base == text::without_trailing(cloud_url, '/') {
        seq![going]
    } else {
        seq!["note: stripped trailing path from --enrol; using base URL "@ + base, going]
    }
}

/// Plans an enrolment at a cloud, with an API key.
pub fn plan_enrol(cloud_url: &str, api_key: &str) -> (res: EnrolPlan)
    ensures
        res.url@ == normalised(cloud_url@) + "/v1/agent/enroll"@,
        res.authorization@ == "Bearer "@ + api_key@,
        config::texts(res.notes@) == enrol_notes(cloud_url@),
{
    let base = normalise_cloud_url(cloud_url);
    let url = text::text2(base.as_str(), "/v1/agent/enroll");
    let mut notes: Vec<String> = Vec::new();
    if !text::same_text(base.as_str(), text::trim_end_matches(cloud_url, '/')) {
        notes.push(
            text::text2(
                "note: stripped trailing path from --enrol; using base URL ",
                base.as_str(),
            ),
        );
    }
    notes.push(text::text2("enrolling against ", url.as_str()));
    assert(config::texts(notes@) =~= enrol_notes(cloud_url@));
    EnrolPlan { url, authorization: text::text2("Bearer ", api_key), notes }
}

// ── The cloud's answer to an enrolment ──────────────────────────────

/// What a successful enrolment gives.
#[derive(Debug)]
pub struct Enrolled {
    pub token: String,
    pub cert_handle: String,
}

/// The body of the cloud's answer, as far as it is looked at.
#[derive(Debug)]
pub struct ReplyBody {
    pub error: Option<String>,
    pub token: Option<String>,
    pub cert_handle: Option<String>,
    /// The whole of it, as text.
    pub text: String,
}

/// How many characters of an answer that is no JSON are shown.
pub const PREVIEW_CHARS: usize = 200;

/// The beginning of a text, as far as it is shown.
pub open spec fn preview_of(s: Seq<char>) -> Seq<char> {
    if s.len() > PREVIEW_CHARS {
        s.take(PREVIEW_CHARS as int)
    } else {
        s
    }
}

/// What to say of an answer that is no JSON.
pub open spec fn not_json(status: Seq<char>, preview: Seq<char>, e: Seq<char>) -> Seq<char> {
    "enrolment endpoint returned non-JSON response (status "@ + status
        + ")\n\nThis usually means the --enrol URL is wrong. Make sure you're\npassing the cloud's base URL (e.g. https://mcp.example.com),\nnot the MCP endpoint (e.g. https://mcp.example.com/v1/mcp).\n\nServer returned: "@
        + preview + "\nParse error: "@ + e
}

/// The beginning of a text, as far as it is shown.
pub fn preview(s: &str) -> (res: &str)
    ensures
        res@ == preview_of(s@),
{
    let n: usize = s.unicode_len();
    if n > PREVIEW_CHARS {
        proof {
            assert(s@.subrange(0, PREVIEW_CHARS as int) =~= s@.take(PREVIEW_CHARS as int));
        }
        s.substring_char(0, PREVIEW_CHARS)
    } else {
        s
    }
}

/// Whether a status says success.
pub open spec fn is_success(code: u16) -> bool {
    200 <= code < 300
}

/// The text, or another one if there is none.
pub open spec fn text_or(s: Option<Seq<char>>, otherwise: Seq<char>) -> Seq<char> {
    match s {
        Some(s) => s,
        None => otherwise,
    }
}

/// What the cloud's answer comes to: the token and the certificate's handle, or
/// what went wrong. It is given by its status, as a number and as text, by the
/// fields of its body, and by the whole of that.
pub open spec fn verdict(
    code: u16,
    status: Seq<char>,
    error: Option<Seq<char>>,
    token: Option<Seq<char>>,
    cert_handle: Option<Seq<char>>,
    whole: Seq<char>,
) -> Result<(Seq<char>, Seq<char>), failure::FailureModel> {
    if !is_success(code) {
        Err(
            failure::plain(
                "enrolment rejected ("@ + status + "): "@ + text_or(error, "(unknown error)"@),
            ),
        )
    } else {
        match token {
            None => Err(failure::plain("response missing `token` field: "@ + whole)),
            Some(token) => Ok((token, text_or(cert_handle, "(unknown)"@))),
        }
    }
}

/// Judges the cloud's answer: its status, as a number and as text, and its
/// body.
pub fn judge_reply(code: u16, status: &str, body: ReplyBody) -> (res: Result<Enrolled, Failure>)
    ensures
        match (
            res,
            verdict(
                code,
                status@,
                text::said(body.error),
                text::said(body.token),
                text::said(body.cert_handle),
                body.text@,
            ),
        ) {
            (Ok(enrolled), Ok((token, handle))) => {
                &&& enrolled.token@ == token
                &&& enrolled.cert_handle@ == handle
            },
            (Err(e), Err(why)) => e@ == why,
            _ => false,
        },
{
    if !(200 <= code && code < 300) {
        let error = match body.error {
            Some(e) => e,
            None => "(unknown error)".to_string(),
        };
        return Err(
            Failure::new(text::text4("enrolment rejected (", status, "): ", error.as_str())),
        );
    }
    match body.token {
        None => Err(
            Failure::new(text::text2("response missing `token` field: ", body.text.as_str())),
        ),
        Some(token) => {
            let cert_handle = match body.cert_handle {
                Some(handle) => handle,
                None => "(unknown)".to_string(),
            };
            Ok(Enrolled { token, cert_handle })
        },
    }
}

/// What to say of an answer that is no JSON.
pub fn complain(status: &str, answer: &str, e: &str) -> (res: Failure)
    ensures
        res@ == failure::plain(not_json(status@, preview_of(answer@), e@)),
{
    let mut message = text::text5(
        "enrolment endpoint returned non-JSON response (status ",
        status,
        ")\n\nThis usually means the --enrol URL is wrong. Make sure you're\npassing the cloud's base URL (e.g. https://mcp.example.com),\nnot the MCP endpoint (e.g. https://mcp.example.com/v1/mcp).\n\nServer returned: ",
        preview(answer),
        "\nParse error: ",
    );
    message.append(e);
    Failure::new(message)
}

/// What a field of the answer says, if it says something.
pub open spec fn field_of(json: Seq<u8>, key: Seq<char>) -> Option<Seq<char>> {
    match deps::json_str_of(json, key) {
        Ok(s) => s,
        Err(_) => None,
    }
}

/// The field of an answer that is JSON.
fn field(json: &[u8], key: &str) -> (res: Option<String>)
    ensures
        match (res, field_of(json@, key@)) {
            (Some(s), Some(m)) => s@ == m,
            (None, None) => true,
            _ => false,
        },
{
    match deps::json_str(json, key) {
        Ok(s) => s,
        Err(_) => None,
    }
}

/// Reads the cloud's answer to an enrolment: the token and the certificate's
/// handle, or what went wrong.
pub fn read_reply(code: u16, status: &str, answer: &[u8]) -> (res: Result<Enrolled, Failure>)
    ensures
        match deps::json_text_of(answer@) {
            Err(e) => res is Err && res->Err_0@ == failure::plain(
                not_json(status@, preview_of(deps::lossy_of(answer@)), e),
            ),
            Ok(whole) => match (
                res,
                verdict(
                    code,
                    status@,
                    field_of(answer@, "error"@),
                    field_of(answer@, "token"@),
                    field_of(answer@, "cert_handle"@),
                    whole,
                ),
            ) {
                (Ok(enrolled), Ok((token, handle))) => {
                    &&& enrolled.token@ == token
                    &&& enrolled.cert_handle@ == handle
                },
                (Err(e), Err(why)) => e@ == why,
                _ => false,
            },
        },
{
    let whole = match deps::json_text(answer) {
        Ok(whole) => whole,
        Err(e) => {
            let shown = deps::lossy_text(answer);
            return Err(complain(status, shown.as_str(), e.as_str()));
        },
    };
    let body = ReplyBody {
        error: field(answer, "error"),
        token: field(answer, "token"),
        cert_handle: field(answer, "cert_handle"),
        text: whole,
    };
    judge_reply(code, status, body)
}

// ── Pairing ─────────────────────────────────────────────────────────

/// Where a token is.
#[derive(Debug)]
pub enum TokenSource {
    /// Given as it is.
    Inline(String),
    /// In the file at this path.
    File(String),
}

/// What `pair` is to do.
#[derive(Debug)]
pub enum PairPlan {
    /// Enrol at this cloud with this API key.
    Enrol { cloud_url: String, api_key: String },
    /// Make a signing request, and write it to this path or print it.
    Request { out: Option<String> },
    /// Install this token.
    Install(TokenSource),
}

/// What [`plan_pair`] does.
pub open spec fn is_pair_plan(
    token: Option<String>,
    out: Option<String>,
    enrol: Option<String>,
    api_key: Option<String>,
    res: Result<PairPlan, Failure>,
) -> bool {
    match (token, enrol, api_key) {
        (Some(_), Some(_), _) => res is Err && res->Err_0@ == failure::plain(
            "--token and --enrol are mutually exclusive"@,
        ),
        (None, Some(_), None) => res is Err && res->Err_0@ == failure::plain(
            "--enrol requires --api-key"@,
        ),
        (None, Some(cloud_url), Some(api_key)) => res == Ok::<PairPlan, Failure>(
            PairPlan::Enrol { cloud_url, api_key },
        ),
        (None, None, _) => res == Ok::<PairPlan, Failure>(PairPlan::Request { out }),
        (Some(token), None, _) => {
            &&& res is Ok
            &&& match res->Ok_0 {
                PairPlan::Install(TokenSource::File(path)) => {
                    &&& text::begins_with(token@, "@"@)
                    &&& path@ == token@.skip(1)
                },
                PairPlan::Install(TokenSource::Inline(t)) => {
                    &&& !text::begins_with(token@, "@"@)
                    &&& t == token
                },
                _ => false,
            }
        },
    }
}

/// Decides what `pair` is to do. A token may be given as it is, or as `@` and
/// the path of a file that holds it.
pub fn plan_pair(
    token: Option<String>,
    out: Option<String>,
    enrol: Option<String>,
    api_key: Option<String>,
) -> (res: Result<PairPlan, Failure>)
    ensures
        is_pair_plan(token, out, enrol, api_key, res),
{
    if token.is_some() && enrol.is_some() {
        return Err(Failure::new("--token and --enrol are mutually exclusive".to_string()));
    }
    match enrol {
        Some(cloud_url) => {
            return match api_key {
                Some(api_key) => Ok(PairPlan::Enrol { cloud_url, api_key }),
                None => Err(Failure::new("--enrol requires --api-key".to_string())),
            };
        },
        None => {},
    }
    match token {
        None => Ok(PairPlan::Request { out }),
        Some(t) => {
            proof {
                reveal_strlit("@");
            }
            match text::strip_prefix(t.as_str(), "@") {
                Some(path) => Ok(PairPlan::Install(TokenSource::File(path.to_string()))),
                None => Ok(PairPlan::Install(TokenSource::Inline(t))),
            }
        },
    }
}

/// What to say of the daemon's key pair.
pub fn keypair_line(was_new: bool, key_path: &str) -> (res: String)
    ensures
        res@ == if was_new {
            "generated new daemon keypair at "@ + key_path@
        } else {
            "reusing existing daemon keypair at "@ + key_path@
        },
{
    if was_new {
        text::text2("generated new daemon keypair at ", key_path)
    } else {
        text::text2("reusing existing daemon keypair at ", key_path)
    }
}

/// A token is of no use without the key that its certificate is for.
pub fn require_key(key_exists: bool, key_path: &str) -> (res: Result<(), Failure>)
    ensures
        res is Ok <==> key_exists,
        res matches Err(e) ==> e@ == failure::plain(
            "no daemon keypair at "@ + key_path@
                + " — run `membrane-daemon pair` (no args) first to generate one and produce a CSR"@,
        ),
{
    if key_exists {
        Ok(())
    } else {
        Err(
            Failure::new(
                text::text3(
                    "no daemon keypair at ",
                    key_path,
                    " — run `membrane-daemon pair` (no args) first to generate one and produce a CSR",
                ),
            ),
        )
    }
}

/// The event of a pairing with a token.
pub fn paired_event(endpoint: &str) -> (res: Event)
    ensures
        res@ == (audit::EventModel::Lifecycle {
            event: "paired"@,
            detail: "endpoint="@ + endpoint@,
        }),
{
    let detail = text::text2("endpoint=", endpoint);
    audit::lifecycle("paired", detail.as_str())
}

/// The event of a pairing by enrolment.
pub fn enrolled_event(endpoint: &str, cert_handle: &str) -> (res: Event)
    ensures
        res@ == (audit::EventModel::Lifecycle {
            event: "paired_via_enrol"@,
            detail: "endpoint="@ + endpoint@ + " cert="@ + cert_handle@,
        }),
{
    let detail = text::text4("endpoint=", endpoint, " cert=", cert_handle);
    audit::lifecycle("paired_via_enrol", detail.as_str())
}

/// The lines on an installed token: where its parts are, the endpoint, the one
/// before it if that was another, and the label if there is one.
pub open spec fn paired_lines(
    title: Seq<char>,
    cert_path: Seq<char>,
    pin_path: Seq<char>,
    endpoint: Seq<char>,
    previous: Option<Seq<char>>,
    label: Option<Seq<char>>,
) -> Seq<Seq<char>> {
    let fixed = seq![
        title,
        "  daemon cert: "@ + cert_path,
        "  cloud pin:   "@ + pin_path,
        "  endpoint:    "@ + endpoint,
    ];
    let more = match previous {
        Some(previous) => fixed.push("  (previous endpoint was: "@ + previous + ")"@),
        None => fixed,
    };
    match label {
        Some(label) => more.push("  label:       "@ + label),
        None => more,
    }
}

/// Appends a line.
fn say(out: &mut Vec<String>, line: String)
    ensures
        config::texts(final(out)@) == config::texts(old(out)@).push(line@),
{
    out.push(line);
    assert(config::texts(out@) =~= config::texts(old(out)@).push(line@));
}

/// The lines on an installed token.
pub fn report_paired(
    title: &str,
    cert_path: &str,
    pin_path: &str,
    endpoint: &str,
    previous: Option<&str>,
    label: Option<&str>,
) -> (res: Vec<String>)
    ensures
        config::texts(res@) == paired_lines(
            title@,
            cert_path@,
            pin_path@,
            endpoint@,
            text::slice_said(previous),
            text::slice_said(label),
        ),
{
    let mut out: Vec<String> = Vec::new();
    say(&mut out, title.to_string());
    say(&mut out, text::text2("  daemon cert: ", cert_path));
    say(&mut out, text::text2("  cloud pin:   ", pin_path));
    say(&mut out, text::text2("  endpoint:    ", endpoint));
    proof {
        assert(config::texts(out@) =~= seq![
            title@,
            "  daemon cert: "@ + cert_path@,
            "  cloud pin:   "@ + pin_path@,
            "  endpoint:    "@ + endpoint@,
        ]);
    }
    match previous {
        Some(previous) => {
            say(&mut out, text::text3("  (previous endpoint was: ", previous, ")"));
        },
        None => {},
    }
    match label {
        Some(label) => {
            say(&mut out, text::text2("  label:       ", label));
        },
        None => {},
    }
    out
}

// ── Changing the policy ─────────────────────────────────────────────

/// Why a mode cannot be chosen with those roots and binaries, if it cannot.
pub open spec fn mode_refused(mode: Seq<char>, roots: nat, allow_bins: nat) -> Option<Seq<char>> {
    if mode == "unrestricted"@ {
        None
    } else if mode == "workspace"@ {
        if roots == 0 {
            Some("workspace mode requires at least one --root"@)
        } else {
            None
        }
    } else if mode == "allowlist"@ || mode == "workspaceallowlistexec"@ {
        if roots == 0 {
            Some("allowlist mode requires at least one --root"@)
        } else if allow_bins == 0 {
            Some("allowlist mode requires at least one --allow-bin"@)
        } else {
            None
        }
    } else if mode == "readonly"@ {
        if roots == 0 {
            Some("readonly mode requires at least one --root"@)
        } else {
            None
        }
    } else {
        Some(
            "unknown mode '"@ + mode
                + "'; use: unrestricted, workspace, allowlist, readonly"@,
        )
    }
}

/// The policy of a mode that can be chosen.
pub open spec fn mode_policy(
    mode: Seq<char>,
    roots: Seq<Seq<char>>,
    allow_bins: Seq<Seq<char>>,
) -> config::PolicyModel {
    if mode == "unrestricted"@ {
        config::PolicyModel::Unrestricted
    } else if mode == "workspace"@ {
        config::PolicyModel::Workspace { roots }
    } else if mode == "readonly"@ {
        config::PolicyModel::ReadOnly { roots }
    } else {
        config::PolicyModel::WorkspaceAllowlistExec { roots, exec_allowlist: allow_bins }
    }
}

/// The policy of a mode, named in lower case.
pub fn choose_mode(mode: &str, roots: Vec<String>, allow_bins: Vec<String>) -> (res: Result<
    PolicyMode,
    Failure,
>)
    ensures
        match (res, mode_refused(mode@, roots@.len(), allow_bins@.len())) {
            (Ok(policy), None) => policy@ == mode_policy(
                mode@,
                config::texts(roots@),
                config::texts(allow_bins@),
            ),
            (Err(e), Some(why)) => e@ == failure::plain(why),
            _ => false,
        },
{
    proof {
        reveal_strlit("unrestricted");
        reveal_strlit("workspace");
        reveal_strlit("allowlist");
        reveal_strlit("workspaceallowlistexec");
        reveal_strlit("readonly");
        assert("unrestricted"@.len() == 12 && "workspace"@.len() == 9 && "allowlist"@.len() == 9
            && "workspaceallowlistexec"@.len() == 22 && "readonly"@.len() == 8);
        assert("workspace"@[0] == 'w' && "allowlist"@[0] == 'a');
    }
    if text::same_text(mode, "unrestricted") {
        return Ok(PolicyMode::Unrestricted);
    }
    if text::same_text(mode, "workspace") {
        if roots.len() == 0 {
            return Err(Failure::new("workspace mode requires at least one --root".to_string()));
        }
        return Ok(PolicyMode::Workspace { roots });
    }
    if text::same_text(mode, "allowlist") || text::same_text(mode, "workspaceallowlistexec") {
        if roots.len() == 0 {
            return Err(Failure::new("allowlist mode requires at least one --root".to_string()));
        }
        if allow_bins.len() == 0 {
            return Err(
                Failure::new("allowlist mode requires at least one --allow-bin".to_string()),
            );
        }
        return Ok(PolicyMode::WorkspaceAllowlistExec { roots, exec_allowlist: allow_bins });
    }
    if text::same_text(mode, "readonly") {
        if roots.len() == 0 {
            return Err(Failure::new("readonly mode requires at least one --root".to_string()));
        }
        return Ok(PolicyMode::ReadOnly { roots });
    }
    Err(
        Failure::new(
            text::text3(
                "unknown mode '",
                mode,
                "'; use: unrestricted, workspace, allowlist, readonly",
            ),
        ),
    )
}

/// A configuration with another policy.
pub open spec fn with_policy(
    cfg: config::ConfigModel,
    policy: config::PolicyModel,
) -> config::ConfigModel {
    config::ConfigModel { policy, ..cfg }
}

/// The configuration with the policy of a mode, named in any case.
pub fn change_mode(cfg: Config, mode: &str, roots: Vec<String>, allow_bins: Vec<String>) -> (res:
    Result<Config, Failure>)
    ensures
        match (res, mode_refused(deps::lower_of(mode@), roots@.len(), allow_bins@.len())) {
            (Ok(new), None) => new@ == with_policy(
                cfg@,
                mode_policy(
                    deps::lower_of(mode@),
                    config::texts(roots@),
                    config::texts(allow_bins@),
                ),
            ),
            (Err(e), Some(why)) => e@ == failure::plain(why),
            _ => false,
        },
{
    let lower = deps::lower_text(mode);
    match choose_mode(lower.as_str(), roots, allow_bins) {
        Ok(policy) => Ok(
            Config {
                endpoint: cfg.endpoint,
                policy,
                max_exec_timeout_ms: cfg.max_exec_timeout_ms,
                max_output_bytes: cfg.max_output_bytes,
                max_read_bytes: cfg.max_read_bytes,
            },
        ),
        Err(e) => Err(e),
    }
}

/// A mode that confines the daemon names what it is confined to: at least one
/// root, and at least one binary for an allowlist.
pub proof fn law_confining_modes_have_roots(
    mode: Seq<char>,
    roots: Seq<Seq<char>>,
    allow_bins: Seq<Seq<char>>,
)
    requires
        mode_refused(mode, roots.len(), allow_bins.len()) is None,
    ensures
        mode_policy(mode, roots, allow_bins).roots() matches Some(r) ==> r == roots && r.len() > 0,
        mode_policy(mode, roots, allow_bins) is WorkspaceAllowlistExec ==> allow_bins.len() > 0,
        mode_policy(mode, roots, allow_bins) is Unrestricted <==> mode == "unrestricted"@,
{
}

// ── Running ─────────────────────────────────────────────────────────

/// The event of a daemon that starts.
pub fn startup_event(version: &str, cfg: &Config) -> (res: Event)
    ensures
        res@ == (audit::EventModel::Lifecycle {
            event: "startup"@,
            detail: "daemon v"@ + version@ + " mode="@ + cfg@.policy.mode_name() + " endpoint="@
                + cfg@.endpoint,
        }),
{
    let mut detail = text::text5("daemon v", version, " mode=", cfg.policy.name(), " endpoint=");
    detail.append(cfg.endpoint.as_str());
    audit::lifecycle("startup", detail.as_str())
}

/// The event of a daemon that stops, with the error that it stopped with.
pub fn shutdown_event(error: Option<&str>) -> (res: Event)
    ensures
        res@ == (audit::EventModel::Lifecycle {
            event: "shutdown"@,
            detail: match error {
                None => "clean"@,
                Some(e) => "error: "@ + e@,
            },
        }),
{
    match error {
        None => audit::lifecycle("shutdown", "clean"),
        Some(e) => {
            let detail = text::text2("error: ", e);
            audit::lifecycle("shutdown", detail.as_str())
        },
    }
}

/// The event of a daemon that stops serving its standard input, with the error
/// that it stopped with.
pub fn stdio_shutdown_event(error: Option<&str>) -> (res: Event)
    ensures
        res@ == (audit::EventModel::Lifecycle {
            event: "shutdown"@,
            detail: match error {
                None => "clean"@,
                Some(e) => e@,
            },
        }),
{
    match error {
        None => audit::lifecycle("shutdown", "clean"),
        Some(e) => audit::lifecycle("shutdown", e),
    }
}

/// A prefix before each of some texts.
pub open spec fn listed(prefix: Seq<char>, items: Seq<Seq<char>>) -> Seq<Seq<char>> {
    items.map_values(|item: Seq<char>| prefix + item)
}

/// Appends a line for each of some texts.
fn say_each(out: &mut Vec<String>, prefix: &str, items: &[String])
    ensures
        config::texts(final(out)@) == config::texts(old(out)@) + listed(
            prefix@,
            config::texts(items@),
        ),
{
    let ghost all = listed(prefix@, config::texts(items@));
    let ghost before = config::texts(out@);
    let n: usize = items.len();
    let mut i: usize = 0;
    proof {
        assert(before + all.take(0) =~= before);
    }
    while i < n
        invariant
            n == items@.len(),
            i <= n,
            all == listed(prefix@, config::texts(items@)),
            config::texts(out@) == before + all.take(i as int),
        decreases n - i,
    {
        say(out, text::text2(prefix, items[i].as_str()));
        proof {
            assert(all[i as int] == prefix@ + items@[i as int]@);
            assert(before + all.take(i + 1) =~= (before + all.take(i as int)).push(
                all[i as int],
            ));
        }
        i += 1;
    }
    proof {
        assert(all.take(n as int) =~= all);
    }
}

/// What the daemon says when it starts.
pub open spec fn banner_lines(version: Seq<char>, cfg: config::ConfigModel) -> Seq<Seq<char>> {
    seq![
        "membrane-daemon v"@ + version + " starting"@,
        "  endpoint: "@ + cfg.endpoint,
        "  policy:   "@ + cfg.policy.mode_name(),
    ] + match cfg.policy.roots() {
        Some(roots) => listed("    root: "@, roots),
        None => Seq::empty(),
    }
}

/// What the daemon says when it starts.
pub fn banner(version: &str, cfg: &Config) -> (res: Vec<String>)
    ensures
        config::texts(res@) == banner_lines(version@, cfg@),
{
    let mut out: Vec<String> = Vec::new();
    say(&mut out, text::text3("membrane-daemon v", version, " starting"));
    say(&mut out, text::text2("  endpoint: ", cfg.endpoint.as_str()));
    say(&mut out, text::text2("  policy:   ", cfg.policy.name()));
    let ghost head = config::texts(out@);
    proof {
        assert(head =~= seq![
            "membrane-daemon v"@ + version@ + " starting"@,
            "  endpoint: "@ + cfg@.endpoint,
            "  policy:   "@ + cfg@.policy.mode_name(),
        ]);
        assert(head + Seq::<Seq<char>>::empty() =~= head);
    }
    match cfg.policy.roots() {
        Some(roots) => say_each(&mut out, "    root: ", roots),
        None => {},
    }
    out
}

// ── Status ──────────────────────────────────────────────────────────

/// Where the daemon's files are.
#[derive(Debug)]
pub struct Places {
    pub user_dir: String,
    pub user_policy: String,
    pub system_policy: String,
    pub cert_path: String,
    pub audit_dir: String,
}

/// The lines on the configuration.
pub open spec fn config_lines(cfg: config::ConfigModel) -> Seq<Seq<char>> {
    seq![
        "Configuration:"@,
        "  endpoint:           "@ + cfg.endpoint,
        "  policy mode:        "@ + cfg.policy.mode_name(),
    ] + match cfg.policy.roots() {
        Some(roots) => seq!["  workspace roots:"@] + listed("    - "@, roots),
        None => Seq::empty(),
    } + match cfg.policy {
        config::PolicyModel::WorkspaceAllowlistExec { exec_allowlist, .. } => seq![
            "  exec allowlist:"@,
        ] + listed("    - "@, exec_allowlist),
        _ => Seq::empty(),
    } + seq![
        "  max exec timeout:   "@ + text::decimal(cfg.max_exec_timeout_ms as nat) + " ms"@,
        "  max output:         "@ + text::decimal(cfg.max_output_bytes as nat) + " bytes"@,
        "  max single read:    "@ + text::decimal(cfg.max_read_bytes as nat) + " bytes"@,
    ]
}

/// The lines on the daemon's files and its service.
pub open spec fn place_lines(places: Places, cert: bool, service: Seq<char>) -> Seq<Seq<char>> {
    seq![
        "Paths:"@,
        "  user dir:           "@ + places.user_dir@,
        "  user policy:        "@ + places.user_policy@,
        "  system policy:      "@ + places.system_policy@,
        "  cert:               "@ + places.cert_path@,
        "  audit dir:          "@ + places.audit_dir@,
        "  cert status:        "@ + if cert {
            "present"@
        } else {
            "missing (run `pair`)"@
        },
        "  service status:     "@ + service,
    ]
}

/// The lines on the configuration.
pub fn report_config(cfg: &Config) -> (res: Vec<String>)
    ensures
        config::texts(res@) == config_lines(cfg@),
{
    let mut out: Vec<String> = Vec::new();
    say(&mut out, "Configuration:".to_string());
    say(&mut out, text::text2("  endpoint:           ", cfg.endpoint.as_str()));
    say(&mut out, text::text2("  policy mode:        ", cfg.policy.name()));
    let ghost head = seq![
        "Configuration:"@,
        "  endpoint:           "@ + cfg@.endpoint,
        "  policy mode:        "@ + cfg@.policy.mode_name(),
    ];
    proof {
        assert(config::texts(out@) =~= head);
    }
    let ghost rooted: Seq<Seq<char>> = match cfg@.policy.roots() {
        Some(roots) => seq!["  workspace roots:"@] + listed("    - "@, roots),
        None => Seq::empty(),
    };
    match cfg.policy.roots() {
        Some(roots) => {
            say(&mut out, "  workspace roots:".to_string());
            say_each(&mut out, "    - ", roots);
        },
        None => {},
    }
    proof {
        assert(config::texts(out@) =~= head + rooted);
    }
    let ghost allowed: Seq<Seq<char>> = match cfg@.policy {
        config::PolicyModel::WorkspaceAllowlistExec { exec_allowlist, .. } => seq![
            "  exec allowlist:"@,
        ] + listed("    - "@, exec_allowlist),
        _ => Seq::empty(),
    };
    match &cfg.policy {
        PolicyMode::WorkspaceAllowlistExec { exec_allowlist, .. } => {
            say(&mut out, "  exec allowlist:".to_string());
            say_each(&mut out, "    - ", exec_allowlist.as_slice());
        },
        _ => {},
    }
    proof {
        assert(config::texts(out@) =~= head + rooted + allowed);
    }
    let timeout = text::decimal_text(cfg.max_exec_timeout_ms as u64);
    let output = text::decimal_text(cfg.max_output_bytes);
    let read = text::decimal_text(cfg.max_read_bytes);
    say(&mut out, text::text3("  max exec timeout:   ", timeout.as_str(), " ms"));
    say(&mut out, text::text3("  max output:         ", output.as_str(), " bytes"));
    say(&mut out, text::text3("  max single read:    ", read.as_str(), " bytes"));
    proof {
        assert(config::texts(out@) =~= config_lines(cfg@));
    }
    out
}

/// The lines on the daemon's files and its service.
pub fn report_places(places: &Places, cert: bool, service: &str) -> (res: Vec<String>)
    ensures
        config::texts(res@) == place_lines(*places, cert, service@),
{
    let mut out: Vec<String> = Vec::new();
    say(&mut out, "Paths:".to_string());
    say(&mut out, text::text2("  user dir:           ", places.user_dir.as_str()));
    say(&mut out, text::text2("  user policy:        ", places.user_policy.as_str()));
    say(&mut out, text::text2("  system policy:      ", places.system_policy.as_str()));
    say(&mut out, text::text2("  cert:               ", places.cert_path.as_str()));
    say(&mut out, text::text2("  audit dir:          ", places.audit_dir.as_str()));
    let status: &str = if cert {
        "present"
    } else {
        "missing (run `pair`)"
    };
    say(&mut out, text::text2("  cert status:        ", status));
    say(&mut out, text::text2("  service status:     ", service));
    proof {
        assert(config::texts(out@) =~= place_lines(*places, cert, service@));
    }
    out
}

// ── Laws ────────────────────────────────────────────────────────────

/// A base address without a scheme comes out as its host and port.
pub proof fn law_bare_host_comes_out(
    lead: Seq<char>,
    host: Seq<char>,
    rest: Seq<char>,
    tail: Seq<char>,
)
    requires
        text::is_blank(lead),
        text::is_blank(tail),
        is_host_text(host),
        host.len() > 0,
        !text::is_white_space(host[0]),
        host.last() != ':',
        rest.len() > 0 ==> ends_host(rest[0]) && !text::is_white_space(rest.last()),
        rest.len() == 0 ==> !text::is_white_space(host.last()),
    ensures
        normalised(lead + (host + rest) + tail) == host,
{
    let s = host + rest;
    text::lemma_trim_padded(lead, s, tail);
    lemma_host_ends(host, rest);
    let k = host.len() as int;
    assert(s[k - 1] == host[k - 1]);
    assert(s.take(k) =~= host);
    assert(!ends_host(host[k - 1]));
}

/// A slash, a question mark and a hash sign end a host, and nothing else does.
pub proof fn law_host_endings(c: char)
    ensures
        ends_host(c) <==> c == '/' || c == '?' || c == '#',
{
}

/// A user is told where the daemon is enrolled, and that something was taken off
/// the address if it was.
pub proof fn law_enrolment_is_announced(cloud_url: Seq<char>)
    ensures
        ({
            let base = normalised(cloud_url);
            let notes = enrol_notes(cloud_url);
            &&& notes.len() == 1 || notes.len() == 2
            &&& notes.last() == "enrolling against "@ + (base + "/v1/agent/enroll"@)
            &&& notes.len() == 1 <==> base == text::without_trailing(cloud_url, '/')
            &&& notes.len() == 2 ==> notes[0]
                == "note: stripped trailing path from --enrol; using base URL "@ + base
        }),
{
}

/// Success is what HTTP calls so.
pub proof fn law_success_codes(code: u16)
    ensures
        is_success(code) <==> 200 <= code <= 299,
{
}

/// Of an answer that is no JSON, the first two hundred characters are shown, and
/// all of a shorter one.
pub proof fn law_preview_is_the_beginning(s: Seq<char>, rest: Seq<char>)
    ensures
        s.len() <= 200 ==> preview_of(s) == s,
        s.len() == 200 ==> preview_of(s + rest) == s,
{
    if s.len() == 200 {
        assert((s + rest).take(200) =~= s);
        if rest.len() == 0 {
            assert(s + rest =~= s);
        }
    }
}

/// What is said of an answer that is no JSON holds its status, its beginning and
/// the parser's words.
pub proof fn law_complaint_says_what_came(status: Seq<char>, preview: Seq<char>, e: Seq<char>)
    ensures
        text::begins_with(
            not_json(status, preview, e),
            "enrolment endpoint returned non-JSON response (status "@ + status,
        ),
        exists|front: Seq<char>|
            not_json(status, preview, e) == #[trigger] (front + preview + "\nParse error: "@ + e),
{
    let whole = not_json(status, preview, e);
    let head = "enrolment endpoint returned non-JSON response (status "@ + status;
    assert(whole.take(head.len() as int) =~= head);
    let front = head
        + ")\n\nThis usually means the --enrol URL is wrong. Make sure you're\npassing the cloud's base URL (e.g. https://mcp.example.com),\nnot the MCP endpoint (e.g. https://mcp.example.com/v1/mcp).\n\nServer returned: "@;
    assert(whole =~= front + preview + "\nParse error: "@ + e);
}

/// What `pair` does follows from what it was given: a token is installed, an
/// address with an API key is enrolled at, and with neither a request is made. A
/// token and an address exclude each other, and an address needs a key.
pub proof fn law_pairing_does_what_was_asked(
    token: Option<String>,
    out: Option<String>,
    enrol: Option<String>,
    api_key: Option<String>,
    res: Result<PairPlan, Failure>,
)
    requires
        is_pair_plan(token, out, enrol, api_key, res),
    ensures
        token is Some && enrol is Some ==> res is Err,
        token is None && enrol is Some && api_key is None ==> res is Err,
        token is None && enrol is None ==> res == Ok::<PairPlan, Failure>(
            PairPlan::Request { out },
        ),
        token is None && enrol is Some && api_key is Some ==> res == Ok::<PairPlan, Failure>(
            PairPlan::Enrol { cloud_url: enrol->Some_0, api_key: api_key->Some_0 },
        ),
        enrol is None ==> (token matches Some(t) ==> {
            &&& res is Ok
            &&& res->Ok_0 is Install
            &&& (t@.len() == 0 || t@[0] != '@') ==> res->Ok_0->Install_0 == TokenSource::Inline(t)
            &&& (t@.len() > 0 && t@[0] == '@') ==> {
                &&& res->Ok_0->Install_0 is File
                &&& seq!['@'] + res->Ok_0->Install_0->File_0@ == t@
            }
        }),
{
    reveal_strlit("@");
    if token is Some && enrol is None {
        let t = token->Some_0@;
        if t.len() > 0 {
            assert(t.take(1)[0] == t[0]);
            if t[0] == '@' {
                assert(t.take(1) =~= "@"@);
                assert(seq!['@'] + t.skip(1) =~= t);
            }
        }
    }
}

/// Every mode can be chosen by its name with the roots and binaries that it needs,
/// and has exactly those; any other name is refused.
pub proof fn law_modes_are_chosen_by_name(
    mode: Seq<char>,
    roots: Seq<Seq<char>>,
    bins: Seq<Seq<char>>,
)
    ensures
        mode == "unrestricted"@ ==> mode_refused(mode, roots.len(), bins.len()) is None
            && mode_policy(mode, roots, bins) == config::PolicyModel::Unrestricted,
        mode == "workspace"@ ==> (mode_refused(mode, roots.len(), bins.len()) is None <==> roots.len()
            > 0) && mode_policy(mode, roots, bins) == (config::PolicyModel::Workspace { roots }),
        mode == "readonly"@ ==> (mode_refused(mode, roots.len(), bins.len()) is None <==> roots.len()
            > 0) && mode_policy(mode, roots, bins) == (config::PolicyModel::ReadOnly { roots }),
        mode == "allowlist"@ || mode == "workspaceallowlistexec"@ ==> (mode_refused(
            mode,
            roots.len(),
            bins.len(),
        ) is None <==> roots.len() > 0 && bins.len() > 0) && mode_policy(mode, roots, bins) == (
        config::PolicyModel::WorkspaceAllowlistExec { roots, exec_allowlist: bins }),
        mode != "unrestricted"@ && mode != "workspace"@ && mode != "readonly"@ && mode
            != "allowlist"@ && mode != "workspaceallowlistexec"@ ==> mode_refused(
            mode,
            roots.len(),
            bins.len(),
        ) is Some,
{
    reveal_strlit("unrestricted");
    reveal_strlit("workspace");
    reveal_strlit("allowlist");
    reveal_strlit("workspaceallowlistexec");
    reveal_strlit("readonly");
    assert("unrestricted"@.len() == 12 && "workspace"@.len() == 9 && "allowlist"@.len() == 9
        && "workspaceallowlistexec"@.len() == 22 && "readonly"@.len() == 8);
    assert("workspace"@[0] == 'w' && "allowlist"@[0] == 'a');
}

/// A mode that is refused is refused for what it lacks.
pub proof fn law_refused_modes_say_why(mode: Seq<char>, roots: nat, bins: nat)
    ensures
        mode == "workspace"@ && roots == 0 ==> mode_refused(mode, roots, bins) == Some(
            "workspace mode requires at least one --root"@,
        ),
        mode == "readonly"@ && roots == 0 ==> mode_refused(mode, roots, bins) == Some(
            "readonly mode requires at least one --root"@,
        ),
        mode == "allowlist"@ && roots == 0 ==> mode_refused(mode, roots, bins) == Some(
            "allowlist mode requires at least one --root"@,
        ),
        mode == "allowlist"@ && roots > 0 && bins == 0 ==> mode_refused(mode, roots, bins) == Some(
            "allowlist mode requires at least one --allow-bin"@,
        ),
{
    reveal_strlit("unrestricted");
    reveal_strlit("workspace");
    reveal_strlit("allowlist");
    reveal_strlit("workspaceallowlistexec");
    reveal_strlit("readonly");
    assert("unrestricted"@.len() == 12 && "workspace"@.len() == 9 && "allowlist"@.len() == 9
        && "workspaceallowlistexec"@.len() == 22 && "readonly"@.len() == 8);
    assert("workspace"@[0] == 'w' && "allowlist"@[0] == 'a');
}

/// A field of the cloud's answer is what it says, and another text only where it
/// says nothing.
pub proof fn law_missing_text_is_replaced(said: Seq<char>, otherwise: Seq<char>)
    ensures
        text_or(Some(said), otherwise) == said,
        text_or(None, otherwise) == otherwise,
{
}

/// Each of some texts gets a line of its own, in order, behind the prefix.
pub proof fn law_each_item_is_listed(prefix: Seq<char>, items: Seq<Seq<char>>, i: int)
    requires
        0 <= i < items.len(),
    ensures
        listed(prefix, items).len() == items.len(),
        listed(prefix, items)[i] == prefix + items[i],
{
}

/// The daemon says when it starts whom it dials, in which mode it is, and every
/// root that it is confined to.
pub proof fn law_banner_names_every_root(
    version: Seq<char>,
    cfg: config::ConfigModel,
    i: int,
)
    ensures
        ({
            let lines = banner_lines(version, cfg);
            &&& lines[0] == "membrane-daemon v"@ + version + " starting"@
            &&& lines[1] == "  endpoint: "@ + cfg.endpoint
            &&& lines[2] == "  policy:   "@ + cfg.policy.mode_name()
            &&& cfg.policy.roots() is None ==> lines.len() == 3
            &&& cfg.policy.roots() matches Some(roots) ==> {
                &&& lines.len() == 3 + roots.len()
                &&& 0 <= i < roots.len() ==> lines[3 + i] == "    root: "@ + roots[i]
            }
        }),
{
}

/// The status names every root and every binary on the allowlist, and ends with
/// the limits.
pub proof fn law_status_names_every_root(cfg: config::ConfigModel, i: int)
    ensures
        ({
            let lines = config_lines(cfg);
            let n = lines.len() as int;
            &&& lines[1] == "  endpoint:           "@ + cfg.endpoint
            &&& lines[2] == "  policy mode:        "@ + cfg.policy.mode_name()
            &&& cfg.policy is Unrestricted ==> n == 6
            &&& cfg.policy.roots() matches Some(roots) ==> {
                &&& lines[3] == "  workspace roots:"@
                &&& 0 <= i < roots.len() ==> lines[4 + i] == "    - "@ + roots[i]
            }
            &&& cfg.policy matches config::PolicyModel::WorkspaceAllowlistExec {
                roots,
                exec_allowlist,
            } ==> {
                &&& n == 8 + roots.len() + exec_allowlist.len()
                &&& lines[4 + roots.len() as int] == "  exec allowlist:"@
                &&& 0 <= i < exec_allowlist.len() ==> lines[5 + roots.len() as int + i]
                    == "    - "@ + exec_allowlist[i]
            }
            &&& lines[n - 3] == "  max exec timeout:   "@ + text::decimal(
                cfg.max_exec_timeout_ms as nat,
            ) + " ms"@
            &&& lines[n - 2] == "  max output:         "@ + text::decimal(
                cfg.max_output_bytes as nat,
            ) + " bytes"@
            &&& lines[n - 1] == "  max single read:    "@ + text::decimal(
                cfg.max_read_bytes as nat,
            ) + " bytes"@
        }),
{
}

/// The status says where the files are, and whether the certificate is there.
pub proof fn law_status_names_the_files(places: Places, cert: bool, service: Seq<char>)
    ensures
        ({
            let lines = place_lines(places, cert, service);
            &&& lines.len() == 8
            &&& lines[1] == "  user dir:           "@ + places.user_dir@
            &&& lines[2] == "  user policy:        "@ + places.user_policy@
            &&& lines[3] == "  system policy:      "@ + places.system_policy@
            &&& lines[4] == "  cert:               "@ + places.cert_path@
            &&& lines[5] == "  audit dir:          "@ + places.audit_dir@
            &&& cert ==> lines[6] == "  cert status:        "@ + "present"@
            &&& !cert ==> lines[6] == "  cert status:        "@ + "missing (run `pair`)"@
            &&& lines[7] == "  service status:     "@ + service
        }),
{
}

/// A pairing is reported with its files and its endpoint, with the endpoint before
/// if there was another, and with the label if there is one.
pub proof fn law_pairing_is_reported(
    title: Seq<char>,
    cert_path: Seq<char>,
    pin_path: Seq<char>,
    endpoint: Seq<char>,
    previous: Option<Seq<char>>,
    label: Option<Seq<char>>,
)
    ensures
        ({
            let lines = paired_lines(title, cert_path, pin_path, endpoint, previous, label);
            &&& lines[0] == title
            &&& lines[1] == "  daemon cert: "@ + cert_path
            &&& lines[2] == "  cloud pin:   "@ + pin_path
            &&& lines[3] == "  endpoint:    "@ + endpoint
            &&& previous matches Some(p) ==> lines[4] == "  (previous endpoint was: "@ + p + ")"@
            &&& label matches Some(l) ==> lines.last() == "  label:       "@ + l
            &&& lines.len() == 4 + (if previous is Some {
                1int
            } else {
                0
            }) + (if label is Some {
                1int
            } else {
                0
            })
        }),
{
}

/// An answer with a token is an enrolment, whatever else it says: the token is
/// handed on as it came, with the certificate's handle if the answer names one.
pub proof fn law_answer_with_a_token_enrols(
    code: u16,
    status: Seq<char>,
    error: Option<Seq<char>>,
    token: Seq<char>,
    cert_handle: Option<Seq<char>>,
    whole: Seq<char>,
)
    requires
        200 <= code <= 299,
    ensures
        ({
            let done = verdict(code, status, error, Some(token), cert_handle, whole);
            &&& done is Ok
            &&& done->Ok_0.0 == token
            &&& cert_handle matches Some(handle) ==> done->Ok_0.1 == handle
            &&& cert_handle is None ==> done->Ok_0.1 == "(unknown)"@
        }),
{
}

/// Any other answer is no enrolment: one that is no success is quoted with its
/// status and its error, and one without a token as a whole.
pub proof fn law_other_answers_do_not_enrol(
    code: u16,
    status: Seq<char>,
    error: Option<Seq<char>>,
    token: Option<Seq<char>>,
    cert_handle: Option<Seq<char>>,
    whole: Seq<char>,
)
    ensures
        ({
            let done = verdict(code, status, error, token, cert_handle, whole);
            &&& code < 200 || code > 299 ==> done is Err && done->Err_0.cause is None
                && done->Err_0.message == "enrolment rejected ("@ + status + "): "@ + match error {
                Some(e) => e,
                None => "(unknown error)"@,
            }
            &&& 200 <= code <= 299 && token is None ==> done is Err && done->Err_0.cause is None
                && done->Err_0.message == "response missing `token` field: "@ + whole
        }),
{
}

/// Changing the mode changes the policy and nothing else.
pub proof fn law_mode_changes_the_policy_only(
    cfg: config::ConfigModel,
    policy: config::PolicyModel,
)
    ensures
        with_policy(cfg, policy).policy == policy,
        with_policy(cfg, policy).endpoint == cfg.endpoint,
        with_policy(cfg, policy).max_exec_timeout_ms == cfg.max_exec_timeout_ms,
        with_policy(cfg, policy).max_output_bytes == cfg.max_output_bytes,
        with_policy(cfg, policy).max_read_bytes == cfg.max_read_bytes,
{
}

/// A field of an answer is what its JSON says under that key.
pub proof fn law_fields_are_read(json: Seq<u8>, key: Seq<char>)
    ensures
        deps::json_str_of(json, key) matches Ok(said) ==> field_of(json, key) == said,
        deps::json_str_of(json, key) is Err ==> field_of(json, key) is None,
{
}

} // verus!
