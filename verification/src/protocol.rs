use vstd::prelude::*;
use vstd::string::StringExecFns;
use crate::addr::Ipv4;
use crate::text::{ipv4_chars, ipv4_to_string, spec_parse_ipv4, spec_scan_octet, spec_scan_dot_octet, parse_ipv4};

verus! {

/// What the update loop needs to authenticate an update: the record's
/// hostname and the account's name and password. Loaded once at startup
/// and owned by the loop for its whole run.
pub struct Credentials {
    pub hostname: String,
    pub username: String,
    pub password: String,
}

/// Why a resolution cycle produced no address: the transport failed, or the
/// response body was not an address. Each carries what is logged.
pub enum FetchError {
    /// The HTTP exchange with the echo service failed; carries the
    /// transport's own description.
    Transport { cause: String },
    /// The body came back but is not a dotted-decimal address; carries the
    /// body for the log line.
    Parse { body: String },
}

/// Why an update attempt failed: the transport failed, or the provider
/// answered with a non-success status. The loop treats both the same way;
/// they differ only in what is logged.
pub enum UpdateError {
    /// The HTTP exchange with the provider failed; carries the transport's
    /// own description.
    Transport { cause: String },
    /// The provider answered, with a status outside the success range;
    /// carries the status and the body it sent back.
    Rejected { status: u16, body: String },
}

/// Everything one update request carries: the query string of the update
/// endpoint and the basic-authentication credentials.
pub struct UpdateRequest {
    pub query: String,
    pub username: String,
    pub password: String,
}

/// The exact query string of an update request for a hostname and address.
pub open spec fn spec_update_query(host: Seq<char>, x: Ipv4) -> Seq<char> {
    "system=dyndns&hostname="@ + host + "&myip="@ + ipv4_chars(x)
}

/// Builds the one request an update attempt sends: the fixed protocol
/// identifier, the hostname and the new address as query parameters, and
/// the credentials for basic authentication.
pub fn build_update_request(creds: &Credentials, x: &Ipv4) -> (r: UpdateRequest)
    ensures
        r.query@ == spec_update_query(creds.hostname@, *x),
        r.username@ == creds.username@,
        r.password@ == creds.password@,
{
    let mut q = String::new();
    q.append("system=dyndns&hostname=");
    q.append(creds.hostname.as_str());
    q.append("&myip=");
    let addr_text = ipv4_to_string(x);
    q.append(addr_text.as_str());
    proof {
        assert(q@ =~= spec_update_query(creds.hostname@, *x));
    }
    UpdateRequest {
        query: q,
        username: creds.username.clone(),
        password: creds.password.clone(),
    }
}

/// Whether an HTTP status is a success for the provider: any status in the
/// 2xx range.
pub open spec fn spec_is_success(status: u16) -> bool {
    200 <= status < 300
}

/// Classifies the provider's answer: a 2xx status is a confirmed update;
/// anything else is a rejection that keeps the status and body for the log.
pub fn classify_update_response(status: u16, body: String) -> (r: Result<(), UpdateError>)
    ensures
        r is Ok <==> spec_is_success(status),
        !spec_is_success(status) ==> (r matches Err(e) && e matches UpdateError::Rejected {
            status: st,
            body: b,
        } && st == status && b@ == body@),
{
    if 200 <= status && status < 300 {
        Ok(())
    } else {
        Err(UpdateError::Rejected { status, body })
    }
}

/// Interprets the echo service's response body: the whole body must be
/// exactly a dotted-decimal address; any other body is a parse failure that
/// keeps the body for the log. The HTTP status is not consulted: an error
/// page surfaces as a parse failure.
pub fn resolve_body(body: &str) -> (r: Result<Ipv4, FetchError>)
    ensures
        match spec_parse_ipv4(body@) {
            Some(x) => r matches Ok(got) && got == x,
            None => r matches Err(e) && e matches FetchError::Parse { body: b } && b@ == body@,
        },
{
    let n = body.unicode_len();
    if n > usize::MAX - 3 {
        proof {
            lemma_long_text_is_no_address(body@);
        }
        return Err(FetchError::Parse { body: body.to_owned() });
    }
    match parse_ipv4(body) {
        Some(x) => Ok(x),
        None => Err(FetchError::Parse { body: body.to_owned() }),
    }
}

/// A text longer than the longest address text denotes no address: each of
/// the four octets spans at most three digits, the three dots one
/// character each.
proof fn lemma_long_text_is_no_address(s: Seq<char>)
    requires
        s.len() > 15,
    ensures
        spec_parse_ipv4(s) is None,
{
    assert forall|i: int| spec_scan_octet(s, i) is Some implies (spec_scan_octet(s, i)->Some_0).1
        <= i + 3 by {}
    assert forall|i: int|
        spec_scan_dot_octet(s, i) is Some implies (spec_scan_dot_octet(s, i)->Some_0).1 <= i
        + 4 by {}
}

} // verus!
