//! Endpoint resolution from configuration values.  Reading the
//! environment and printing the log lines stay outside the library;
//! this module fixes what the effective endpoint is.

use vstd::prelude::*;
use vstd::string::StringExecFns;

verus! {

/// The effective endpoint: a non-empty emulator host takes
/// precedence and yields `http://{host}:{port}` (an empty port leaves
/// a trailing colon), otherwise the explicit endpoint URL is used
/// unchanged (possibly empty, meaning "no override").
pub open spec fn endpoint_of(host: Seq<char>, port: Seq<char>, url: Seq<char>) -> Seq<char> {
    if host.len() > 0 {
        "http://"@ + host + ":"@ + port
    } else {
        url
    }
}

/// Resolves the endpoint URL from the emulator host and port and the
/// explicit endpoint URL, by the documented precedence.
pub fn resolve_endpoint(host: &str, port: &str, url: &str) -> (r: String)
    ensures
        r@ == endpoint_of(host@, port@, url@),
{
    if !host.is_empty() {
        let mut s = String::from_str("http://");
        s.append(host);
        s.append(":");
        s.append(port);
        proof {
            assert(s@ =~= endpoint_of(host@, port@, url@));
        }
        s
    } else {
        String::from_str(url)
    }
}

/// The startup log line for one recognized configuration variable.
pub fn env_line(name: &str, value: &str) -> (r: String)
    ensures
        r@ == name@ + ": "@ + value@,
{
    let mut s = String::from_str(name);
    s.append(": ");
    s.append(value);
    proof {
        assert(s@ =~= name@ + ": "@ + value@);
    }
    s
}

} // verus!
