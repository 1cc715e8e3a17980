//! What the server decides before it serves: the address it binds to,
//! and the most issues of a category in an answer.
use vstd::prelude::*;
use vstd::string::StringExecFns;
use crate::text::str_to_string;

verus! {

/// The most issues of a category in an answer, where a request sets none.
pub const DEFAULT_MAX_SIZE: usize = 1000;

/// The text, or else the default.
pub open spec fn text_or(o: Option<String>, default: Seq<char>) -> Seq<char> {
    match o {
        Some(s) => s@,
        None => default,
    }
}

/// The address to bind to: the host, a colon and the port; the host is
/// 127.0.0.1 and the port 7878 where they are not set.
pub open spec fn bind_address(bind: Option<String>, port: Option<String>) -> Seq<char> {
    text_or(bind, "127.0.0.1"@) + ":"@ + text_or(port, "7878"@)
}

/// The address that the server binds to, from the host and the port that
/// the environment sets.
pub fn run_server(bind: Option<String>, port: Option<String>) -> (addr: String)
    ensures
        addr@ == bind_address(bind, port),
{
    let mut addr = match &bind {
        Some(b) => b.clone(),
        None => str_to_string("127.0.0.1"),
    };
    addr.append(":");
    match &port {
        Some(p) => {
            addr.append(p.as_str());
        },
        None => {
            addr.append("7878");
        },
    }
    addr
}

/// The most issues of a category in an answer to a request.
pub fn max_size_of(max_size: Option<usize>) -> (r: usize)
    ensures
        r == match max_size {
            Some(m) => m,
            None => DEFAULT_MAX_SIZE,
        },
{
    match max_size {
        Some(m) => m,
        None => DEFAULT_MAX_SIZE,
    }
}

} // verus!
