//! Command-line argument handling: `host:port` addresses and run options.
use vstd::prelude::*;
use crate::text::{chars_of, concat, parse_u16, parses_unsigned, push_str, string_of_range,
    unsigned_digits, digits_value};

verus! {

/// Options for running the application process.
#[derive(Clone, Debug, PartialEq, Eq, Default)]
pub struct RunOptions {
    pub host: Option<String>,
    pub port: Option<u16>,
    pub env: Option<String>,
    pub bin: Option<String>,
}

/// Why an address argument was refused.
#[derive(Clone, Debug, PartialEq, Eq)]
pub enum AddrError {
    /// The address has no `:`.
    MissingPort(String),
    /// The text after the last `:` is not a port number.
    InvalidPort(String),
}

impl AddrError {
    /// The message shown to the user.
    pub fn message(&self) -> (r: String)
        ensures
            r@ == match self {
                AddrError::MissingPort(a) => "invalid address `"@ + a@ + "`; expected host:port"@,
                AddrError::InvalidPort(a) => "invalid port in address `"@ + a@ + "`"@,
            },
    {
        match self {
            AddrError::MissingPort(a) => {
                let mut r = concat("invalid address `", a.as_str());
                push_str(&mut r, "`; expected host:port");
                r
            },
            AddrError::InvalidPort(a) => {
                let mut r = concat("invalid port in address `", a.as_str());
                push_str(&mut r, "`");
                r
            },
        }
    }
}

/// The index of the last occurrence of `c` in `s`.
pub open spec fn last_index_of(s: Seq<char>, c: char) -> Option<int>
    decreases s.len(),
{
    if s.len() == 0 {
        None
    } else if s.last() == c {
        Some(s.len() - 1)
    } else {
        last_index_of(s.drop_last(), c)
    }
}

/// The parts of an address split at its last `:`.
pub open spec fn addr_parts(a: Seq<char>) -> Option<(Seq<char>, Seq<char>)> {
    match last_index_of(a, ':') {
        Some(i) => Some((a.take(i), a.skip(i + 1))),
        None => None,
    }
}

/// The characters of an optional string.
pub open spec fn opt_view(o: Option<String>) -> Option<Seq<char>> {
    match o {
        Some(s) => Some(s@),
        None => None,
    }
}

/// The host and port that an optional address gives, or `None` when it is
/// refused.
pub open spec fn addr_outcome(addr: Option<Seq<char>>) -> Option<(Option<Seq<char>>, Option<u16>)> {
    match addr {
        None => Some((None, None)),
        Some(a) => match addr_parts(a) {
            None => None,
            Some((h, p)) => if parses_unsigned(p, 65535) {
                Some((Some(h), Some(digits_value(unsigned_digits(p)) as u16)))
            } else {
                None
            },
        },
    }
}

/// The error that a refused address `a` is reported with.
pub open spec fn addr_error_for(a: Seq<char>, e: AddrError) -> bool {
    match e {
        AddrError::MissingPort(s) => s@ == a && addr_parts(a) is None,
        AddrError::InvalidPort(s) => s@ == a && addr_parts(a) is Some,
    }
}

/// The outcome of handling an optional address.
pub open spec fn addr_result_ok(
    addr: Option<String>,
    r: Result<(Option<String>, Option<u16>), AddrError>,
) -> bool {
    match r {
        Ok((h, p)) => addr_outcome(opt_view(addr)) == Some((opt_view(h), p)),
        Err(e) => addr_outcome(opt_view(addr)) is None && match addr {
            Some(a) => addr_error_for(a@, e),
            None => false,
        },
    }
}

/// Splits an optional `host:port` argument at its last `:`; `None` gives no
/// host and no port.
pub fn parse_addr_opt(addr: &Option<String>) -> (r: Result<(Option<String>, Option<u16>), AddrError>)
    ensures
        addr_result_ok(*addr, r),
{
    match addr {
        None => Ok((None, None)),
        Some(a) => {
            let v = chars_of(a.as_str());
            let mut i = v.len();
            proof {
                assert(v@.take(i as int) =~= v@);
            }
            while i > 0 && v[i - 1] != ':'
                invariant
                    i <= v@.len(),
                    v@ == a@,
                    last_index_of(a@, ':') == last_index_of(v@.take(i as int), ':'),
                decreases i,
            {
                proof {
                    assert(v@.take(i as int).drop_last() =~= v@.take(i - 1));
                }
                i = i - 1;
            }
            if i == 0 {
                proof {
                    assert(v@.take(0) =~= Seq::<char>::empty());
                }
                return Err(AddrError::MissingPort(a.clone()));
            }
            proof {
                assert(v@.take(i as int).last() == ':');
                assert(v@.take(i as int).len() == i);
            }
            let host = string_of_range(&v, 0, i - 1);
            let port_s = string_of_range(&v, i, v.len());
            proof {
                assert(host@ =~= a@.take(i - 1));
                assert(port_s@ =~= a@.skip(i as int));
            }
            match parse_u16(port_s.as_str()) {
                Some(p) => Ok((Some(host), Some(p))),
                None => Err(AddrError::InvalidPort(a.clone())),
            }
        },
    }
}

/// Run options from the command line: an explicit host or port wins over the
/// one given in `addr`.
pub fn resolve_run_options(
    addr: Option<String>,
    host: Option<String>,
    port: Option<u16>,
    env: Option<String>,
) -> (r: Result<RunOptions, AddrError>)
    ensures
        match r {
            Ok(o) => match addr_outcome(opt_view(addr)) {
                Some((ah, ap)) => {
                    &&& opt_view(o.host) == (if host is Some { opt_view(host) } else { ah })
                    &&& o.port == (if port is Some { port } else { ap })
                    &&& o.env == env
                    &&& o.bin is None
                },
                None => false,
            },
            Err(e) => addr_outcome(opt_view(addr)) is None && match addr {
                Some(a) => addr_error_for(a@, e),
                None => false,
            },
        },
{
    let parsed = parse_addr_opt(&addr);
    match parsed {
        Ok((addr_host, addr_port)) => {
            let h = match host {
                Some(h) => Some(h),
                None => addr_host,
            };
            let p = match port {
                Some(p) => Some(p),
                None => addr_port,
            };
            Ok(RunOptions { host: h, port: p, env, bin: None })
        },
        Err(e) => Err(e),
    }
}

} // verus!
