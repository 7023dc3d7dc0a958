use vstd::prelude::*;
use crate::errors::ServiceError;

verus! {

/// Settings of the service, already checked when a value of this type exists.
#[derive(Debug, Clone, PartialEq, Eq)]
pub struct Config {
    pub database_url: String,
    pub server_port: u16,
    pub log_level: String,
}

/// Value of a string of decimal digits.
pub open spec fn digits_value(s: Seq<char>) -> nat
    decreases s.len(),
{
    if s.len() == 0 {
        0
    } else {
        digits_value(s.drop_last()) * 10 + (s.last() as nat - '0' as nat) as nat
    }
}

/// Every character of `s` is a decimal digit.
pub open spec fn all_digits(s: Seq<char>) -> bool {
    forall|i: int| 0 <= i < s.len() ==> '0' <= #[trigger] s[i] <= '9'
}

/// `s` is one or more decimal digits whose value is at most 65535.
pub open spec fn digits_fit(s: Seq<char>) -> bool {
    s.len() > 0 && all_digits(s) && digits_value(s) <= u16::MAX
}

/// `s` without one leading `+`, where it has one.
pub open spec fn unsigned_part(s: Seq<char>) -> Seq<char> {
    if s.len() > 0 && s[0] == '+' {
        s.drop_first()
    } else {
        s
    }
}

/// `s` spells a port number: an optional `+`, then one or more decimal
/// digits whose value is at most 65535 (leading zeros allowed).
pub open spec fn port_text(s: Seq<char>) -> bool {
    digits_fit(unsigned_part(s))
}

/// The number that a port text spells.
pub open spec fn port_value(s: Seq<char>) -> nat {
    digits_value(unsigned_part(s))
}

/// Reads a port number: an optional `+` followed by decimal digits, as
/// unsigned integers are written in Rust.
pub fn parse_port(s: &str) -> (r: Option<u16>)
    ensures
        port_text(s@) ==> r == Some(port_value(s@) as u16),
        !port_text(s@) ==> r is None,
{
    let n = s.unicode_len();
    if n > 0 && s.get_char(0) == '+' {
        let rest = s.substring_char(1, n);
        assert(rest@ =~= s@.drop_first());
        parse_digits(rest)
    } else {
        parse_digits(s)
    }
}

fn parse_digits(s: &str) -> (r: Option<u16>)
    ensures
        digits_fit(s@) ==> r == Some(digits_value(s@) as u16),
        !digits_fit(s@) ==> r is None,
{
    let n = s.unicode_len();
    if n == 0 {
        return None;
    }
    let mut value: u32 = 0;
    let mut i: usize = 0;
    while i < n
        invariant
            n == s@.len(),
            i <= n,
            value as nat == digits_value(s@.subrange(0, i as int)),
            value <= u16::MAX,
            all_digits(s@.subrange(0, i as int)),
        decreases n - i,
    {
        let c = s.get_char(i);
        let ghost pre = s@.subrange(0, i as int + 1);
        assert(pre.drop_last() =~= s@.subrange(0, i as int));
        if c < '0' || c > '9' {
            assert(!all_digits(s@)) by {
                assert(s@[i as int] == c);
            }
            return None;
        }
        let d = (c as u32) - ('0' as u32);
        let next = value * 10 + d;
        assert(next as nat == digits_value(pre));
        if next > 65535 {
            proof {
                if all_digits(s@) {
                    lemma_digits_value_grows(s@, i as int + 1);
                }
            }
            return None;
        }
        value = next;
        i = i + 1;
        assert(all_digits(pre)) by {
            assert forall|j: int| 0 <= j < pre.len() implies '0' <= #[trigger] pre[j] <= '9' by {
                if j < i as int - 1 {
                    assert(pre[j] == s@.subrange(0, i as int - 1)[j]);
                }
            }
        }
    }
    assert(s@.subrange(0, n as int) =~= s@);
    Some(value as u16)
}

/// The value of a string of digits is at least the value of any prefix of it.
proof fn lemma_digits_value_grows(s: Seq<char>, k: int)
    requires
        0 <= k <= s.len(),
        all_digits(s),
    ensures
        digits_value(s.subrange(0, k)) <= digits_value(s),
    decreases s.len() - k,
{
    if k < s.len() {
        lemma_digits_value_grows(s, k + 1);
        let p = s.subrange(0, k + 1);
        assert(p.drop_last() =~= s.subrange(0, k));
        assert('0' <= s[k] <= '9');
    } else {
        assert(s.subrange(0, k) =~= s);
    }
}

/// `r` names the missing setting `variable`.
pub open spec fn missing(r: Result<Config, ServiceError>, variable: Seq<char>) -> bool {
    r matches Err(ServiceError::ConfigMissing { variable: v }) && v@ == variable
}

impl Config {
    /// Builds the settings from the raw values of `DATABASE_URL`,
    /// `SERVER_PORT` and `LOG_LEVEL`. The first two are required, and the
    /// port must be a decimal number, optionally after a `+`, that fits in 16 bits; each failure is a
    /// `ConfigMissing` that names the variable. The log level defaults to `info`.
    pub fn from_settings(
        database_url: Option<String>,
        server_port: Option<String>,
        log_level: Option<String>,
    ) -> (r: Result<Config, ServiceError>)
        ensures
            match database_url {
                None => missing(r, "DATABASE_URL"@),
                Some(d) => match server_port {
                    None => missing(r, "SERVER_PORT"@),
                    Some(p) => if port_text(p@) {
                        r matches Ok(c) && c.database_url@ == d@ && c.server_port == port_value(p@)
                            && c.log_level@ == match log_level {
                            Some(l) => l@,
                            None => "info"@,
                        }
                    } else {
                        missing(r, "SERVER_PORT"@)
                    },
                },
            },
    {
        let database_url = match database_url {
            Some(d) => d,
            None => {
                return Err(ServiceError::ConfigMissing { variable: String::from_str("DATABASE_URL") });
            },
        };
        let port = match server_port {
            Some(p) => parse_port(p.as_str()),
            None => None,
        };
        let server_port = match port {
            Some(n) => n,
            None => {
                return Err(ServiceError::ConfigMissing { variable: String::from_str("SERVER_PORT") });
            },
        };
        let log_level = match log_level {
            Some(l) => l,
            None => String::from_str("info"),
        };
        Ok(Config { database_url, server_port, log_level })
    }
}

} // verus!
