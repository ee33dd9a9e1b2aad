//! Process configuration, decided from the values of its settings.
use vstd::prelude::*;
use vstd::string::StringExecFns;

use crate::overpass::CAR_QUERY_TIMEOUT;
use crate::text::chars_of;

verus! {

/// The port served on when none is set.
pub const DEFAULT_SERVER_PORT: &'static str = "3000";

/// The feed endpoint.
pub const OVERPASS_API_URL: &'static str = "https://overpass-api.de/api/interpreter";

/// A decimal digit.
pub open spec fn is_digit(c: char) -> bool {
    '0' <= c <= '9'
}

/// The value of a run of decimal digits.
pub open spec fn digits_value(s: Seq<char>) -> int
    decreases s.len(),
{
    if s.len() == 0 {
        0
    } else {
        digits_value(s.drop_last()) * 10 + (s.last() as int - 48)
    }
}

/// The digits of a port number: an optional `+` is dropped.
pub open spec fn unsigned_digits(s: Seq<char>) -> Seq<char> {
    if s.len() > 0 && s[0] == '+' {
        s.drop_first()
    } else {
        s
    }
}

/// The port number that text denotes: an optional `+`, then at least one
/// decimal digit and nothing else, of value at most 65535.
pub open spec fn port_of(s: Seq<char>) -> Option<u16> {
    let d = unsigned_digits(s);
    if d.len() > 0 && (forall|i: int| 0 <= i < d.len() ==> is_digit(#[trigger] d[i]))
        && digits_value(d) <= 65535 {
        Some(digits_value(d) as u16)
    } else {
        None
    }
}

proof fn lemma_digits_value_bounds(s: Seq<char>)
    requires
        forall|i: int| 0 <= i < s.len() ==> is_digit(#[trigger] s[i]),
    ensures
        0 <= digits_value(s),
        s.len() > 0 ==> digits_value(s) >= digits_value(s.drop_last()),
    decreases s.len(),
{
    if s.len() > 0 {
        assert forall|i: int| 0 <= i < s.drop_last().len() implies is_digit(
            #[trigger] s.drop_last()[i],
        ) by {
            assert(s.drop_last()[i] == s[i]);
        }
        lemma_digits_value_bounds(s.drop_last());
    }
}

/// The port number that `text` denotes, if any.
pub fn parse_port(text: &str) -> (r: Option<u16>)
    ensures
        r == port_of(text@),
{
    let chars = chars_of(text);
    let start: usize = if chars.len() > 0 && chars[0] == '+' {
        1
    } else {
        0
    };
    let ghost d = unsigned_digits(text@);
    assert(d =~= chars@.subrange(start as int, chars@.len() as int));
    if start == chars.len() {
        assert(d.len() == 0);
        assert(port_of(text@) is None);
        return None;
    }
    let mut value: u32 = 0;
    let mut overflow = false;
    let mut i: usize = start;
    while i < chars.len()
        invariant
            start <= i <= chars@.len(),
            d == unsigned_digits(text@),
            d == chars@.subrange(start as int, chars@.len() as int),
            forall|j: int| start <= j < i ==> is_digit(#[trigger] chars@[j]),
            !overflow ==> value == digits_value(chars@.subrange(start as int, i as int)) && value
                <= 65535,
            overflow ==> digits_value(chars@.subrange(start as int, i as int)) > 65535,
        decreases chars@.len() - i,
    {
        let c = chars[i];
        if !('0' <= c && c <= '9') {
            assert(!is_digit(d[i - start]));
            return None;
        }
        let digit = (c as u32) - 48;
        proof {
            let prefix = chars@.subrange(start as int, i + 1);
            assert(prefix.drop_last() =~= chars@.subrange(start as int, i as int));
            assert forall|j: int| 0 <= j < prefix.len() implies is_digit(#[trigger] prefix[j]) by {
                assert(prefix[j] == chars@[start + j]);
            }
            lemma_digits_value_bounds(prefix);
        }
        if !overflow {
            if value * 10 + digit > 65535 {
                overflow = true;
            } else {
                value = value * 10 + digit;
            }
        }
        i = i + 1;
    }
    assert(chars@.subrange(start as int, i as int) =~= d);
    assert forall|j: int| 0 <= j < d.len() implies is_digit(#[trigger] d[j]) by {
        assert(d[j] == chars@[start + j]);
    }
    if overflow {
        None
    } else {
        Some(value as u16)
    }
}

/// Why a configuration could not be made.
#[derive(Clone, Copy, Debug, PartialEq, Eq, Structural)]
pub enum ConfigError {
    /// No database URL was given.
    MissingDatabaseUrl,
    /// The server port is not a port number.
    InvalidServerPort,
}

/// The settings of the process.
#[derive(Clone, Debug)]
pub struct Config {
    pub database_url: String,
    pub server_port: u16,
    pub overpass_api_url: String,
    pub overpass_timeout: u64,
}

impl Config {
    /// The configuration from the values of its settings: the database URL
    /// is required, and the server port defaults to `DEFAULT_SERVER_PORT`.
    pub fn from_values(database_url: Option<String>, server_port: Option<String>) -> (r: Result<
        Config,
        ConfigError,
    >)
        ensures
            database_url is None ==> r == Err::<Config, ConfigError>(
                ConfigError::MissingDatabaseUrl,
            ),
            database_url matches Some(url) ==> {
                let port_text = match server_port {
                    Some(p) => p@,
                    None => DEFAULT_SERVER_PORT@,
                };
                match port_of(port_text) {
                    None => r == Err::<Config, ConfigError>(ConfigError::InvalidServerPort),
                    Some(port) => r matches Ok(c) && c.database_url == url && c.server_port == port
                        && c.overpass_api_url@ == OVERPASS_API_URL@ && c.overpass_timeout
                        == CAR_QUERY_TIMEOUT,
                }
            },
    {
        let database_url = match database_url {
            Some(url) => url,
            None => return Err(ConfigError::MissingDatabaseUrl),
        };
        let port = match &server_port {
            Some(p) => parse_port(p.as_str()),
            None => parse_port(DEFAULT_SERVER_PORT),
        };
        match port {
            Some(server_port) => Ok(
                Config {
                    database_url,
                    server_port,
                    overpass_api_url: String::from_str(OVERPASS_API_URL),
                    overpass_timeout: CAR_QUERY_TIMEOUT,
                },
            ),
            None => Err(ConfigError::InvalidServerPort),
        }
    }
}

} // verus!
