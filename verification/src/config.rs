//! Resolving one serve invocation's configuration from its command-line
//! option values and their documented defaults.

use vstd::prelude::*;
use crate::chars::{spec_is_digit, spec_digits_value, chars_of, all_digits_range, digits_value_u32};

verus! {

/// The port a session listens on when none is asked for.
pub const DEFAULT_PORT: u16 = 8000;

/// One serve invocation's resolved configuration.
pub struct ServeConfig {
    pub port: u16,
    pub daemon: bool,
    pub document_root: String,
    pub passthru: String,
}

/// The port option's value is not a decimal TCP port number.
#[derive(Clone, Copy, PartialEq, Eq, Structural, Debug)]
pub enum ConfigError {
    InvalidPort,
}

/// The port a string names: its decimal value, when it is all digits and
/// fits; nothing otherwise.
pub open spec fn spec_parse_port(s: Seq<char>) -> Option<int> {
    if s.len() > 0 && (forall|i: int| 0 <= i < s.len() ==> spec_is_digit(s[i]))
        && spec_digits_value(s, 0, s.len() as int) <= 65535 {
        Some(spec_digits_value(s, 0, s.len() as int) as int)
    } else {
        None
    }
}

/// Reads a decimal TCP port number.
pub fn parse_port(s: &str) -> (r: Option<u16>)
    ensures
        match r {
            Some(p) => spec_parse_port(s@) == Some(p as int),
            None => spec_parse_port(s@) is None,
        },
{
    let v = chars_of(s);
    let n = v.len();
    if n == 0 {
        return None;
    }
    if !all_digits_range(&v, 0, n) {
        return None;
    }
    match digits_value_u32(&v, 0, n) {
        None => None,
        Some(x) => {
            if x <= 65535 {
                Some(x as u16)
            } else {
                None
            }
        },
    }
}

/// Resolves the serve options: the port defaults to 8000, the document
/// root to the working directory handed in, and the passthrough script to
/// `index.php`; a port value that is not a decimal port number is refused.
pub fn resolve_serve_config(
    port: Option<String>,
    daemon: bool,
    document_root: Option<String>,
    passthru: Option<String>,
    cwd: String,
) -> (r: Result<ServeConfig, ConfigError>)
    ensures
        match r {
            Ok(c) => {
                &&& c.daemon == daemon
                &&& match port {
                    Some(p) => spec_parse_port(p@) == Some(c.port as int),
                    None => c.port == DEFAULT_PORT,
                }
                &&& c.document_root@ == match document_root {
                    Some(d) => d@,
                    None => cwd@,
                }
                &&& c.passthru@ == match passthru {
                    Some(p) => p@,
                    None => ("index.php")@,
                }
            },
            Err(e) => {
                &&& e == ConfigError::InvalidPort
                &&& match port {
                    Some(p) => spec_parse_port(p@) is None,
                    None => false,
                }
            },
        },
{
    let port_num: u16 = match &port {
        Some(p) => match parse_port(p.as_str()) {
            Some(x) => x,
            None => {
                return Err(ConfigError::InvalidPort);
            },
        },
        None => DEFAULT_PORT,
    };
    let document_root = match document_root {
        Some(d) => d,
        None => cwd,
    };
    let passthru = match passthru {
        Some(p) => p,
        None => "index.php".to_owned(),
    };
    Ok(ServeConfig { port: port_num, daemon, document_root, passthru })
}

} // verus!
