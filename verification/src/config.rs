//! Server settings and the choice of log format.

use vstd::prelude::*;

use crate::text::{parse_unsigned, parse_unsigned_spec, to_lowercase, unicode_lowercase};

verus! {

pub struct Config {
    pub host: String,
    pub port: u16,
    pub download_dir: String,
    pub max_concurrent_downloads: usize,
}

impl Default for Config {
    fn default() -> (r: Self)
        ensures
            r.host@ == "0.0.0.0"@,
            r.port == 3000,
            r.download_dir@ == "./downloads"@,
            r.max_concurrent_downloads == 3,
    {
        Config {
            host: String::from_str("0.0.0.0"),
            port: 3000,
            download_dir: String::from_str("./downloads"),
            max_concurrent_downloads: 3,
        }
    }
}

/// A configured number read as `str::parse` reads it, or the default when
/// missing or unreadable.
pub open spec fn number_or(value: Option<String>, max: nat, default: nat) -> nat {
    match value {
        Some(v) => match parse_unsigned_spec(v@, max) {
            Some(n) => n,
            None => default,
        },
        None => default,
    }
}

impl Config {
    /// Settings from configured values: the host defaults to `0.0.0.0`, the
    /// port to 3000, the download directory to `./downloads` and the
    /// download limit to 3; unreadable numbers fall back to their defaults.
    pub fn from_values(
        host: Option<String>,
        port: Option<String>,
        download_dir: Option<String>,
        max_concurrent_downloads: Option<String>,
    ) -> (r: Self)
        ensures
            r.host@ == (match host {
                Some(h) => h@,
                None => "0.0.0.0"@,
            }),
            r.port == number_or(port, u16::MAX as nat, 3000),
            r.download_dir@ == (match download_dir {
                Some(d) => d@,
                None => "./downloads"@,
            }),
            r.max_concurrent_downloads == number_or(max_concurrent_downloads, usize::MAX as nat, 3),
    {
        let host = match host {
            Some(h) => h,
            None => String::from_str("0.0.0.0"),
        };
        let port: u16 = match &port {
            Some(p) => match parse_unsigned(p.as_str(), u16::MAX as u64) {
                Some(n) => n as u16,
                None => 3000,
            },
            None => 3000,
        };
        let download_dir = match download_dir {
            Some(d) => d,
            None => String::from_str("./downloads"),
        };
        let max_concurrent_downloads: usize = match &max_concurrent_downloads {
            Some(m) => match parse_unsigned(m.as_str(), usize::MAX as u64) {
                Some(n) => n as usize,
                None => 3,
            },
            None => 3,
        };
        Config { host, port, download_dir, max_concurrent_downloads }
    }
}

#[derive(Clone, Copy, Debug, PartialEq, Eq, Structural)]
pub enum LogFormat {
    Pretty,
    Json,
    Compact,
}

/// The log format a setting names, compared after lower-casing; anything
/// else, and no setting, means pretty.
pub open spec fn log_format_named(value: Option<String>) -> LogFormat {
    let v = match value {
        Some(s) => s@,
        None => "pretty"@,
    };
    if unicode_lowercase(v) == "json"@ {
        LogFormat::Json
    } else if unicode_lowercase(v) == "compact"@ {
        LogFormat::Compact
    } else {
        LogFormat::Pretty
    }
}

impl LogFormat {
    pub fn from_setting(value: Option<String>) -> (r: Self)
        ensures
            r == log_format_named(value),
    {
        let v = match value {
            Some(s) => s,
            None => String::from_str("pretty"),
        };
        let lower = to_lowercase(v.as_str());
        let json = String::from_str("json");
        let compact = String::from_str("compact");
        if lower.eq(&json) {
            LogFormat::Json
        } else if lower.eq(&compact) {
            LogFormat::Compact
        } else {
            LogFormat::Pretty
        }
    }
}

} // verus!
