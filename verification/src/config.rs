//! Configuration file of the broker: one `key=value` per line with the
//! keys `port`, `dump_path`, `dump_time`, `log_path`, `accounts_path`
//! and `ip`.
use crate::key_value::{file_entries, lookup, lookup_entry, parse_bounded, parse_number, read_entries};
use crate::text::string_from_chars;
use vstd::prelude::*;

verus! {

/// Key of the port.
pub const PORT_KEY: &'static str = "port";
/// Key of the path of the dump file.
pub const DUMP_PATH_KEY: &'static str = "dump_path";
/// Key of the time between dumps, in seconds.
pub const DUMP_TIME_KEY: &'static str = "dump_time";
/// Key of the log directory.
pub const LOG_PATH_KEY: &'static str = "log_path";
/// Key of the accounts file.
pub const ACCOUNTS_PATH_KEY: &'static str = "accounts_path";
/// Key of the address to listen on.
pub const IP_KEY: &'static str = "ip";

/// Configuration of the broker.
#[derive(Debug, Clone)]
pub struct FileConfig {
    port: u16,
    dump_info: Option<(String, u64)>,
    log_path: String,
    accounts_path: String,
    ip: String,
}

/// Configuration of the broker, as text and numbers.
pub struct FileConfigView {
    pub port: u16,
    /// Dump file and seconds between dumps, when dumps are asked for.
    pub dump_info: Option<(Seq<char>, nat)>,
    pub log_path: Seq<char>,
    pub accounts_path: Seq<char>,
    pub ip: Seq<char>,
}

/// Dump settings of a configuration: none when `dump_path` is empty,
/// else the path and the seconds of `dump_time`; `None` when a needed key
/// is missing or `dump_time` is not a number.
pub open spec fn dump_settings(es: Seq<(Seq<char>, Seq<char>)>) -> Option<Option<(Seq<char>, nat)>> {
    match lookup(es, DUMP_PATH_KEY@) {
        None => None,
        Some(path) => if path.len() == 0 {
            Some(None)
        } else {
            match lookup(es, DUMP_TIME_KEY@) {
                None => None,
                Some(t) => match parse_bounded(t, u64::MAX as nat) {
                    None => None,
                    Some(secs) => Some(Some((path, secs))),
                },
            }
        },
    }
}

/// Configuration written in `text`, or `None` when a line has no `=`, a
/// key is missing, or a number does not read.
pub open spec fn parse_file_config(text: Seq<char>) -> Option<FileConfigView> {
    match file_entries(text, false) {
        None => None,
        Some(es) => match (
            dump_settings(es),
            lookup(es, PORT_KEY@),
            lookup(es, LOG_PATH_KEY@),
            lookup(es, ACCOUNTS_PATH_KEY@),
            lookup(es, IP_KEY@),
        ) {
            (Some(dump_info), Some(p), Some(log_path), Some(accounts_path), Some(ip)) => match parse_bounded(
                p,
                u16::MAX as nat,
            ) {
                Some(port) => Some(
                    FileConfigView { port: port as u16, dump_info, log_path, accounts_path, ip },
                ),
                None => None,
            },
            _ => None,
        },
    }
}

impl FileConfig {
    /// The configuration as text and numbers.
    pub closed spec fn spec_view(&self) -> FileConfigView {
        FileConfigView {
            port: self.port,
            dump_info: match self.dump_info {
                Some((p, t)) => Some((p@, t as nat)),
                None => None,
            },
            log_path: self.log_path@,
            accounts_path: self.accounts_path@,
            ip: self.ip@,
        }
    }

    /// Reads a configuration from the text of a file (see
    /// [`parse_file_config`]).
    pub fn new_from_file(config_file: &str) -> (r: Option<FileConfig>)
        ensures
            match parse_file_config(config_file@) {
                Some(view) => r matches Some(c) && c.spec_view() == view,
                None => r is None,
            },
    {
        let entries = match read_entries(config_file, false) {
            Some(es) => es,
            None => return None,
        };
        let dump_path = match lookup_entry(&entries, DUMP_PATH_KEY) {
            Some(p) => p,
            None => return None,
        };
        let dump_info = if dump_path.len() > 0 {
            let time_text = match lookup_entry(&entries, DUMP_TIME_KEY) {
                Some(t) => t,
                None => return None,
            };
            let secs = match parse_number(time_text.as_slice(), u64::MAX) {
                Some(n) => n,
                None => return None,
            };
            Some((string_from_chars(dump_path.as_slice()), secs))
        } else {
            None
        };
        let port_text = match lookup_entry(&entries, PORT_KEY) {
            Some(p) => p,
            None => return None,
        };
        let log_path = match lookup_entry(&entries, LOG_PATH_KEY) {
            Some(p) => p,
            None => return None,
        };
        let accounts_path = match lookup_entry(&entries, ACCOUNTS_PATH_KEY) {
            Some(p) => p,
            None => return None,
        };
        let ip = match lookup_entry(&entries, IP_KEY) {
            Some(p) => p,
            None => return None,
        };
        let port = match parse_number(port_text.as_slice(), 65535) {
            Some(n) => n as u16,
            None => return None,
        };
        Some(
            FileConfig {
                port,
                dump_info,
                log_path: string_from_chars(log_path.as_slice()),
                accounts_path: string_from_chars(accounts_path.as_slice()),
                ip: string_from_chars(ip.as_slice()),
            },
        )
    }

    /// The port to listen on.
    pub fn port(&self) -> (p: u16)
        ensures
            p == self.spec_view().port,
    {
        self.port
    }

    /// The dump file and the seconds between dumps, when dumps are asked for.
    pub fn dump_info(&self) -> (d: Option<(&str, u64)>)
        ensures
            match self.spec_view().dump_info {
                Some((p, t)) => d matches Some((x, y)) && x@ == p && y == t,
                None => d is None,
            },
    {
        match &self.dump_info {
            Some((p, t)) => Some((p.as_str(), *t)),
            None => None,
        }
    }

    /// The log directory.
    pub fn log_path(&self) -> (p: &str)
        ensures
            p@ == self.spec_view().log_path,
    {
        self.log_path.as_str()
    }

    /// The accounts file.
    pub fn accounts_path(&self) -> (p: &str)
        ensures
            p@ == self.spec_view().accounts_path,
    {
        self.accounts_path.as_str()
    }

    /// The address to listen on.
    pub fn ip(&self) -> (p: &str)
        ensures
            p@ == self.spec_view().ip,
    {
        self.ip.as_str()
    }
}

} // verus!
