//! Configuration file of the MQTT clients of the page and of the
//! thermometer: `key=value` lines with the keys `server`, `port`,
//! `client_id`, `topic`, `user`, `password` and `period`; empty lines are
//! skipped.
use crate::key_value::{file_entries, lookup, lookup_entry, parse_bounded, parse_number, read_entries};
use crate::text::string_from_chars;
use vstd::prelude::*;

verus! {

/// Separator of a key and its value.
pub const SEP: &'static str = "=";

/// Configuration of an MQTT client.
#[derive(Debug, Clone)]
pub struct Config {
    pub server: String,
    pub port: String,
    pub client_id: String,
    pub topic: String,
    pub user: String,
    pub password: String,
    /// Milliseconds between two publications.
    pub period: u64,
}

/// Configuration of an MQTT client, as text and numbers.
pub struct ConfigView {
    pub server: Seq<char>,
    pub port: Seq<char>,
    pub client_id: Seq<char>,
    pub topic: Seq<char>,
    pub user: Seq<char>,
    pub password: Seq<char>,
    pub period: nat,
}

/// Configuration written in `text`, or `None` when a non-empty line has
/// no `=`, a key is missing, or `period` is not a number.
pub open spec fn parse_client_config(text: Seq<char>) -> Option<ConfigView> {
    match file_entries(text, true) {
        None => None,
        Some(es) => match (
            lookup(es, "server"@),
            lookup(es, "port"@),
            lookup(es, "client_id"@),
            lookup(es, "topic"@),
            lookup(es, "user"@),
            lookup(es, "password"@),
            lookup(es, "period"@),
        ) {
            (
                Some(server),
                Some(port),
                Some(client_id),
                Some(topic),
                Some(user),
                Some(password),
                Some(period),
            ) => match parse_bounded(period, u64::MAX as nat) {
                Some(ms) => Some(
                    ConfigView { server, port, client_id, topic, user, password, period: ms },
                ),
                None => None,
            },
            _ => None,
        },
    }
}

impl Config {
    /// The configuration as text and numbers.
    pub open spec fn spec_view(&self) -> ConfigView {
        ConfigView {
            server: self.server@,
            port: self.port@,
            client_id: self.client_id@,
            topic: self.topic@,
            user: self.user@,
            password: self.password@,
            period: self.period as nat,
        }
    }

    /// Reads a configuration from the text of a file (see
    /// [`parse_client_config`]).
    pub fn new_from_file(config_file: &str) -> (r: Option<Config>)
        ensures
            match parse_client_config(config_file@) {
                Some(view) => r matches Some(c) && c.spec_view() == view,
                None => r is None,
            },
    {
        let es = match read_entries(config_file, true) {
            Some(es) => es,
            None => return None,
        };
        let server = match lookup_entry(&es, "server") {
            Some(v) => v,
            None => return None,
        };
        let port = match lookup_entry(&es, "port") {
            Some(v) => v,
            None => return None,
        };
        let client_id = match lookup_entry(&es, "client_id") {
            Some(v) => v,
            None => return None,
        };
        let topic = match lookup_entry(&es, "topic") {
            Some(v) => v,
            None => return None,
        };
        let user = match lookup_entry(&es, "user") {
            Some(v) => v,
            None => return None,
        };
        let password = match lookup_entry(&es, "password") {
            Some(v) => v,
            None => return None,
        };
        let period_text = match lookup_entry(&es, "period") {
            Some(v) => v,
            None => return None,
        };
        let period = match parse_number(period_text.as_slice(), u64::MAX) {
            Some(n) => n,
            None => return None,
        };
        Some(
            Config {
                server: string_from_chars(server.as_slice()),
                port: string_from_chars(port.as_slice()),
                client_id: string_from_chars(client_id.as_slice()),
                topic: string_from_chars(topic.as_slice()),
                user: string_from_chars(user.as_slice()),
                password: string_from_chars(password.as_slice()),
                period,
            },
        )
    }
}

} // verus!
