//! Alerts that go out by mail.
use crate::numeral::{parse_whole, whole_value};
use crate::text::{is_blank, trim_text};
use vstd::prelude::*;

verus! {

/// How alerts are sent.
#[derive(Clone, Debug)]
pub struct AlertConfig {
    pub host: String,
    pub port: u16,
    pub username: String,
    pub password: String,
    pub from: String,
    pub to: String,
}

/// A setting that is missing is blank.
pub open spec fn missing(raw: Option<String>) -> bool {
    raw is None || is_blank(raw->0@)
}

/// The text of a setting, empty where it is missing.
pub open spec fn text_or_empty(raw: Option<String>) -> Seq<char> {
    match raw {
        Some(s) => s@,
        None => Seq::empty(),
    }
}

/// The port, the usual one where the setting is no port.
pub open spec fn port_of(raw: Option<String>) -> int {
    match raw {
        Some(s) => match whole_value(s@, 0xffff) {
            Some(n) => n as int,
            None => 587,
        },
        None => 587,
    }
}

fn or_empty(raw: Option<String>) -> (s: String)
    ensures
        s@ == text_or_empty(raw),
{
    match raw {
        Some(s) => s,
        None => String::new(),
    }
}

impl AlertConfig {
    /// How alerts are sent, out of the settings. There are none where the host, the
    /// sender or the recipient is missing.
    pub fn from_env(
        host: Option<String>,
        port: Option<String>,
        username: Option<String>,
        password: Option<String>,
        from: Option<String>,
        to: Option<String>,
    ) -> (c: Option<AlertConfig>)
        ensures
            c is Some <==> !missing(host) && !missing(from) && !missing(to),
            c is Some ==> {
                &&& c->0.host@ == host->0@
                &&& c->0.port == port_of(port)
                &&& c->0.username@ == text_or_empty(username)
                &&& c->0.password@ == text_or_empty(password)
                &&& c->0.from@ == from->0@
                &&& c->0.to@ == to->0@
            },
    {
        let host: String = match host {
            Some(h) => h,
            None => return None,
        };
        if trim_text(host.as_str()).as_str().is_empty() {
            return None;
        }
        let port: u16 = match port {
            Some(p) => match parse_whole(p.as_str(), 0xffff) {
                Some(n) => n as u16,
                None => 587,
            },
            None => 587,
        };
        let from: String = or_empty(from);
        let to: String = or_empty(to);
        if trim_text(from.as_str()).as_str().is_empty() || trim_text(
            to.as_str(),
        ).as_str().is_empty() {
            return None;
        }
        Some(
            AlertConfig {
                host,
                port,
                username: or_empty(username),
                password: or_empty(password),
                from,
                to,
            },
        )
    }
}

/// A port that can be read counts; without one it is the port for mail submission.
pub proof fn law_readable_port_counts(raw: Option<String>)
    ensures
        raw is Some && whole_value(raw->0@, 0xffff) is Some ==> port_of(raw) == whole_value(
            raw->0@,
            0xffff,
        )->0,
        raw is None || whole_value(raw->0@, 0xffff) is None ==> port_of(raw) == 587,
{
}

} // verus!
