//! The form a user fills in to add or edit a tunnel, and its validation.
//!
//! Every field is kept as typed. Validation trims the text fields, requires
//! them to be non-empty, and requires each port to read as a number from 1
//! to 65535; each failing field gets its own message.
use vstd::prelude::*;
use crate::definition::TunnelParams;
use crate::port::{decimal_string, decimal_text, parse_u16_spec, parse_u16_text};

verus! {

/// `c` has the Unicode White_Space property.
pub open spec fn is_white_space(c: char) -> bool {
    ||| '\u{9}' <= c && c <= '\u{d}'
    ||| c == ' '
    ||| c == '\u{85}'
    ||| c == '\u{a0}'
    ||| c == '\u{1680}'
    ||| '\u{2000}' <= c && c <= '\u{200a}'
    ||| c == '\u{2028}'
    ||| c == '\u{2029}'
    ||| c == '\u{202f}'
    ||| c == '\u{205f}'
    ||| c == '\u{3000}'
}

/// `s` without its leading white space.
pub open spec fn trim_start_spec(s: Seq<char>) -> Seq<char>
    decreases s.len(),
{
    if s.len() > 0 && is_white_space(s[0]) {
        trim_start_spec(s.drop_first())
    } else {
        s
    }
}

/// `s` without its trailing white space.
pub open spec fn trim_end_spec(s: Seq<char>) -> Seq<char>
    decreases s.len(),
{
    if s.len() > 0 && is_white_space(s.last()) {
        trim_end_spec(s.drop_last())
    } else {
        s
    }
}

/// The text left once leading and trailing white space is cut off.
pub open spec fn trimmed(s: Seq<char>) -> Seq<char> {
    trim_end_spec(trim_start_spec(s))
}

/// Relies on `str::trim`: it removes the leading and trailing characters
/// that have the Unicode White_Space property.
#[verifier::external_body]
fn trim_text(s: &str) -> (r: String)
    ensures
        r@ == trimmed(s@),
{
    s.trim().to_string()
}

/// The message for a port field that is not a number.
pub open spec fn invalid_port_message() -> Seq<char> {
    "Invalid port number"@
}

/// The message for a port field that reads as zero.
pub open spec fn port_range_message() -> Seq<char> {
    "Port must be between 1 and 65535"@
}

/// What a port field yields: the port, or the message that rejects it.
pub open spec fn port_check(s: Seq<char>) -> Result<u16, Seq<char>> {
    match parse_u16_spec(s) {
        Some(p) => if p > 0 {
            Ok(p)
        } else {
            Err(port_range_message())
        },
        None => Err(invalid_port_message()),
    }
}

/// `err` is what a required field holding `value` (already trimmed) is owed:
/// `msg` where it is empty, nothing otherwise.
pub open spec fn required_error(value: Seq<char>, msg: Seq<char>, err: Option<String>) -> bool {
    if value.len() == 0 {
        err matches Some(e) && e@ == msg
    } else {
        err is None
    }
}

/// `err` is what a port field holding `text` is owed.
pub open spec fn port_error(text: Seq<char>, err: Option<String>) -> bool {
    match port_check(text) {
        Ok(_) => err is None,
        Err(m) => err matches Some(e) && e@ == m,
    }
}

/// A port field's value, or 0 where it does not read as a number.
pub open spec fn port_or_zero(s: Seq<char>) -> u16 {
    match parse_u16_spec(s) {
        Some(p) => p,
        None => 0,
    }
}

/// The fields of the add and edit forms, as typed, with one error message
/// slot per field.
#[derive(Debug)]
pub struct NewTunnelForm {
    pub name: String,
    pub ssh_server: String,
    pub local_ip: String,
    pub local_port: String,
    pub remote_ip: String,
    pub remote_port: String,
    pub name_error: Option<String>,
    pub ssh_server_error: Option<String>,
    pub local_ip_error: Option<String>,
    pub local_port_error: Option<String>,
    pub remote_ip_error: Option<String>,
    pub remote_port_error: Option<String>,
}

impl NewTunnelForm {
    /// No field carries an error message.
    pub open spec fn has_no_errors(&self) -> bool {
        &&& self.name_error is None
        &&& self.ssh_server_error is None
        &&& self.local_ip_error is None
        &&& self.local_port_error is None
        &&& self.remote_ip_error is None
        &&& self.remote_port_error is None
    }

    /// `self` and `other` hold the same typed text.
    pub open spec fn same_text(&self, other: &NewTunnelForm) -> bool {
        &&& self.name == other.name
        &&& self.ssh_server == other.ssh_server
        &&& self.local_ip == other.local_ip
        &&& self.local_port == other.local_port
        &&& self.remote_ip == other.remote_ip
        &&& self.remote_port == other.remote_port
    }

    /// The outcome of validating fields whose text fields trim to `name`,
    /// `ssh_server`, `local_ip` and `remote_ip`.
    pub open spec fn is_valid_spec(
        &self,
        name: Seq<char>,
        ssh_server: Seq<char>,
        local_ip: Seq<char>,
        remote_ip: Seq<char>,
    ) -> bool {
        &&& name.len() > 0
        &&& ssh_server.len() > 0
        &&& local_ip.len() > 0
        &&& remote_ip.len() > 0
        &&& port_check(self.local_port@) is Ok
        &&& port_check(self.remote_port@) is Ok
    }

    /// The messages that validation leaves, given the trimmed text fields.
    pub open spec fn errors_match(
        &self,
        name: Seq<char>,
        ssh_server: Seq<char>,
        local_ip: Seq<char>,
        remote_ip: Seq<char>,
    ) -> bool {
        &&& required_error(name, "Name is required"@, self.name_error)
        &&& required_error(ssh_server, "SSH Server is required"@, self.ssh_server_error)
        &&& required_error(local_ip, "Local IP is required"@, self.local_ip_error)
        &&& required_error(remote_ip, "Remote IP is required"@, self.remote_ip_error)
        &&& port_error(self.local_port@, self.local_port_error)
        &&& port_error(self.remote_port@, self.remote_port_error)
    }

    /// An empty form whose addresses are the loopback address.
    pub fn new() -> (r: NewTunnelForm)
        ensures
            r.name@ == Seq::<char>::empty(),
            r.ssh_server@ == Seq::<char>::empty(),
            r.local_ip@ == "127.0.0.1"@,
            r.local_port@ == Seq::<char>::empty(),
            r.remote_ip@ == "127.0.0.1"@,
            r.remote_port@ == Seq::<char>::empty(),
            r.has_no_errors(),
    {
        NewTunnelForm {
            name: String::new(),
            ssh_server: String::new(),
            local_ip: String::from_str("127.0.0.1"),
            local_port: String::new(),
            remote_ip: String::from_str("127.0.0.1"),
            remote_port: String::new(),
            name_error: None,
            ssh_server_error: None,
            local_ip_error: None,
            local_port_error: None,
            remote_ip_error: None,
            remote_port_error: None,
        }
    }

    /// A form filled in from a stored definition, ports in decimal, for
    /// editing it.
    pub fn from_params(p: &TunnelParams) -> (r: NewTunnelForm)
        ensures
            r.name == p.name,
            r.ssh_server == p.ssh_server,
            r.local_ip == p.local_ip,
            r.local_port@ == decimal_text(p.local_port as nat),
            r.remote_ip == p.remote_ip,
            r.remote_port@ == decimal_text(p.remote_port as nat),
            r.has_no_errors(),
    {
        NewTunnelForm {
            name: p.name.clone(),
            ssh_server: p.ssh_server.clone(),
            local_ip: p.local_ip.clone(),
            local_port: decimal_string(p.local_port),
            remote_ip: p.remote_ip.clone(),
            remote_port: decimal_string(p.remote_port),
            name_error: None,
            ssh_server_error: None,
            local_ip_error: None,
            local_port_error: None,
            remote_ip_error: None,
            remote_port_error: None,
        }
    }

    /// Removes every error message; the typed text stays.
    pub fn clear_errors(&mut self)
        ensures
            final(self).has_no_errors(),
            final(self).same_text(old(self)),
    {
        self.name_error = None;
        self.ssh_server_error = None;
        self.local_ip_error = None;
        self.local_port_error = None;
        self.remote_ip_error = None;
        self.remote_port_error = None;
    }

    /// Reads a port field: the port where it is a number from 1 to 65535,
    /// else the message that rejects it.
    pub fn validate_port(port: &str) -> (r: Result<u16, String>)
        ensures
            r is Ok <==> port_check(port@) is Ok,
            r matches Ok(p) ==> port_check(port@) == Ok::<u16, Seq<char>>(p),
            r matches Err(e) ==> port_check(port@) == Err::<u16, Seq<char>>(e@),
    {
        match parse_u16_text(port) {
            Some(p) => {
                if p > 0 {
                    Ok(p)
                } else {
                    Err(String::from_str("Port must be between 1 and 65535"))
                }
            },
            None => Err(String::from_str("Invalid port number")),
        }
    }

    /// Validates the form given its text fields already trimmed: sets each
    /// field's error message, or clears it, and says whether every field
    /// passed.
    pub fn validate_trimmed(
        &mut self,
        name: &str,
        ssh_server: &str,
        local_ip: &str,
        remote_ip: &str,
    ) -> (r: bool)
        ensures
            final(self).same_text(old(self)),
            r == old(self).is_valid_spec(name@, ssh_server@, local_ip@, remote_ip@),
            final(self).errors_match(name@, ssh_server@, local_ip@, remote_ip@),
    {
        self.clear_errors();
        let mut is_valid = true;
        if name.is_empty() {
            self.name_error = Some(String::from_str("Name is required"));
            is_valid = false;
        }
        if ssh_server.is_empty() {
            self.ssh_server_error = Some(String::from_str("SSH Server is required"));
            is_valid = false;
        }
        if local_ip.is_empty() {
            self.local_ip_error = Some(String::from_str("Local IP is required"));
            is_valid = false;
        }
        if remote_ip.is_empty() {
            self.remote_ip_error = Some(String::from_str("Remote IP is required"));
            is_valid = false;
        }
        self.local_port_error = match Self::validate_port(self.local_port.as_str()) {
            Ok(_) => None,
            Err(e) => {
                is_valid = false;
                Some(e)
            },
        };
        self.remote_port_error = match Self::validate_port(self.remote_port.as_str()) {
            Ok(_) => None,
            Err(e) => {
                is_valid = false;
                Some(e)
            },
        };
        is_valid
    }

    /// Validates the form: each text field, trimmed, must be non-empty, and
    /// each port must be a number from 1 to 65535. Sets each field's error
    /// message, or clears it, and says whether every field passed.
    pub fn validate(&mut self) -> (r: bool)
        ensures
            final(self).same_text(old(self)),
            r == old(self).is_valid_spec(
                trimmed(old(self).name@),
                trimmed(old(self).ssh_server@),
                trimmed(old(self).local_ip@),
                trimmed(old(self).remote_ip@),
            ),
            final(self).errors_match(
                trimmed(old(self).name@),
                trimmed(old(self).ssh_server@),
                trimmed(old(self).local_ip@),
                trimmed(old(self).remote_ip@),
            ),
    {
        let name = trim_text(self.name.as_str());
        let ssh_server = trim_text(self.ssh_server.as_str());
        let local_ip = trim_text(self.local_ip.as_str());
        let remote_ip = trim_text(self.remote_ip.as_str());
        self.validate_trimmed(name.as_str(), ssh_server.as_str(), local_ip.as_str(), remote_ip.as_str())
    }

    /// The parameters that the form describes: text fields trimmed, and each
    /// port as read, or 0 where it is not a number.
    pub fn to_params(&self) -> (r: TunnelParams)
        ensures
            r.name@ == trimmed(self.name@),
            r.ssh_server@ == trimmed(self.ssh_server@),
            r.local_ip@ == trimmed(self.local_ip@),
            r.local_port == port_or_zero(self.local_port@),
            r.remote_ip@ == trimmed(self.remote_ip@),
            r.remote_port == port_or_zero(self.remote_port@),
    {
        let local_port = match parse_u16_text(self.local_port.as_str()) {
            Some(p) => p,
            None => 0,
        };
        let remote_port = match parse_u16_text(self.remote_port.as_str()) {
            Some(p) => p,
            None => 0,
        };
        TunnelParams {
            name: trim_text(self.name.as_str()),
            ssh_server: trim_text(self.ssh_server.as_str()),
            local_ip: trim_text(self.local_ip.as_str()),
            local_port,
            remote_ip: trim_text(self.remote_ip.as_str()),
            remote_port,
        }
    }
}

impl Default for NewTunnelForm {
    fn default() -> (r: Self)
        ensures
            r.name@ == Seq::<char>::empty(),
            r.ssh_server@ == Seq::<char>::empty(),
            r.local_ip@ == "127.0.0.1"@,
            r.local_port@ == Seq::<char>::empty(),
            r.remote_ip@ == "127.0.0.1"@,
            r.remote_port@ == Seq::<char>::empty(),
            r.has_no_errors(),
    {
        NewTunnelForm::new()
    }
}

} // verus!
