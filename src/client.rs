use crate::models::{Error, OSCQueryInitError, OSCServiceType};
use crate::text::{chars_of, parse_u16, parse_u16_spec, split_on, split_str, strings_view};
use vstd::prelude::*;

verus! {

/// The start of a line of the discovery helper that reports the OSC
/// endpoint of the peer.
pub open spec fn osc_marker() -> Seq<char> {
    "VRC_OSC_ADDR_DISCOVERY "@
}

/// The start of a line of the discovery helper that reports the query
/// endpoint of the peer.
pub open spec fn query_marker() -> Seq<char> {
    "VRC_OSCQUERY_ADDR_DISCOVERY "@
}

/// The host and port of a `host:port` token: exactly one colon, and a
/// port that reads as a 16-bit number.
pub open spec fn parse_address(token: Seq<char>) -> Option<(Seq<char>, u16)> {
    let parts = split_on(token, ':');
    if parts.len() == 2 {
        match parse_u16_spec(parts[1]) {
            Some(port) => Some((parts[0], port)),
            None => None,
        }
    } else {
        None
    }
}

/// What a line of the discovery helper reports: a marker, then a single
/// `host:port` token after its one space. Anything else reports nothing.
pub open spec fn parse_discovery_line(line: Seq<char>) -> Option<(OSCServiceType, Seq<char>, u16)> {
    let kind = if osc_marker().is_prefix_of(line) {
        Some(OSCServiceType::OSC)
    } else if query_marker().is_prefix_of(line) {
        Some(OSCServiceType::Query)
    } else {
        None
    };
    match kind {
        Some(k) => {
            let parts = split_on(line, ' ');
            if parts.len() == 2 {
                match parse_address(parts[1]) {
                    Some(a) => Some((k, a.0, a.1)),
                    None => None,
                }
            } else {
                None
            }
        },
        None => None,
    }
}

/// Whether `s` starts with `prefix`.
fn starts_with(s: &Vec<char>, prefix: &str) -> (r: bool)
    ensures
        r == prefix@.is_prefix_of(s@),
{
    let p = chars_of(prefix);
    if p.len() > s.len() {
        return false;
    }
    let mut i: usize = 0;
    while i < p.len()
        invariant
            p@ == prefix@,
            p.len() <= s.len(),
            i <= p.len(),
            forall|j: int| 0 <= j < i ==> p@[j] == s@[j],
        decreases p.len() - i,
    {
        if p[i] != s[i] {
            return false;
        }
        i = i + 1;
    }
    true
}

/// Reads a `host:port` token.
pub fn parse_address_token(token: &str) -> (r: Option<(String, u16)>)
    ensures
        match parse_address(token@) {
            Some(a) => match r {
                Some(x) => x.0@ == a.0 && x.1 == a.1,
                None => false,
            },
            None => r is None,
        },
{
    let parts = split_str(token, ':');
    proof {
        assert(strings_view(parts@).len() == parts@.len());
    }
    if parts.len() != 2 {
        return None;
    }
    assert(strings_view(parts@)[1] == parts@[1]@);
    assert(strings_view(parts@)[0] == parts@[0]@);
    match parse_u16(parts[1].as_str()) {
        Some(port) => Some((parts[0].clone(), port)),
        None => None,
    }
}

/// Reads a line of the discovery helper.
pub fn parse_discovery_line_exec(line: &str) -> (r: Option<(OSCServiceType, String, u16)>)
    ensures
        match parse_discovery_line(line@) {
            Some(d) => match r {
                Some(x) => x.0 == d.0 && x.1@ == d.1 && x.2 == d.2,
                None => false,
            },
            None => r is None,
        },
{
    let cs = chars_of(line);
    let kind = if starts_with(&cs, "VRC_OSC_ADDR_DISCOVERY ") {
        OSCServiceType::OSC
    } else if starts_with(&cs, "VRC_OSCQUERY_ADDR_DISCOVERY ") {
        OSCServiceType::Query
    } else {
        return None;
    };
    let parts = split_str(line, ' ');
    proof {
        assert(strings_view(parts@).len() == parts@.len());
    }
    if parts.len() != 2 {
        return None;
    }
    assert(strings_view(parts@)[1] == parts@[1]@);
    match parse_address_token(parts[1].as_str()) {
        Some((host, port)) => Some((kind, host, port)),
        None => None,
    }
}

/// What the discovery client knows: whether it runs, and the endpoints of
/// the peer found so far.
pub struct ClientState {
    pub initialized: bool,
    pub osc_host: Option<String>,
    pub osc_port: Option<u16>,
    pub oscquery_host: Option<String>,
    pub oscquery_port: Option<u16>,
}

impl ClientState {
    pub open spec fn is_empty(&self) -> bool {
        &&& !self.initialized
        &&& self.osc_host is None
        &&& self.osc_port is None
        &&& self.oscquery_host is None
        &&& self.oscquery_port is None
    }

    pub fn new() -> (r: ClientState)
        ensures
            r.is_empty(),
    {
        ClientState {
            initialized: false,
            osc_host: None,
            osc_port: None,
            oscquery_host: None,
            oscquery_port: None,
        }
    }

    /// Starts an initialization. Refused, with nothing changed, while
    /// already initialized.
    pub fn init(&mut self) -> (r: Result<(), Error>)
        ensures
            old(self).initialized ==> (r matches Err(
                Error::InitError(OSCQueryInitError::AlreadyInitialized),
            )),
            old(self).initialized ==> *final(self) == *old(self),
            !old(self).initialized ==> r is Ok,
            !old(self).initialized ==> *final(self) == (ClientState {
                initialized: true,
                ..*old(self)
            }),
    {
        if self.initialized {
            return Err(Error::InitError(OSCQueryInitError::AlreadyInitialized));
        }
        self.initialized = true;
        Ok(())
    }

    /// Gives up an initialization that could not be completed.
    pub fn abort_init(&mut self)
        ensures
            *final(self) == (ClientState { initialized: false, ..*old(self) }),
    {
        self.initialized = false;
    }

    /// Succeeds exactly while initialized.
    pub fn require_initialized(&self) -> (r: Result<(), Error>)
        ensures
            self.initialized <==> r is Ok,
            !self.initialized ==> (r matches Err(
                Error::InitError(OSCQueryInitError::NotYetInitialized),
            )),
    {
        if !self.initialized {
            return Err(Error::InitError(OSCQueryInitError::NotYetInitialized));
        }
        Ok(())
    }

    /// Forgets the peer and ends the client's state. Refused, with nothing
    /// changed, while not initialized.
    pub fn deinit(&mut self) -> (r: Result<(), Error>)
        ensures
            !old(self).initialized ==> (r matches Err(
                Error::InitError(OSCQueryInitError::NotYetInitialized),
            )),
            !old(self).initialized ==> *final(self) == *old(self),
            old(self).initialized ==> r is Ok && final(self).is_empty(),
    {
        if !self.initialized {
            return Err(Error::InitError(OSCQueryInitError::NotYetInitialized));
        }
        self.osc_host = None;
        self.osc_port = None;
        self.oscquery_host = None;
        self.oscquery_port = None;
        self.initialized = false;
        Ok(())
    }

    /// Takes in a line of the discovery helper: a line that reports an
    /// endpoint replaces the host and port of that endpoint; any other
    /// line changes nothing.
    pub fn process_log_line(&mut self, line: String)
        ensures
            match parse_discovery_line(line@) {
                Some(d) => match d.0 {
                    OSCServiceType::OSC => *final(self) == (ClientState {
                        osc_host: final(self).osc_host,
                        osc_port: Some(d.2),
                        ..*old(self)
                    }) && final(self).osc_host is Some && final(self).osc_host->0@ == d.1,
                    OSCServiceType::Query => *final(self) == (ClientState {
                        oscquery_host: final(self).oscquery_host,
                        oscquery_port: Some(d.2),
                        ..*old(self)
                    }) && final(self).oscquery_host is Some && final(self).oscquery_host->0@ == d.1,
                },
                None => *final(self) == *old(self),
            },
    {
        match parse_discovery_line_exec(line.as_str()) {
            Some((OSCServiceType::OSC, host, port)) => {
                self.osc_host = Some(host);
                self.osc_port = Some(port);
            },
            Some((OSCServiceType::Query, host, port)) => {
                self.oscquery_host = Some(host);
                self.oscquery_port = Some(port);
            },
            None => {},
        }
    }

    pub fn get_vrchat_osc_host(&self) -> (r: Option<String>)
        ensures
            r == self.osc_host,
    {
        match &self.osc_host {
            Some(h) => Some(h.clone()),
            None => None,
        }
    }

    pub fn get_vrchat_osc_port(&self) -> (r: Option<u16>)
        ensures
            r == self.osc_port,
    {
        self.osc_port
    }

    /// The host and port of the peer's OSC endpoint, once both are known.
    pub fn get_vrchat_osc_address(&self) -> (r: Option<(String, u16)>)
        ensures
            match (self.osc_host, self.osc_port) {
                (Some(h), Some(p)) => r == Some((h, p)),
                _ => r is None,
            },
    {
        match (&self.osc_host, self.osc_port) {
            (Some(h), Some(p)) => Some((h.clone(), p)),
            _ => None,
        }
    }

    pub fn get_vrchat_oscquery_host(&self) -> (r: Option<String>)
        ensures
            r == self.oscquery_host,
    {
        match &self.oscquery_host {
            Some(h) => Some(h.clone()),
            None => None,
        }
    }

    pub fn get_vrchat_oscquery_port(&self) -> (r: Option<u16>)
        ensures
            r == self.oscquery_port,
    {
        self.oscquery_port
    }

    /// The host and port of the peer's query endpoint, once both are
    /// known.
    pub fn get_vrchat_oscquery_address(&self) -> (r: Option<(String, u16)>)
        ensures
            match (self.oscquery_host, self.oscquery_port) {
                (Some(h), Some(p)) => r == Some((h, p)),
                _ => r is None,
            },
    {
        match (&self.oscquery_host, self.oscquery_port) {
            (Some(h), Some(p)) => Some((h.clone(), p)),
            _ => None,
        }
    }
}

} // verus!
