//! The listener's settings, the input of sourced configuration files, and
//! wall-clock waits until a Unix deadline.

use vstd::prelude::*;

use crate::share::NANOS_PER_SECOND;
use crate::text::{ascii_chars, decimal};
use crate::urls::{local_endpoint_origin, DEFAULT_PORT, HTTP_PREFIX};

verus! {

/// Where the web-share listener binds and which frontend it serves.
#[derive(Debug, Clone)]
pub struct WebShareSettings {
    pub host: String,
    pub port: u16,
    pub frontend_origin: String,
    pub frontend_url: String,
}

/// The listener's address as reported to clients.
#[derive(Debug, Clone)]
pub struct WebShareListener {
    pub host: String,
    pub port: u16,
    pub frontend_origin: String,
}

/// Why settings are refused.
#[derive(Debug, Clone, Copy, PartialEq, Eq, Structural)]
pub enum SettingsError {
    /// The port is zero.
    PortOutOfRange,
}

impl WebShareSettings {
    /// Loopback on port 9777, serving the hosted frontend.
    pub fn default_settings() -> (s: Self)
        ensures
            s.host@ == "127.0.0.1"@,
            s.port == DEFAULT_PORT,
            s.frontend_origin@ == "https://share.rmux.io"@,
            s.frontend_url@ == "https://share.rmux.io"@,
    {
        WebShareSettings {
            host: "127.0.0.1".to_owned(),
            port: DEFAULT_PORT,
            frontend_origin: "https://share.rmux.io".to_owned(),
            frontend_url: "https://share.rmux.io".to_owned(),
        }
    }

    /// Loopback on the given port, serving the hosted frontend; a zero port
    /// is refused.
    pub fn with_port(port: u16) -> (r: Result<Self, SettingsError>)
        ensures
            port == 0 ==> r == Err::<Self, SettingsError>(SettingsError::PortOutOfRange),
            port != 0 ==> (r matches Ok(s) && s.host@ == "127.0.0.1"@ && s.port == port
                && s.frontend_origin@ == "https://share.rmux.io"@ && s.frontend_url@
                == "https://share.rmux.io"@),
    {
        if port == 0 {
            return Err(SettingsError::PortOutOfRange);
        }
        let mut s = Self::default_settings();
        s.port = port;
        Ok(s)
    }

    /// The listener's address.
    pub fn listener(&self) -> (l: WebShareListener)
        ensures
            l.host@ == self.host@,
            l.port == self.port,
            l.frontend_origin@ == self.frontend_origin@,
    {
        WebShareListener {
            host: self.host.clone(),
            port: self.port,
            frontend_origin: self.frontend_origin.clone(),
        }
    }

    /// `http://host:port`.
    pub fn local_endpoint_origin(&self) -> (o: String)
        ensures
            o@ == ascii_chars(HTTP_PREFIX@) + self.host@ + ascii_chars(seq![0x3au8]) + ascii_chars(
                decimal(self.port as nat),
            ),
    {
        local_endpoint_origin(self.host.as_str(), self.port)
    }
}

/// A configuration file to source: its path and contents.
#[derive(Debug, Clone)]
pub struct SourceInput {
    pub current_file: String,
    pub contents: String,
}

/// The input that tmux-compatible sourcing runs: the file as it is, runtime
/// commands included.
pub fn tmux_compat_input(input: &SourceInput) -> (out: SourceInput)
    ensures
        out.current_file@ == input.current_file@,
        out.contents@ == input.contents@,
{
    SourceInput { current_file: input.current_file.clone(), contents: input.contents.clone() }
}

/// Nanoseconds from `now` (since the Unix epoch) until the given Unix
/// second, zero once it has passed.
pub fn duration_until_unix(expires_at_unix: u64, now: u128) -> (d: u128)
    ensures
        d == (if expires_at_unix * NANOS_PER_SECOND >= now {
            expires_at_unix * NANOS_PER_SECOND - now
        } else {
            0
        }),
{
    let deadline = (expires_at_unix as u128) * NANOS_PER_SECOND;
    deadline.saturating_sub(now)
}

} // verus!
