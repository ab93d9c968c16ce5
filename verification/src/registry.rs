//! The registry's decisions around its shares: whether the listener can take
//! new shares, which backoff entry an access attempt counts against, and how
//! an attempt's outcome updates the backoff.

use vstd::prelude::*;
use vstd::utf8::encode_utf8;

use crate::backoff::{AuthBackoff, AuthBackoffFailure, BackoffEntry};
use crate::bytes::push_all;
use crate::settings::{WebShareListener, WebShareSettings};
use crate::share::{share_error_message, spec_is_auth_failure, ShareError};
use crate::text::{
    all_ascii, ascii_chars, decimal, decimal_string, lemma_ascii_encoding, lemma_encode_concat,
    utf8_string,
};
use vstd::string::StringExecFns;

verus! {

broadcast use vstd::utf8::group_utf8_lib;

/// `web-share listener unavailable: `.
pub const LISTENER_UNAVAILABLE_PREFIX: [u8; 32] = [
    0x77, 0x65, 0x62, 0x2d, 0x73, 0x68, 0x61, 0x72, 0x65, 0x20, 0x6c, 0x69, 0x73, 0x74, 0x65, 0x6e,
    0x65, 0x72, 0x20, 0x75, 0x6e, 0x61, 0x76, 0x61, 0x69, 0x6c, 0x61, 0x62, 0x6c, 0x65, 0x3a, 0x20,
];

/// `token_id:`, the backoff key of a token id that names no share.
pub const TOKEN_ID_KEY_PREFIX: [u8; 9] = [0x74, 0x6f, 0x6b, 0x65, 0x6e, 0x5f, 0x69, 0x64, 0x3a];

/// Whether the listener can serve shares, and if not, why.
#[derive(Debug, Clone, PartialEq, Eq)]
pub enum WebListenerState {
    Available,
    Unavailable(String),
}

/// The registry's listener state, backoff table and settings.
pub struct WebShareRegistry {
    backoff: AuthBackoff,
    listener: WebListenerState,
    settings: WebShareSettings,
}

/// The message refusing a share while the listener is unavailable.
pub open spec fn unavailable_message(reason: Seq<char>) -> Seq<char> {
    ascii_chars(LISTENER_UNAVAILABLE_PREFIX@) + reason
}

/// The backoff key of an access attempt: the share's id when the token id
/// names a share, else `token_id:` and the token id, so that guessing
/// unknown ids is slowed down too.
pub open spec fn spec_backoff_key(share_id: Option<Seq<char>>, token_id: Seq<char>) -> Seq<char> {
    match share_id {
        Some(id) => id,
        None => ascii_chars(TOKEN_ID_KEY_PREFIX@) + token_id,
    }
}

/// Builds the backoff key of an access attempt.
pub fn backoff_key(share_id: Option<&str>, token_id: &str) -> (key: String)
    ensures
        key@ == spec_backoff_key(
            match share_id {
                Some(id) => Some(id@),
                None => None,
            },
            token_id@,
        ),
{
    match share_id {
        Some(id) => id.to_owned(),
        None => {
            let mut out: Vec<u8> = Vec::new();
            push_all(&mut out, &TOKEN_ID_KEY_PREFIX);
            push_all(&mut out, token_id.as_bytes());
            proof {
                assert(all_ascii(TOKEN_ID_KEY_PREFIX@));
                lemma_ascii_encoding(TOKEN_ID_KEY_PREFIX@);
                lemma_encode_concat(ascii_chars(TOKEN_ID_KEY_PREFIX@), token_id@);
                assert(out@ =~= encode_utf8(ascii_chars(TOKEN_ID_KEY_PREFIX@) + token_id@));
            }
            utf8_string(out.as_slice())
        },
    }
}

impl WebShareRegistry {
    /// The backoff table.
    pub closed spec fn backoff_table(&self) -> Map<Seq<char>, BackoffEntry> {
        self.backoff.view()
    }

    /// The registry's invariant: its backoff table is well formed.
    pub closed spec fn wf(&self) -> bool {
        self.backoff.wf()
    }

    /// The listener state.
    pub closed spec fn listener_state(&self) -> WebListenerState {
        self.listener
    }

    /// The settings.
    pub closed spec fn spec_settings(&self) -> WebShareSettings {
        self.settings
    }

    /// A registry with the given settings, an empty backoff table and the
    /// listener taken as up.
    pub fn new(settings: WebShareSettings) -> (r: Self)
        ensures
            r.wf(),
            r.backoff_table() == Map::<Seq<char>, BackoffEntry>::empty(),
            r.listener_state() == WebListenerState::Available,
            r.spec_settings() == settings,
    {
        WebShareRegistry { backoff: AuthBackoff::new(), listener: WebListenerState::Available, settings }
    }

    /// Records that the listener is up.
    pub fn mark_listener_available(&mut self)
        ensures
            final(self).listener_state() == WebListenerState::Available,
            final(self).backoff_table() == old(self).backoff_table(),
            final(self).wf() == old(self).wf(),
            final(self).spec_settings() == old(self).spec_settings(),
    {
        self.listener = WebListenerState::Available;
    }

    /// Records that the listener is down, and why.
    pub fn mark_listener_unavailable(&mut self, reason: String)
        ensures
            final(self).listener_state() == WebListenerState::Unavailable(reason),
            final(self).backoff_table() == old(self).backoff_table(),
            final(self).wf() == old(self).wf(),
            final(self).spec_settings() == old(self).spec_settings(),
    {
        self.listener = WebListenerState::Unavailable(reason);
    }

    /// Refuses new shares while the listener is down, with the reason.
    pub fn require_listener_available(&self) -> (r: Result<(), String>)
        ensures
            match self.listener_state() {
                WebListenerState::Available => r is Ok,
                WebListenerState::Unavailable(reason) => r matches Err(m) && m@ == unavailable_message(
                    reason@,
                ),
            },
    {
        match &self.listener {
            WebListenerState::Available => Ok(()),
            WebListenerState::Unavailable(reason) => {
                let mut out: Vec<u8> = Vec::new();
                push_all(&mut out, &LISTENER_UNAVAILABLE_PREFIX);
                push_all(&mut out, reason.as_str().as_bytes());
                proof {
                    assert(all_ascii(LISTENER_UNAVAILABLE_PREFIX@));
                    lemma_ascii_encoding(LISTENER_UNAVAILABLE_PREFIX@);
                    lemma_encode_concat(ascii_chars(LISTENER_UNAVAILABLE_PREFIX@), reason@);
                    assert(out@ =~= encode_utf8(unavailable_message(reason@)));
                }
                Err(utf8_string(out.as_slice()))
            },
        }
    }

    /// The listener's address.
    pub fn listener(&self) -> (l: WebShareListener)
        ensures
            l.host@ == self.spec_settings().host@,
            l.port == self.spec_settings().port,
            l.frontend_origin@ == self.spec_settings().frontend_origin@,
    {
        self.settings.listener()
    }

    /// The listener's configuration and the line `config` prints:
    /// `host:port frontend-origin`; refused while the listener is down.
    pub fn config(&self) -> (r: Result<(WebShareListener, String), String>)
        ensures
            match self.listener_state() {
                WebListenerState::Available => r matches Ok((l, out)) && l.host@
                    == self.spec_settings().host@ && l.port == self.spec_settings().port
                    && l.frontend_origin@ == self.spec_settings().frontend_origin@ && out@
                    == self.spec_settings().host@ + ":"@ + ascii_chars(
                    decimal(self.spec_settings().port as nat),
                ) + " "@ + self.spec_settings().frontend_origin@ + "\n"@,
                WebListenerState::Unavailable(reason) => r matches Err(m) && m@ == unavailable_message(
                    reason@,
                ),
            },
    {
        self.require_listener_available()?;
        let listener = self.listener();
        let mut out = String::new();
        out.append(listener.host.as_str());
        out.append(":");
        let port = decimal_string(listener.port as u64);
        out.append(port.as_str());
        out.append(" ");
        out.append(listener.frontend_origin.as_str());
        out.append("\n");
        Ok((listener, out))
    }

    /// Nanoseconds an access attempt under `key` must wait before it is
    /// served, at `now`.
    pub fn delay_before_attempt_at(&mut self, key: &str, now: u64) -> (delay: u64)
        requires
            old(self).wf(),
        ensures
            final(self).wf(),
            (final(self).backoff_table(), delay) == crate::backoff::spec_delay(
                old(self).backoff_table(),
                key@,
                now,
            ),
            final(self).listener_state() == old(self).listener_state(),
    {
        self.backoff.delay_before_next_attempt_at(key, now)
    }

    /// Settles an access attempt under `key` at `now`: success forgets the
    /// key's failures; a failed authentication (a wrong key or pairing code,
    /// or an unknown share) counts as a failure; any other refusal leaves the
    /// table alone.
    pub fn settle_attempt_at(&mut self, key: &str, outcome: Result<(), ShareError>, now: u64) -> (failure: Option<AuthBackoffFailure>)
        requires
            old(self).wf(),
        ensures
            final(self).wf(),
            final(self).listener_state() == old(self).listener_state(),
            match outcome {
                Ok(()) => failure is None && final(self).backoff_table() == old(
                    self,
                ).backoff_table().remove(key@),
                Err(e) => if spec_is_auth_failure(share_error_message(e)) {
                    failure matches Some(f) && crate::backoff::spec_record_failure(
                        old(self).backoff_table(),
                        key@,
                        now,
                        final(self).backoff_table(),
                    ) && final(self).backoff_table().contains_key(key@) && f.fails
                        == final(self).backoff_table()[key@].fails && f.next_delay_nanos
                        == crate::backoff::failure_delay(f.fails)
                } else {
                    failure is None && final(self).backoff_table() == old(self).backoff_table()
                },
            },
    {
        match outcome {
            Ok(()) => {
                self.backoff.record_success(key);
                None
            },
            Err(e) => {
                if crate::share::is_auth_failure_for_backoff(e.message()) {
                    Some(self.backoff.record_failure_at(key, now))
                } else {
                    None
                }
            },
        }
    }
}

} // verus!
