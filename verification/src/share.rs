//! A share's access rules: who may connect in which role, with which pairing
//! code, and which errors count as failed authentication; the revoke reasons
//! and connection counts reported to viewers; and the checks on a request to
//! create a share.

use vstd::prelude::*;

use crate::leases::{LeaseBook, OperatorLease, ReadLease};
use crate::protocol::{str_contains, text_contains};
use crate::secrets::secret_eq;

verus! {

/// Readers a share allows unless told otherwise.
pub const DEFAULT_MAX_READERS: u16 = 5;
/// Lifetime of a share unless told otherwise: one hour.
pub const DEFAULT_TTL_SECONDS: u64 = 3600;
/// Longest lifetime of a share: seven days.
pub const MAX_TTL_SECONDS: u64 = 604800;
/// Nanoseconds per second.
pub const NANOS_PER_SECOND: u128 = 1_000_000_000;

/// Why a share's stream ends.
#[derive(Debug, Clone, Copy, PartialEq, Eq, Structural)]
pub enum WebShareRevokeReason {
    PaneGone,
    SessionGone,
    StoppedByOwner,
    TtlExpired,
}

/// The wire name of a revoke reason.
pub open spec fn revoke_reason_name(r: WebShareRevokeReason) -> Seq<char> {
    match r {
        WebShareRevokeReason::PaneGone => "pane_gone"@,
        WebShareRevokeReason::SessionGone => "session_gone"@,
        WebShareRevokeReason::StoppedByOwner => "stopped_by_owner"@,
        WebShareRevokeReason::TtlExpired => "ttl_expired"@,
    }
}

impl WebShareRevokeReason {
    /// The wire name of the reason.
    pub fn as_str(self) -> (s: &'static str)
        ensures
            s@ == revoke_reason_name(self),
    {
        match self {
            WebShareRevokeReason::PaneGone => "pane_gone",
            WebShareRevokeReason::SessionGone => "session_gone",
            WebShareRevokeReason::StoppedByOwner => "stopped_by_owner",
            WebShareRevokeReason::TtlExpired => "ttl_expired",
        }
    }
}

/// The connection counts shown to viewers.
#[derive(Debug, Clone, Copy, PartialEq, Eq, Structural)]
pub struct WebShareConnectionCounts {
    pub readers_active: u16,
    pub readers_max: u16,
    pub operator_connected: bool,
    pub viewers_connected: u16,
}

impl WebShareConnectionCounts {
    /// Counts with the viewers being the readers plus a connected operator,
    /// held at `u16::MAX`.
    pub fn new(readers_active: u16, readers_max: u16, operator_connected: bool) -> (c: Self)
        ensures
            c.readers_active == readers_active,
            c.readers_max == readers_max,
            c.operator_connected == operator_connected,
            c.viewers_connected == (if readers_active + (if operator_connected {
                1int
            } else {
                0int
            }) > u16::MAX {
                u16::MAX as int
            } else {
                readers_active + (if operator_connected {
                    1int
                } else {
                    0int
                })
            }),
    {
        let extra: u16 = if operator_connected { 1 } else { 0 };
        WebShareConnectionCounts {
            readers_active,
            readers_max,
            operator_connected,
            viewers_connected: readers_active.saturating_add(extra),
        }
    }

    /// The counts of a lease book with the given reader capacity.
    pub fn of_book(book: &LeaseBook, readers_max: u16) -> (c: Self)
        ensures
            c.readers_active == (if book.readers() > u16::MAX {
                u16::MAX as nat
            } else {
                book.readers()
            }),
            c.readers_max == readers_max,
            c.operator_connected == book.operator(),
    {
        let n = book.reader_count();
        let active: u16 = if n > (u16::MAX as usize) {
            u16::MAX
        } else {
            n as u16
        };
        Self::new(active, readers_max, book.operator_connected())
    }
}

/// The role a connection asks for.
#[derive(Debug, Clone, Copy, PartialEq, Eq, Structural)]
pub enum WebShareConnectRole {
    Operator,
    Read,
}

/// Why a request about a share is refused.
#[derive(Debug, Clone, Copy, PartialEq, Eq, Structural)]
pub enum ShareError {
    ReadLimitReached,
    NotWritable,
    OperatorAlreadyConnected,
    MissingPairingCode,
    InvalidPairingCode,
    NotFound,
    InvalidTokenId,
    ListenerUnavailable,
    ControlsRequireWritable,
    ControlsRequireSession,
    NoReadSlot,
    KillOnExpireRequiresSession,
    TtlAndExpiresAtExclusive,
    TtlOutOfRange,
    ExpiryNotInFuture,
    ExpiryTooFar,
    RandomUnavailable,
}

/// The message of a share error.
pub open spec fn share_error_message(e: ShareError) -> Seq<char> {
    match e {
        ShareError::ReadLimitReached => "web-share read limit reached"@,
        ShareError::NotWritable => "web-share is not writable for operator role"@,
        ShareError::OperatorAlreadyConnected => "web-share operator is already connected"@,
        ShareError::MissingPairingCode => "missing web-share pairing code"@,
        ShareError::InvalidPairingCode => "invalid web-share pairing code"@,
        ShareError::NotFound => "web-share does not exist or has expired"@,
        ShareError::InvalidTokenId => "invalid web-share token id"@,
        ShareError::ListenerUnavailable => "web-share listener unavailable"@,
        ShareError::ControlsRequireWritable => "web-share controls require --writable"@,
        ShareError::ControlsRequireSession => "web-share controls require a session target"@,
        ShareError::NoReadSlot => "web-share requires at least one read slot"@,
        ShareError::KillOnExpireRequiresSession => "web-share --kill-session-on-expire requires a session target"@,
        ShareError::TtlAndExpiresAtExclusive => "web-share --ttl and --expires-at are mutually exclusive"@,
        ShareError::TtlOutOfRange => "web-share TTL must be between 1 second and 7 days"@,
        ShareError::ExpiryNotInFuture => "web-share --expires-at must be in the future"@,
        ShareError::ExpiryTooFar => "web-share expiration must be within 7 days"@,
        ShareError::RandomUnavailable => "failed to create web-share secret"@,
    }
}

impl ShareError {
    /// The error's message.
    pub fn message(self) -> (s: &'static str)
        ensures
            s@ == share_error_message(self),
    {
        match self {
            ShareError::ReadLimitReached => "web-share read limit reached",
            ShareError::NotWritable => "web-share is not writable for operator role",
            ShareError::OperatorAlreadyConnected => "web-share operator is already connected",
            ShareError::MissingPairingCode => "missing web-share pairing code",
            ShareError::InvalidPairingCode => "invalid web-share pairing code",
            ShareError::NotFound => "web-share does not exist or has expired",
            ShareError::InvalidTokenId => "invalid web-share token id",
            ShareError::ListenerUnavailable => "web-share listener unavailable",
            ShareError::ControlsRequireWritable => "web-share controls require --writable",
            ShareError::ControlsRequireSession => "web-share controls require a session target",
            ShareError::NoReadSlot => "web-share requires at least one read slot",
            ShareError::KillOnExpireRequiresSession => "web-share --kill-session-on-expire requires a session target",
            ShareError::TtlAndExpiresAtExclusive => "web-share --ttl and --expires-at are mutually exclusive",
            ShareError::TtlOutOfRange => "web-share TTL must be between 1 second and 7 days",
            ShareError::ExpiryNotInFuture => "web-share --expires-at must be in the future",
            ShareError::ExpiryTooFar => "web-share expiration must be within 7 days",
            ShareError::RandomUnavailable => "failed to create web-share secret",
        }
    }
}

/// What a pairing-code check gives: no code is needed when the share has
/// none; otherwise the given code must equal it.
pub open spec fn spec_check_pairing_code(expected: Option<Seq<char>>, pin: Option<Seq<char>>) -> Result<(), ShareError> {
    match expected {
        None => Ok(()),
        Some(code) => match pin {
            Some(p) => if p == code {
                Ok(())
            } else {
                Err(ShareError::InvalidPairingCode)
            },
            None => Err(ShareError::MissingPairingCode),
        },
    }
}

/// The characters of an optional string.
pub open spec fn opt_str_view(s: Option<&str>) -> Option<Seq<char>> {
    match s {
        Some(t) => Some(t@),
        None => None,
    }
}

/// Checks a connection's pairing code against the share's, in constant time.
pub fn check_pairing_code(expected: Option<&str>, pin: Option<&str>) -> (r: Result<(), ShareError>)
    ensures
        r == spec_check_pairing_code(opt_str_view(expected), opt_str_view(pin)),
{
    let expected = match expected {
        Some(code) => code,
        None => return Ok(()),
    };
    match pin {
        Some(provided) => if secret_eq(provided, expected) {
            Ok(())
        } else {
            Err(ShareError::InvalidPairingCode)
        },
        None => Err(ShareError::MissingPairingCode),
    }
}

/// A slot granted to a connection.
pub enum WebShareGrant {
    Read(ReadLease),
    Operator(OperatorLease),
}

/// What a connection attempt gives: a read slot after the pairing code; or,
/// for an operator, refusal on a share without an operator token, then the
/// pairing code, then the operator slot.
pub open spec fn spec_connect(
    readers: nat,
    capacity: nat,
    operator: bool,
    has_operator_token: bool,
    pairing: Option<Seq<char>>,
    pin: Option<Seq<char>>,
    role: WebShareConnectRole,
) -> Result<WebShareConnectRole, ShareError> {
    match role {
        WebShareConnectRole::Read => match spec_check_pairing_code(pairing, pin) {
            Err(e) => Err(e),
            Ok(()) => if readers < capacity {
                Ok(WebShareConnectRole::Read)
            } else {
                Err(ShareError::ReadLimitReached)
            },
        },
        WebShareConnectRole::Operator => if !has_operator_token {
            Err(ShareError::NotWritable)
        } else {
            match spec_check_pairing_code(pairing, pin) {
                Err(e) => Err(e),
                Ok(()) => if !operator {
                    Ok(WebShareConnectRole::Operator)
                } else {
                    Err(ShareError::OperatorAlreadyConnected)
                },
            }
        },
    }
}

/// The role of a grant.
pub open spec fn grant_role(g: WebShareGrant) -> WebShareConnectRole {
    match g {
        WebShareGrant::Read(_) => WebShareConnectRole::Read,
        WebShareGrant::Operator(_) => WebShareConnectRole::Operator,
    }
}

/// Admits a connection to a share in the role it asks for, taking the slot
/// from the share's lease book.
pub fn connect(
    book: &mut LeaseBook,
    has_operator_token: bool,
    pairing: Option<&str>,
    pin: Option<&str>,
    role: WebShareConnectRole,
) -> (r: Result<WebShareGrant, ShareError>)
    ensures
        (match r {
            Ok(g) => Ok(grant_role(g)),
            Err(e) => Err(e),
        }) == spec_connect(
            old(book).readers(),
            old(book).capacity(),
            old(book).operator(),
            has_operator_token,
            opt_str_view(pairing),
            opt_str_view(pin),
            role,
        ),
        final(book).capacity() == old(book).capacity(),
        final(book).id() == old(book).id(),
        r matches Ok(WebShareGrant::Read(l)) ==> l.book() == old(book).id(),
        r matches Ok(WebShareGrant::Operator(l)) ==> l.book() == old(book).id() && l.is_active(),
        r matches Ok(WebShareGrant::Read(_)) ==> final(book).readers() == old(book).readers() + 1
            && final(book).operator() == old(book).operator(),
        r matches Ok(WebShareGrant::Operator(_)) ==> final(book).readers() == old(book).readers()
            && final(book).operator(),
        r is Err ==> final(book).readers() == old(book).readers() && final(book).operator()
            == old(book).operator(),
{
    match role {
        WebShareConnectRole::Read => {
            check_pairing_code(pairing, pin)?;
            match book.try_read() {
                Some(lease) => Ok(WebShareGrant::Read(lease)),
                None => Err(ShareError::ReadLimitReached),
            }
        },
        WebShareConnectRole::Operator => {
            if !has_operator_token {
                return Err(ShareError::NotWritable);
            }
            check_pairing_code(pairing, pin)?;
            match book.try_operator() {
                Some(lease) => Ok(WebShareGrant::Operator(lease)),
                None => Err(ShareError::OperatorAlreadyConnected),
            }
        },
    }
}

/// Whether an error message marks a failed authentication, which counts
/// towards the backoff.
pub open spec fn spec_is_auth_failure(message: Seq<char>) -> bool {
    text_contains(message, "invalid web-share key"@) || text_contains(
        message,
        "invalid web-share pairing code"@,
    ) || text_contains(message, "does not exist or has expired"@)
}

/// Whether an error message marks a failed authentication.
pub fn is_auth_failure_for_backoff(message: &str) -> (r: bool)
    ensures
        r == spec_is_auth_failure(message@),
{
    str_contains(message, "invalid web-share key") || str_contains(
        message,
        "invalid web-share pairing code",
    ) || str_contains(message, "does not exist or has expired")
}

/// The options of a request to create a share that the checks read.
#[derive(Debug, Clone, Copy, PartialEq, Eq, Structural)]
pub struct CreateShareOptions {
    pub writable: bool,
    pub controls: bool,
    pub pane_scope: bool,
    pub session_target: bool,
    pub max_readers: Option<u16>,
    pub kill_session_on_expire: bool,
    pub ttl_seconds: Option<u64>,
    pub expires_at_unix: Option<u64>,
}

/// What the checks before any secret is drawn give: the reader capacity, or
/// the first reason to refuse.
pub open spec fn spec_validate_create(listener_available: bool, o: CreateShareOptions) -> Result<u16, ShareError> {
    let max_readers = match o.max_readers {
        Some(n) => n,
        None => DEFAULT_MAX_READERS,
    };
    if !listener_available {
        Err(ShareError::ListenerUnavailable)
    } else if o.controls && !o.writable {
        Err(ShareError::ControlsRequireWritable)
    } else if o.controls && o.pane_scope {
        Err(ShareError::ControlsRequireSession)
    } else if max_readers == 0 {
        Err(ShareError::NoReadSlot)
    } else {
        Ok(max_readers)
    }
}

/// Checks a create request before any secret is drawn.
pub fn validate_create(listener_available: bool, o: CreateShareOptions) -> (r: Result<u16, ShareError>)
    ensures
        r == spec_validate_create(listener_available, o),
{
    if !listener_available {
        return Err(ShareError::ListenerUnavailable);
    }
    if o.controls && !o.writable {
        return Err(ShareError::ControlsRequireWritable);
    }
    if o.controls && o.pane_scope {
        return Err(ShareError::ControlsRequireSession);
    }
    let max_readers = match o.max_readers {
        Some(n) => n,
        None => DEFAULT_MAX_READERS,
    };
    if max_readers == 0 {
        return Err(ShareError::NoReadSlot);
    }
    Ok(max_readers)
}

/// Killing the session on expiry needs a session target.
pub fn check_kill_on_expire_target(o: CreateShareOptions) -> (r: Result<(), ShareError>)
    ensures
        r == (if o.kill_session_on_expire && !o.session_target {
            Err(ShareError::KillOnExpireRequiresSession)
        } else {
            Ok::<(), ShareError>(())
        }),
{
    if o.kill_session_on_expire && !o.session_target {
        Err(ShareError::KillOnExpireRequiresSession)
    } else {
        Ok(())
    }
}

/// When a share expires, in nanoseconds since the Unix epoch: at the given
/// Unix second, or after the TTL (one hour by default, at most seven days)
/// from `now`; in the future and within seven days either way.
pub open spec fn spec_resolve_expiration(ttl_seconds: Option<u64>, expires_at_unix: Option<u64>, now: u128) -> Result<u128, ShareError> {
    if ttl_seconds is Some && expires_at_unix is Some {
        Err(ShareError::TtlAndExpiresAtExclusive)
    } else {
        let deadline: Result<int, ShareError> = match expires_at_unix {
            Some(at) => Ok(at * NANOS_PER_SECOND),
            None => {
                let ttl = match ttl_seconds {
                    Some(t) => t,
                    None => DEFAULT_TTL_SECONDS,
                };
                if ttl == 0 || ttl > MAX_TTL_SECONDS {
                    Err(ShareError::TtlOutOfRange)
                } else {
                    Ok(now + ttl * NANOS_PER_SECOND)
                }
            },
        };
        match deadline {
            Err(e) => Err(e),
            Ok(d) => if d <= now {
                Err(ShareError::ExpiryNotInFuture)
            } else if d - now > MAX_TTL_SECONDS * NANOS_PER_SECOND {
                Err(ShareError::ExpiryTooFar)
            } else {
                Ok(d as u128)
            },
        }
    }
}

/// Works out when a share expires.
pub fn resolve_expiration(ttl_seconds: Option<u64>, expires_at_unix: Option<u64>, now: u128) -> (r: Result<u128, ShareError>)
    requires
        now <= u64::MAX * NANOS_PER_SECOND,
    ensures
        r == spec_resolve_expiration(ttl_seconds, expires_at_unix, now),
{
    if ttl_seconds.is_some() && expires_at_unix.is_some() {
        return Err(ShareError::TtlAndExpiresAtExclusive);
    }
    let deadline: u128 = match expires_at_unix {
        Some(at) => (at as u128) * NANOS_PER_SECOND,
        None => {
            let ttl = match ttl_seconds {
                Some(t) => t,
                None => DEFAULT_TTL_SECONDS,
            };
            if ttl == 0 || ttl > MAX_TTL_SECONDS {
                return Err(ShareError::TtlOutOfRange);
            }
            now + (ttl as u128) * NANOS_PER_SECOND
        },
    };
    if deadline <= now {
        return Err(ShareError::ExpiryNotInFuture);
    }
    if deadline - now > (MAX_TTL_SECONDS as u128) * NANOS_PER_SECOND {
        return Err(ShareError::ExpiryTooFar);
    }
    Ok(deadline)
}

/// A share that expires kills its session only when asked to and when it
/// shares a session; this tells whether the expiry kills the target.
pub fn expiry_kills_session(kill_session_on_expire: bool, session_target: bool) -> (r: bool)
    ensures
        r == (kill_session_on_expire && session_target),
{
    kill_session_on_expire && session_target
}

/// A share with controls is always a writable session share, and every
/// share admits at least one reader.
pub proof fn lemma_created_shares_are_consistent(listener_available: bool, o: CreateShareOptions)
    ensures
        spec_validate_create(listener_available, o) matches Ok(n) ==> n >= 1 && (o.controls
            ==> o.writable && !o.pane_scope),
{
}

/// A share that resolves an expiration expires in the future and at most
/// seven days from now.
pub proof fn lemma_expiration_within_seven_days(ttl_seconds: Option<u64>, expires_at_unix: Option<u64>, now: u128)
    requires
        now <= u64::MAX * NANOS_PER_SECOND,
    ensures
        spec_resolve_expiration(ttl_seconds, expires_at_unix, now) matches Ok(d) ==> now < d && d
            <= now + MAX_TTL_SECONDS * NANOS_PER_SECOND,
{
}

/// At most one operator: while an operator is connected, no other operator
/// is admitted; and no reader is admitted once the readers fill the share.
pub proof fn lemma_connect_admits_one_operator_and_bounded_readers(
    readers: nat,
    capacity: nat,
    operator: bool,
    has_operator_token: bool,
    pairing: Option<Seq<char>>,
    pin: Option<Seq<char>>,
)
    ensures
        operator ==> spec_connect(
            readers,
            capacity,
            operator,
            has_operator_token,
            pairing,
            pin,
            WebShareConnectRole::Operator,
        ) is Err,
        readers >= capacity ==> spec_connect(
            readers,
            capacity,
            operator,
            has_operator_token,
            pairing,
            pin,
            WebShareConnectRole::Read,
        ) is Err,
{
}

} // verus!
