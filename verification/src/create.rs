//! Creating a share: the checks in their order, the secrets it is given, and
//! the record and response assembled from them.

use vstd::prelude::*;
use vstd::utf8::encode_utf8;

use crate::digest::sha256;
use crate::leases::LeaseBook;
use crate::secrets::{random_pairing_code, random_share_id, random_token, SecretError, SecretHash};
use crate::share::{
    check_kill_on_expire_target, resolve_expiration, spec_resolve_expiration, spec_validate_create, validate_create,
    CreateShareOptions, ShareError, NANOS_PER_SECOND,
};
use crate::share_output::{created_output, spec_created_output, RFC3339_MAX_SECONDS};
use crate::share_record::{WebShareRecord, WebShareUrlOptions};
use crate::urls::{occurs_from, SCHEME_SEPARATOR};

verus! {

/// The secrets of a new share: its id, its read token, an operator token
/// for a writable share and a pairing code when one is required.
pub struct DrawnSecrets {
    pub share_id: String,
    pub read_token: String,
    pub operator_token: Option<String>,
    pub pairing_code: Option<String>,
}

/// Draws a new share's secrets in order: the id, the read token, the
/// operator token (writable shares only), the pairing code (when required).
/// Fails as soon as a draw fails.
pub fn draw_secrets(writable: bool, require_pin: bool) -> (r: Result<DrawnSecrets, SecretError>)
    ensures
        r matches Ok(d) ==> (d.operator_token is Some <==> writable) && (d.pairing_code is Some <==> require_pin),
{
    let share_id = random_share_id()?;
    let read_token = random_token()?;
    let operator_token = if writable {
        Some(random_token()?)
    } else {
        None
    };
    let pairing_code = if require_pin {
        Some(random_pairing_code()?)
    } else {
        None
    };
    Ok(DrawnSecrets { share_id, read_token, operator_token, pairing_code })
}

/// What creating a share returns beside its record.
pub struct WebShareCreated {
    pub share_id: String,
    pub scope: String,
    pub read_url: String,
    pub operator_url: Option<String>,
    pub expires_at_unix: Option<u64>,
    pub pairing_code: Option<String>,
    pub max_readers: u16,
    pub writable: bool,
    pub controls: bool,
    pub kill_session_on_expire: bool,
    pub output: String,
}

/// Why creating a share is refused, in the order of the checks: the request
/// checks, then the kill-on-expire target, then the expiration; `None` when
/// it is not.
pub open spec fn spec_create_error(listener_available: bool, o: CreateShareOptions, now: u128) -> Option<ShareError> {
    match spec_validate_create(listener_available, o) {
        Err(e) => Some(e),
        Ok(_) => if o.kill_session_on_expire && !o.session_target {
            Some(ShareError::KillOnExpireRequiresSession)
        } else {
            match spec_resolve_expiration(o.ttl_seconds, o.expires_at_unix, now) {
                Err(e) => Some(e),
                Ok(_) => None,
            }
        },
    }
}

/// The characters of an optional string.
pub open spec fn opt_view(s: Option<String>) -> Option<Seq<char>> {
    match s {
        Some(x) => Some(x@),
        None => None,
    }
}

/// Creates a share from its checked request and drawn secrets, at `now`
/// (nanoseconds since the Unix epoch). The endpoint origin and frontend are
/// the validated ones; `public` tells whether a public base URL was given
/// (only a local share allows loopback development origins).
pub fn create_share(
    listener_available: bool,
    o: CreateShareOptions,
    public: bool,
    endpoint_origin: String,
    frontend_origin: String,
    frontend_url: String,
    scope: String,
    url_options: WebShareUrlOptions,
    secrets: DrawnSecrets,
    now: u128,
) -> (r: Result<(WebShareRecord, WebShareCreated), ShareError>)
    requires
        now <= u64::MAX * NANOS_PER_SECOND,
        occurs_from(encode_utf8(endpoint_origin@), 0, SCHEME_SEPARATOR@),
        secrets.operator_token is Some <==> o.writable,
        spec_resolve_expiration(o.ttl_seconds, o.expires_at_unix, now) matches Ok(d) ==> d / NANOS_PER_SECOND
            <= RFC3339_MAX_SECONDS,
    ensures
        r is Err <==> spec_create_error(listener_available, o, now) is Some,
        r matches Err(e) ==> spec_create_error(listener_available, o, now) == Some(e),
        r matches Ok((record, created)) ==> {
            let max_readers = spec_validate_create(listener_available, o)->Ok_0;
            let expires_at = spec_resolve_expiration(o.ttl_seconds, o.expires_at_unix, now)->Ok_0;
            let unix = (expires_at / NANOS_PER_SECOND) as u64;
            &&& record.allow_loopback_development_origins == !public
            &&& record.endpoint_origin@ == endpoint_origin@
            &&& record.expires_at == Some(expires_at)
            &&& record.frontend_origin@ == frontend_origin@
            &&& record.frontend_url@ == frontend_url@
            &&& record.kill_session_on_expire == o.kill_session_on_expire
            &&& record.lease_book.readers() == 0
            &&& record.lease_book.capacity() == max_readers
            &&& !record.lease_book.operator()
            &&& record.max_readers == max_readers
            &&& record.read_token_hash.spec_bytes() == sha256(encode_utf8(secrets.read_token@))
            &&& (match secrets.operator_token {
                Some(t) => record.operator_token_hash matches Some(h) && h.spec_bytes() == sha256(encode_utf8(t@)),
                None => record.operator_token_hash is None,
            })
            &&& opt_view(record.pairing_code) == opt_view(secrets.pairing_code)
            &&& record.controls == o.controls
            &&& record.share_id@ == secrets.share_id@
            &&& record.scope@ == scope@
            &&& record.url_options == url_options
            &&& record.writable == o.writable
            &&& record.has_endpoint_scheme()
            &&& created.share_id@ == secrets.share_id@
            &&& created.scope@ == scope@
            &&& encode_utf8(created.read_url@) == record.link_bytes(encode_utf8(secrets.read_token@))
            &&& (match secrets.operator_token {
                Some(t) => created.operator_url matches Some(u) && encode_utf8(u@) == record.link_bytes(encode_utf8(t@)),
                None => created.operator_url is None,
            })
            &&& created.expires_at_unix == Some(unix)
            &&& opt_view(created.pairing_code) == opt_view(secrets.pairing_code)
            &&& created.max_readers == max_readers
            &&& created.writable == o.writable
            &&& created.controls == o.controls
            &&& created.kill_session_on_expire == o.kill_session_on_expire
            &&& created.output@ == spec_created_output(
                created.read_url@,
                opt_view(secrets.pairing_code),
                Some(unix),
                o.kill_session_on_expire,
            )
        },
{
    let max_readers = validate_create(listener_available, o)?;
    check_kill_on_expire_target(o)?;
    let expires_at = resolve_expiration(o.ttl_seconds, o.expires_at_unix, now)?;
    let unix = (expires_at / NANOS_PER_SECOND) as u64;
    let read_token_hash = SecretHash::from_secret(secrets.read_token.as_str());
    let operator_token_hash = match &secrets.operator_token {
        Some(t) => Some(SecretHash::from_secret(t.as_str())),
        None => None,
    };
    let record = WebShareRecord {
        allow_loopback_development_origins: !public,
        endpoint_origin,
        expires_at: Some(expires_at),
        frontend_origin,
        frontend_url,
        kill_session_on_expire: o.kill_session_on_expire,
        lease_book: LeaseBook::new(max_readers as usize),
        max_readers,
        operator_token_hash,
        pairing_code: match &secrets.pairing_code {
            Some(c) => Some(c.clone()),
            None => None,
        },
        controls: o.controls,
        share_id: secrets.share_id.clone(),
        scope: scope.clone(),
        url_options,
        read_token_hash,
        writable: o.writable,
    };
    let read_url = record.read_url(secrets.read_token.as_str());
    let operator_url = record.operator_url(
        match &secrets.operator_token {
            Some(t) => Some(t.as_str()),
            None => None,
        },
    );
    let output = created_output(
        read_url.as_str(),
        match &secrets.pairing_code {
            Some(c) => Some(c.as_str()),
            None => None,
        },
        Some(unix),
        o.kill_session_on_expire,
    );
    let created = WebShareCreated {
        share_id: secrets.share_id,
        scope,
        read_url,
        operator_url,
        expires_at_unix: Some(unix),
        pairing_code: secrets.pairing_code,
        max_readers,
        writable: o.writable,
        controls: o.controls,
        kill_session_on_expire: o.kill_session_on_expire,
        output,
    };
    Ok((record, created))
}

/// Creates a share, drawing its secrets after the request checks and before
/// the kill-on-expire and expiration checks; a failed draw refuses the
/// share with `RandomUnavailable`.
pub fn create_share_drawing(
    listener_available: bool,
    o: CreateShareOptions,
    require_pin: bool,
    public: bool,
    endpoint_origin: String,
    frontend_origin: String,
    frontend_url: String,
    scope: String,
    url_options: WebShareUrlOptions,
    now: u128,
) -> (r: Result<(WebShareRecord, WebShareCreated), ShareError>)
    requires
        now <= u64::MAX * NANOS_PER_SECOND,
        occurs_from(encode_utf8(endpoint_origin@), 0, SCHEME_SEPARATOR@),
        spec_resolve_expiration(o.ttl_seconds, o.expires_at_unix, now) matches Ok(d) ==> d / NANOS_PER_SECOND
            <= RFC3339_MAX_SECONDS,
    ensures
        spec_validate_create(listener_available, o) matches Err(e) ==> r == Err::<
            (WebShareRecord, WebShareCreated),
            ShareError,
        >(e),
        r matches Err(e) ==> e == ShareError::RandomUnavailable || spec_create_error(listener_available, o, now)
            == Some(e),
        r matches Ok((record, created)) ==> spec_create_error(listener_available, o, now) is None
            && record.writable == o.writable && (record.pairing_code is Some <==> require_pin)
            && record.max_readers == spec_validate_create(listener_available, o)->Ok_0
            && record.expires_at == Some(spec_resolve_expiration(o.ttl_seconds, o.expires_at_unix, now)->Ok_0)
            && created.output@ == spec_created_output(
                created.read_url@,
                opt_view(record.pairing_code),
                created.expires_at_unix,
                o.kill_session_on_expire,
            ),
{
    validate_create(listener_available, o)?;
    let secrets = match draw_secrets(o.writable, require_pin) {
        Ok(d) => d,
        Err(_) => return Err(ShareError::RandomUnavailable),
    };
    create_share(
        listener_available,
        o,
        public,
        endpoint_origin,
        frontend_origin,
        frontend_url,
        scope,
        url_options,
        secrets,
        now,
    )
}

} // verus!
