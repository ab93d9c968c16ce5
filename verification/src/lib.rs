//! Verified core of the web-share layer: encrypted record framing, key
//! schedule, share secrets, websocket framing, authentication backoff and
//! connection bookkeeping.

pub mod aead;
pub mod ansi;
pub mod auto_named;
pub mod backoff;
pub mod bytes;
pub mod clock;
pub mod commands;
pub mod create;
pub mod error;
pub mod exited_outputs;
pub mod join_move;
pub mod key_dispatch;
pub mod leases;
pub mod pre_auth;
pub mod protocol;
pub mod rate_limit;
pub mod record;
pub mod refresh;
pub mod registry;
pub mod framing;
pub mod order;
pub mod passthrough;
pub mod handshake;
pub mod http;
pub mod random;
pub mod schedule;
pub mod secrets;
pub mod session;
pub mod settings;
pub mod share;
pub mod share_record;
pub mod share_output;
pub mod stream;
pub mod subscriptions;
pub mod text;
pub mod upgrade;
pub mod urls;
pub mod websocket;
pub mod digest;
pub mod encoding;
pub mod window_links;
