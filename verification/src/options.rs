//! The parameters of a connection.

use crate::error::SessionError;
use crate::message::{Message, MessageView};
use vstd::prelude::*;

verus! {

/// The keep-alive interval, in seconds, used where none is configured.
pub const DEFAULT_KEEP_ALIVE_SECS: u64 = 20;

/// Where the material for the encrypted transport is found.
#[derive(Debug, PartialEq, Eq)]
pub struct TlsMaterial {
    pub trust_store: String,
    pub key_store: String,
    pub private_key: String,
}

/// Everything a connection attempt needs. The session never changes it.
#[derive(Debug, PartialEq, Eq)]
pub struct ConnectionOptions {
    pub server_uri: String,
    pub client_id: String,
    pub keep_alive_secs: u64,
    /// Whether the broker discards the session's state on disconnect.
    pub clean_session: bool,
    /// The message the broker sends out if the client vanishes uncleanly.
    pub last_will: Option<Message>,
    pub tls: TlsMaterial,
}

/// The mathematical value of a [`ConnectionOptions`].
pub struct ConnectionOptionsView {
    pub server_uri: Seq<char>,
    pub client_id: Seq<char>,
    pub keep_alive_secs: u64,
    pub clean_session: bool,
    pub last_will: Option<MessageView>,
    pub trust_store: Seq<char>,
    pub key_store: Seq<char>,
    pub private_key: Seq<char>,
}

impl View for ConnectionOptions {
    type V = ConnectionOptionsView;

    open spec fn view(&self) -> ConnectionOptionsView {
        ConnectionOptionsView {
            server_uri: self.server_uri@,
            client_id: self.client_id@,
            keep_alive_secs: self.keep_alive_secs,
            clean_session: self.clean_session,
            last_will: match self.last_will {
                Some(m) => Some(m@),
                None => None,
            },
            trust_store: self.tls.trust_store@,
            key_store: self.tls.key_store@,
            private_key: self.tls.private_key@,
        }
    }
}

/// Configuration as it was acquired: any value may be missing.
#[derive(Debug, PartialEq, Eq)]
pub struct Settings {
    pub server_uri: Option<String>,
    pub client_id: Option<String>,
    pub trust_store: Option<String>,
    pub key_store: Option<String>,
    pub private_key: Option<String>,
    pub keep_alive_secs: Option<u64>,
    pub clean_session: bool,
    pub last_will: Option<Message>,
}

/// The characters of `value`, or `fallback` where it is missing.
pub open spec fn text_or(value: Option<String>, fallback: Seq<char>) -> Seq<char> {
    match value {
        Some(s) => s@,
        None => fallback,
    }
}

impl Settings {
    /// Whether every value without a default is present.
    pub open spec fn complete(&self) -> bool {
        self.trust_store is Some && self.key_store is Some && self.private_key is Some
    }

    /// The options these settings stand for, given the defaults for the
    /// endpoint and the client identifier.
    pub open spec fn resolved(
        &self,
        default_uri: Seq<char>,
        default_client_id: Seq<char>,
    ) -> ConnectionOptionsView {
        ConnectionOptionsView {
            server_uri: text_or(self.server_uri, default_uri),
            client_id: text_or(self.client_id, default_client_id),
            keep_alive_secs: match self.keep_alive_secs {
                Some(k) => k,
                None => DEFAULT_KEEP_ALIVE_SECS,
            },
            clean_session: self.clean_session,
            last_will: match self.last_will {
                Some(m) => Some(m@),
                None => None,
            },
            trust_store: text_or(self.trust_store, Seq::empty()),
            key_store: text_or(self.key_store, Seq::empty()),
            private_key: text_or(self.private_key, Seq::empty()),
        }
    }
}

fn or_default(value: Option<String>, fallback: &str) -> (s: String)
    ensures
        s@ == text_or(value, fallback@),
{
    match value {
        Some(s) => s,
        None => fallback.to_owned(),
    }
}

impl ConnectionOptions {
    /// Turns acquired settings into connection options. A missing endpoint
    /// or client identifier takes the given default, a missing keep-alive
    /// interval takes twenty seconds. Missing transport material is a
    /// configuration error.
    pub fn from_settings(settings: Settings, default_uri: &str, default_client_id: &str) -> (r:
        Result<ConnectionOptions, SessionError>)
        ensures
            r is Ok <==> settings.complete(),
            r matches Ok(o) ==> o@ == settings.resolved(default_uri@, default_client_id@),
            r matches Err(e) ==> e == SessionError::Config,
    {
        let Settings {
            server_uri,
            client_id,
            trust_store,
            key_store,
            private_key,
            keep_alive_secs,
            clean_session,
            last_will,
        } = settings;
        let tls = match (trust_store, key_store, private_key) {
            (Some(trust_store), Some(key_store), Some(private_key)) => TlsMaterial {
                trust_store,
                key_store,
                private_key,
            },
            _ => {
                return Err(SessionError::Config);
            },
        };
        let keep_alive_secs = match keep_alive_secs {
            Some(k) => k,
            None => DEFAULT_KEEP_ALIVE_SECS,
        };
        Ok(
            ConnectionOptions {
                server_uri: or_default(server_uri, default_uri),
                client_id: or_default(client_id, default_client_id),
                keep_alive_secs,
                clean_session,
                last_will,
                tls,
            },
        )
    }
}

} // verus!
