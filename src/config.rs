//! Process configuration: read once at start, then shared read-only.

use vstd::prelude::*;
use crate::encoding::{hex_decode, hex_decoded, parse_unsigned, unsigned_text_value};

verus! {

/// The settings the service starts with.
#[derive(Debug, Clone, PartialEq, Eq)]
pub struct AppConfig {
    pub database_url: String,
    /// Hex of the SEC1 encoding of the P-256 key that requests are signed for.
    pub auth_public_key: String,
    pub port: u16,
}

impl AppConfig {
    /// Builds the configuration from the values of `DB_URI`,
    /// `AUTH_PUBLIC_KEY` and `PORT` (each `None` when unset), reporting the
    /// first that is missing or malformed.
    pub fn from_values(
        database_url: Option<String>,
        auth_public_key: Option<String>,
        port: Option<String>,
    ) -> (r: Result<AppConfig, String>)
        ensures
            database_url is None ==> r is Err && r->Err_0@ == "DB_URI must be set"@,
            database_url is Some && auth_public_key is None ==> r is Err && r->Err_0@
                == "AUTH_PUBLIC_KEY must be set"@,
            database_url is Some && auth_public_key is Some && port is None ==> r is Err
                && r->Err_0@ == "PORT must be set"@,
            database_url is Some && auth_public_key is Some && port is Some && !(unsigned_text_value(
                port->0@,
            ) is Some && unsigned_text_value(port->0@)->0 <= u16::MAX) ==> r is Err && r->Err_0@
                == "PORT must be a valid u16"@,
            database_url is Some && auth_public_key is Some && port is Some && unsigned_text_value(
                port->0@,
            ) is Some && unsigned_text_value(port->0@)->0 <= u16::MAX ==> r is Ok && r->Ok_0
                == (AppConfig {
                database_url: database_url->0,
                auth_public_key: auth_public_key->0,
                port: unsigned_text_value(port->0@)->0 as u16,
            }),
    {
        let database_url = match database_url {
            Some(v) => v,
            None => {
                return Err(String::from_str("DB_URI must be set"));
            },
        };
        let auth_public_key = match auth_public_key {
            Some(v) => v,
            None => {
                return Err(String::from_str("AUTH_PUBLIC_KEY must be set"));
            },
        };
        let port_text = match port {
            Some(v) => v,
            None => {
                return Err(String::from_str("PORT must be set"));
            },
        };
        let port = match parse_unsigned(port_text.as_str(), 0xffffu64) {
            Some(p) => p as u16,
            None => {
                return Err(String::from_str("PORT must be a valid u16"));
            },
        };
        Ok(AppConfig { database_url, auth_public_key, port })
    }

    /// Stores the configuration in `slot` unless one was stored already.
    pub fn install(slot: &mut Option<AppConfig>, config: AppConfig) -> (r: Result<(), String>)
        ensures
            *old(slot) is None ==> r is Ok && *final(slot) == Some(config),
            *old(slot) is Some ==> r is Err && r->Err_0@ == "Configuration has already been loaded"@
                && *final(slot) == *old(slot),
    {
        if slot.is_some() {
            return Err(String::from_str("Configuration has already been loaded"));
        }
        *slot = Some(config);
        Ok(())
    }

    /// The configuration stored in `slot`, which must have been installed.
    pub fn instance(slot: &Option<AppConfig>) -> (r: &AppConfig)
        requires
            slot is Some,
        ensures
            *r == slot->0,
    {
        slot.as_ref().unwrap()
    }

    /// The SEC1 bytes of the configured public key, `None` when
    /// `auth_public_key` is not hex.
    pub fn public_key_bytes(&self) -> (r: Option<Vec<u8>>)
        ensures
            match hex_decoded(self.auth_public_key@) {
                Some(b) => r is Some && r->0@ == b,
                None => r is None,
            },
    {
        match hex_decode(self.auth_public_key.as_str()) {
            Ok(b) => Some(b),
            Err(_) => None,
        }
    }
}

} // verus!
