//! Vault connections: the encrypted configurations through which proxied
//! secrets reach their upstream provider.

use vstd::prelude::*;
use vstd::utf8::encode_utf8;
use crate::errors::{is_invalid_input, AppError};
use crate::secrets::opt_text;
use crate::validation::{
    is_public_id, is_valid_public_id, validate_vault_config, with_field, ValidationErrors,
    MAX_CONFIG_BYTES,
};

verus! {

/// A stored vault connection. Instants are milliseconds since the epoch.
#[derive(Debug, Clone, PartialEq, Eq)]
pub struct VaultConnection {
    pub id: i32,
    /// Chosen by the caller; never changes.
    pub public_id: String,
    /// Names the provider that serves the connection.
    pub integration_type: String,
    /// Hex SHA-256 of the plaintext configuration.
    pub sha256sum: String,
    /// Hex of `nonce || ciphertext || tag` of the configuration.
    pub encrypted_config: String,
    pub dek_id: i32,
    /// Seconds that a proxied value stays cached.
    pub ttl: Option<i32>,
    pub created_at: i64,
    pub updated_at: i64,
}

/// A decrypted connection as a refresh needs it.
#[derive(Debug, Clone, PartialEq, Eq)]
pub struct VaultConnectionConfig {
    pub id: i32,
    pub integration_type: String,
    pub config: String,
    pub ttl: Option<i32>,
}

/// Body of a request that creates a vault connection.
#[derive(Debug, Clone, PartialEq, Eq)]
pub struct CreateVaultConnectionRequest {
    pub public_id: String,
    pub integration_type: String,
    pub config: String,
    pub ttl: Option<i32>,
}

/// Body of a request that updates a vault connection: a new configuration
/// comes with its integration type; the ttl is always written.
#[derive(Debug, Clone, PartialEq, Eq)]
pub struct UpdateVaultConnectionRequest {
    pub config: Option<String>,
    pub ttl: Option<i32>,
    pub integration_type: Option<String>,
}

/// Reply to creating a connection; the configuration is not echoed.
#[derive(Debug, Clone, PartialEq, Eq)]
pub struct CreateVaultConnectionResponse {
    pub public_id: String,
    pub integration_type: String,
    pub sha256sum: String,
    pub ttl: Option<i32>,
    pub created_at: i64,
    pub updated_at: i64,
}

/// Reply to updating a connection: the same fields as on creation.
pub type UpdateVaultConnectionResponse = CreateVaultConnectionResponse;

/// Reply to reading a connection, with its decrypted configuration.
#[derive(Debug, Clone, PartialEq, Eq)]
pub struct VaultConnectionResponse {
    pub public_id: String,
    pub integration_type: String,
    pub config: String,
    pub sha256sum: String,
    pub ttl: Option<i32>,
    pub created_at: i64,
    pub updated_at: i64,
}

/// The columns that one update writes: each `Some` field replaces the
/// stored one, `None` keeps it; the ttl is written as given, `None`
/// clearing it.
#[derive(Debug, Clone, PartialEq, Eq)]
pub struct ConnectionUpdate {
    pub encrypted_config: Option<String>,
    pub sha256sum: Option<String>,
    pub dek_id: Option<i32>,
    pub ttl: Option<i32>,
    pub integration_type: Option<String>,
}

pub open spec fn or_keep<T>(new: Option<T>, old: T) -> T {
    match new {
        Some(v) => v,
        None => old,
    }
}

pub open spec fn config_messages(config: Option<Seq<u8>>) -> Seq<Seq<char>> {
    match config {
        Some(c) => if c.len() <= MAX_CONFIG_BYTES {
            Seq::empty()
        } else {
            seq!["config_too_long"@]
        },
        None => Seq::empty(),
    }
}

pub open spec fn integration_type_messages(t: Option<Seq<char>>) -> Seq<Seq<char>> {
    match t {
        Some(v) => if v.len() == 0 {
            seq!["Integration type cannot be empty"@]
        } else {
            Seq::empty()
        },
        None => Seq::empty(),
    }
}

pub open spec fn public_id_messages(id: Seq<char>) -> Seq<Seq<char>> {
    if is_public_id(id) {
        Seq::empty()
    } else {
        seq![
            "Public ID must be 8-24 characters, alphanumeric with _ or -, and start/end with alphanumeric."@,
        ]
    }
}

pub open spec fn create_connection_report(r: CreateVaultConnectionRequest) -> Seq<
    (Seq<char>, Seq<Seq<char>>),
> {
    with_field(
        with_field(
            with_field(Seq::empty(), "public_id"@, public_id_messages(r.public_id@)),
            "integration_type"@,
            integration_type_messages(Some(r.integration_type@)),
        ),
        "config"@,
        config_messages(Some(encode_utf8(r.config@))),
    )
}

pub open spec fn update_connection_report(r: UpdateVaultConnectionRequest) -> Seq<
    (Seq<char>, Seq<Seq<char>>),
> {
    with_field(
        with_field(
            Seq::empty(),
            "config"@,
            config_messages(
                match r.config {
                    Some(c) => Some(encode_utf8(c@)),
                    None => None,
                },
            ),
        ),
        "integration_type"@,
        integration_type_messages(opt_text(r.integration_type)),
    )
}

fn one_message_if(fails: bool, message: &str) -> (r: Vec<String>)
    ensures
        r.deep_view() == (if fails {
            seq![message@]
        } else {
            Seq::<Seq<char>>::empty()
        }),
{
    let mut messages: Vec<String> = Vec::new();
    if fails {
        messages.push(message.to_owned());
    }
    assert(messages.deep_view() =~= (if fails {
        seq![message@]
    } else {
        Seq::<Seq<char>>::empty()
    }));
    messages
}

impl CreateVaultConnectionRequest {
    /// Checks the public id format, a non-empty integration type, and a
    /// configuration of at most `MAX_CONFIG_BYTES` bytes.
    pub fn validate(&self) -> (r: Result<(), ValidationErrors>)
        ensures
            r is Ok <==> create_connection_report(*self).len() == 0,
            r is Err ==> r->Err_0@ == create_connection_report(*self),
    {
        let mut errors = ValidationErrors::new();
        errors.add(
            "public_id",
            one_message_if(
                !is_valid_public_id(self.public_id.as_str()),
                "Public ID must be 8-24 characters, alphanumeric with _ or -, and start/end with alphanumeric.",
            ),
        );
        errors.add(
            "integration_type",
            one_message_if(
                self.integration_type.as_str().unicode_len() == 0,
                "Integration type cannot be empty",
            ),
        );
        errors.add(
            "config",
            one_message_if(!validate_vault_config(self.config.as_str()), "config_too_long"),
        );
        if errors.is_empty() {
            Ok(())
        } else {
            Err(errors)
        }
    }
}

impl UpdateVaultConnectionRequest {
    /// Checks that a new configuration has at most `MAX_CONFIG_BYTES` bytes
    /// and a new integration type is non-empty.
    pub fn validate(&self) -> (r: Result<(), ValidationErrors>)
        ensures
            r is Ok <==> update_connection_report(*self).len() == 0,
            r is Err ==> r->Err_0@ == update_connection_report(*self),
    {
        let mut errors = ValidationErrors::new();
        let too_long = match &self.config {
            Some(c) => !validate_vault_config(c.as_str()),
            None => false,
        };
        errors.add("config", one_message_if(too_long, "config_too_long"));
        let empty = match &self.integration_type {
            Some(t) => t.as_str().unicode_len() == 0,
            None => false,
        };
        errors.add("integration_type", one_message_if(empty, "Integration type cannot be empty"));
        if errors.is_empty() {
            Ok(())
        } else {
            Err(errors)
        }
    }
}

impl VaultConnection {
    /// The reply to creating or updating this connection.
    pub fn summary(&self) -> (r: CreateVaultConnectionResponse)
        ensures
            r.public_id == self.public_id,
            r.integration_type == self.integration_type,
            r.sha256sum == self.sha256sum,
            r.ttl == self.ttl,
            r.created_at == self.created_at,
            r.updated_at == self.updated_at,
    {
        CreateVaultConnectionResponse {
            public_id: self.public_id.clone(),
            integration_type: self.integration_type.clone(),
            sha256sum: self.sha256sum.clone(),
            ttl: self.ttl,
            created_at: self.created_at,
            updated_at: self.updated_at,
        }
    }

    /// The reply to reading this connection, with its decrypted configuration.
    pub fn with_config(&self, config: String) -> (r: VaultConnectionResponse)
        ensures
            r.public_id == self.public_id,
            r.integration_type == self.integration_type,
            r.config == config,
            r.sha256sum == self.sha256sum,
            r.ttl == self.ttl,
            r.created_at == self.created_at,
            r.updated_at == self.updated_at,
    {
        VaultConnectionResponse {
            public_id: self.public_id.clone(),
            integration_type: self.integration_type.clone(),
            config,
            sha256sum: self.sha256sum.clone(),
            ttl: self.ttl,
            created_at: self.created_at,
            updated_at: self.updated_at,
        }
    }

    /// What a refresh needs of this connection, with its decrypted
    /// configuration.
    pub fn resolved(&self, config: String) -> (r: VaultConnectionConfig)
        ensures
            r.id == self.id,
            r.integration_type == self.integration_type,
            r.config == config,
            r.ttl == self.ttl,
    {
        VaultConnectionConfig {
            id: self.id,
            integration_type: self.integration_type.clone(),
            config,
            ttl: self.ttl,
        }
    }
}

impl ConnectionUpdate {
    /// The row that this update leaves in place of `row`.
    pub fn apply_to(&self, row: &VaultConnection) -> (r: VaultConnection)
        ensures
            r.id == row.id,
            r.public_id == row.public_id,
            r.encrypted_config == or_keep(self.encrypted_config, row.encrypted_config),
            r.sha256sum == or_keep(self.sha256sum, row.sha256sum),
            r.dek_id == or_keep(self.dek_id, row.dek_id),
            r.ttl == self.ttl,
            r.integration_type == or_keep(self.integration_type, row.integration_type),
            r.created_at == row.created_at,
            r.updated_at == row.updated_at,
    {
        VaultConnection {
            id: row.id,
            public_id: row.public_id.clone(),
            integration_type: match &self.integration_type {
                Some(t) => t.clone(),
                None => row.integration_type.clone(),
            },
            sha256sum: match &self.sha256sum {
                Some(s) => s.clone(),
                None => row.sha256sum.clone(),
            },
            encrypted_config: match &self.encrypted_config {
                Some(c) => c.clone(),
                None => row.encrypted_config.clone(),
            },
            dek_id: match self.dek_id {
                Some(d) => d,
                None => row.dek_id,
            },
            ttl: self.ttl,
            created_at: row.created_at,
            updated_at: row.updated_at,
        }
    }
}

/// The decisions of the connection lifecycle; the caller performs the
/// storage, KMS and provider work.
pub struct ConnectionService;

impl ConnectionService {
    /// The configuration that an update rotates, with its integration type;
    /// `None` when it only changes the ttl. Either one without the other is
    /// invalid input: a new configuration is validated against a known type.
    pub fn plan_update(payload: &UpdateVaultConnectionRequest) -> (r: Result<
        Option<(String, String)>,
        AppError,
    >)
        ensures
            payload.config is Some && payload.integration_type is None ==> is_invalid_input(
                r,
                "integration_type is required when updating the config"@,
            ),
            payload.config is None && payload.integration_type is Some ==> is_invalid_input(
                r,
                "config is required when updating the integration_type"@,
            ),
            payload.config is None && payload.integration_type is None ==> r == Ok::<
                Option<(String, String)>,
                AppError,
            >(None),
            payload.config is Some && payload.integration_type is Some ==> r == Ok::<
                Option<(String, String)>,
                AppError,
            >(Some((payload.integration_type->0, payload.config->0))),
    {
        match (&payload.integration_type, &payload.config) {
            (None, None) => Ok(None),
            (None, Some(_)) => Err(
                AppError::invalid_input("integration_type is required when updating the config"),
            ),
            (Some(_), None) => Err(
                AppError::invalid_input("config is required when updating the integration_type"),
            ),
            (Some(t), Some(c)) => Ok(Some((t.clone(), c.clone()))),
        }
    }

    /// The update written for a request: the sealed configuration, its
    /// digest and data key when one was rotated, the new integration type
    /// when given, and the ttl as given.
    pub fn build_update(
        rotated: Option<(String, String, i32)>,
        integration_type: Option<String>,
        ttl: Option<i32>,
    ) -> (r: ConnectionUpdate)
        ensures
            r.encrypted_config == (match rotated {
                Some(t) => Some(t.0),
                None => None,
            }),
            r.sha256sum == (match rotated {
                Some(t) => Some(t.1),
                None => None,
            }),
            r.dek_id == (match rotated {
                Some(t) => Some(t.2),
                None => None,
            }),
            r.integration_type == integration_type,
            r.ttl == ttl,
    {
        match rotated {
            Some((blob, sha, dek_id)) => ConnectionUpdate {
                encrypted_config: Some(blob),
                sha256sum: Some(sha),
                dek_id: Some(dek_id),
                ttl,
                integration_type,
            },
            None => ConnectionUpdate {
                encrypted_config: None,
                sha256sum: None,
                dek_id: None,
                ttl,
                integration_type,
            },
        }
    }

    /// The error for an integration type that no provider serves.
    pub fn provider_not_found(integration_type: &str) -> (r: AppError)
        ensures
            r matches AppError::InvalidInput(m) && m@ == "Provider '"@ + integration_type@
                + "' not found"@,
    {
        let msg = String::from_str("Provider '").concat(integration_type).concat("' not found");
        AppError::InvalidInput(msg)
    }

    /// The error for a configuration that its provider rejected.
    pub fn config_rejected(integration_type: &str, reason: &str) -> (r: AppError)
        ensures
            r matches AppError::InvalidInput(m) && m@
                == "Failed to validate connection config for provider '"@ + integration_type@
                + "': "@ + reason@,
    {
        let msg = String::from_str("Failed to validate connection config for provider '").concat(
            integration_type,
        ).concat("': ").concat(reason);
        AppError::InvalidInput(msg)
    }

    /// Whether a delete removed the connection.
    pub fn deleted(rows_affected: u64) -> (r: bool)
        ensures
            r == (rows_affected > 0),
    {
        rows_affected > 0
    }
}

} // verus!
