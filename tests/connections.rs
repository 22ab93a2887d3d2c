use lockset::connections::{ConnectionService, ConnectionUpdate, UpdateVaultConnectionRequest, VaultConnection};
use lockset::errors::AppError;
use lockset::handlers::{ConnectionHandler, SecretHandler};

fn row() -> VaultConnection {
    VaultConnection {
        id: 4,
        public_id: "conn_abc1".to_string(),
        integration_type: "aws_secrets_manager".to_string(),
        sha256sum: "aa".to_string(),
        encrypted_config: "0011".to_string(),
        dek_id: 8,
        ttl: Some(30),
        created_at: 1,
        updated_at: 2,
    }
}

#[test]
fn rotation_needs_integration_type() {
    let payload = UpdateVaultConnectionRequest { config: Some("{}".to_string()), ttl: None, integration_type: None };
    let err = ConnectionService::plan_update(&payload).unwrap_err();
    assert_eq!(err, AppError::InvalidInput("integration_type is required when updating the config".to_string()));
    assert_eq!(err.status_code(), 400);
}

#[test]
fn integration_type_needs_config() {
    let payload = UpdateVaultConnectionRequest { config: None, ttl: None, integration_type: Some("aws".to_string()) };
    assert_eq!(
        ConnectionService::plan_update(&payload),
        Err(AppError::InvalidInput("config is required when updating the integration_type".to_string()))
    );
}

#[test]
fn rotation_with_both_fields() {
    let payload = UpdateVaultConnectionRequest {
        config: Some("{\"region\":\"eu-west-1\"}".to_string()),
        ttl: Some(60),
        integration_type: Some("aws_secrets_manager".to_string()),
    };
    assert_eq!(
        ConnectionService::plan_update(&payload),
        Ok(Some(("aws_secrets_manager".to_string(), "{\"region\":\"eu-west-1\"}".to_string())))
    );
    let ttl_only = UpdateVaultConnectionRequest { config: None, ttl: Some(60), integration_type: None };
    assert_eq!(ConnectionService::plan_update(&ttl_only), Ok(None));
}

#[test]
fn update_coalesces_but_always_writes_ttl() {
    let keep = ConnectionService::build_update(None, None, None);
    let r = keep.apply_to(&row());
    assert_eq!(r.encrypted_config, "0011");
    assert_eq!(r.integration_type, "aws_secrets_manager");
    assert_eq!(r.dek_id, 8);
    assert_eq!(r.ttl, None);
    let rotate = ConnectionService::build_update(
        Some(("ffee".to_string(), "bb".to_string(), 9)),
        Some("other".to_string()),
        Some(90),
    );
    assert_eq!(
        rotate,
        ConnectionUpdate {
            encrypted_config: Some("ffee".to_string()),
            sha256sum: Some("bb".to_string()),
            dek_id: Some(9),
            ttl: Some(90),
            integration_type: Some("other".to_string()),
        }
    );
    let r = rotate.apply_to(&row());
    assert_eq!(r.encrypted_config, "ffee");
    assert_eq!(r.sha256sum, "bb");
    assert_eq!(r.dek_id, 9);
    assert_eq!(r.ttl, Some(90));
    assert_eq!(r.integration_type, "other");
    assert_eq!(r.public_id, "conn_abc1");
    assert_eq!(r.id, 4);
}

#[test]
fn provider_errors_name_the_type() {
    assert_eq!(
        ConnectionService::provider_not_found("vault_x"),
        AppError::InvalidInput("Provider 'vault_x' not found".to_string())
    );
    assert_eq!(
        ConnectionService::config_rejected("aws", "missing region"),
        AppError::InvalidInput("Failed to validate connection config for provider 'aws': missing region".to_string())
    );
}

#[test]
fn delete_reports_whether_a_row_went() {
    assert!(ConnectionService::deleted(1));
    assert!(!ConnectionService::deleted(0));
    assert_eq!(ConnectionHandler::delete_outcome(true), Ok(()));
    assert_eq!(ConnectionHandler::delete_outcome(false), Err(AppError::NotFoundError));
}

#[test]
fn path_parameters_are_checked() {
    assert_eq!(ConnectionHandler::check_public_id("conn_abc1"), Ok(()));
    assert_eq!(
        ConnectionHandler::check_public_id("x"),
        Err(AppError::InvalidInput("Invalid public ID format".to_string()))
    );
    assert_eq!(SecretHandler::check_name("db_pw"), Ok(()));
    assert_eq!(
        SecretHandler::check_name("db pw"),
        Err(AppError::InvalidInput("Invalid secret name format".to_string()))
    );
    assert_eq!(SecretHandler::check_name_and_tag("db_pw", "v1"), Ok(()));
    assert_eq!(
        SecretHandler::check_name_and_tag("db_pw", "v1."),
        Err(AppError::InvalidInput("Invalid version tag format".to_string()))
    );
    assert_eq!(
        SecretHandler::check_name_and_tag("-", "v1."),
        Err(AppError::InvalidInput("Invalid secret name format".to_string()))
    );
}

#[test]
fn health_probe_is_recognised() {
    assert!(lockset::handlers::is_healthcheck("GET", "/healthcheck"));
    assert!(!lockset::handlers::is_healthcheck("POST", "/healthcheck"));
    assert!(!lockset::handlers::is_healthcheck("GET", "/healthcheck/"));
}
