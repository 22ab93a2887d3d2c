use lockset::errors::AppError;
use lockset::secrets::{
    CreateSecretRequest, ReadPlan, RefreshPlan, Secret, SecretService, SecretSource, SecretVersion,
    VersionSuccession,
};

const NOW: i64 = 1_700_000_000_000;

fn secret(proxied: bool, current: Option<&str>, previous: Option<&str>, expire_at: Option<i64>) -> Secret {
    Secret {
        id: 3,
        name: "k".to_string(),
        vault_connection_id: if proxied { Some(11) } else { None },
        current_version: current.map(|s| s.to_string()),
        previous_version: previous.map(|s| s.to_string()),
        expire_at,
        created_at: NOW - 60_000,
        updated_at: NOW - 60_000,
    }
}

fn version(tag: &str, sha: Option<&str>) -> SecretVersion {
    SecretVersion {
        id: 21,
        secret_id: 3,
        version_tag: tag.to_string(),
        sha256sum: sha.map(|s| s.to_string()),
        encrypted_secret: "00".to_string(),
        dek_id: 5,
        deleted: false,
        expire_at: None,
        created_at: NOW - 60_000,
        updated_at: NOW - 60_000,
        deleted_at: None,
    }
}

const SHA_A: &str = "559aead08264d5795d3909718cdd05abd49572e84fe55590eef31a88a08fdffd";
const SHA_B: &str = "df7e70e5021544f4834bbee64a9e3789febc4be81470df629cad6ddb03320a5c";

#[test]
fn create_needs_exactly_one_source() {
    let mut req = CreateSecretRequest {
        name: "db_pw".to_string(),
        vault_connection: None,
        value: Some("s3cret".to_string()),
        version_tag: "v1".to_string(),
    };
    assert_eq!(SecretService::plan_create(&req), Ok(SecretSource::Value("s3cret".to_string())));
    req.vault_connection = Some("conn_abc1".to_string());
    assert!(matches!(SecretService::plan_create(&req), Err(AppError::InvalidInput(_))));
    req.value = None;
    assert_eq!(SecretService::plan_create(&req), Ok(SecretSource::Connection("conn_abc1".to_string())));
    req.vault_connection = None;
    let err = SecretService::plan_create(&req).unwrap_err();
    assert!(matches!(err, AppError::InvalidInput(_)));
    assert_eq!(err.status_code(), 400);
}

#[test]
fn read_missing_secret_is_not_found() {
    assert_eq!(SecretService::plan_read(None, NOW), Err(AppError::NotFoundError));
}

#[test]
fn read_local_secret_uses_current_version() {
    let s = secret(false, Some("v2"), Some("v1"), None);
    assert_eq!(SecretService::plan_read(Some(&s), NOW), Ok(ReadPlan::Stored("v2".to_string())));
    assert!(!SecretService::should_refresh(&s, NOW));
    let empty = secret(false, None, None, None);
    assert_eq!(SecretService::plan_read(Some(&empty), NOW), Err(AppError::NotFoundError));
}

#[test]
fn read_proxied_secret_within_ttl_uses_cache() {
    let s = secret(true, Some("v"), None, Some(NOW + 1000));
    assert!(!SecretService::should_refresh(&s, NOW));
    assert!(!SecretService::should_refresh(&s, NOW + 1000));
    assert_eq!(SecretService::plan_read(Some(&s), NOW), Ok(ReadPlan::Stored("v".to_string())));
}

#[test]
fn read_proxied_secret_after_ttl_refreshes() {
    let s = secret(true, Some("v"), None, Some(NOW - 1));
    assert!(SecretService::should_refresh(&s, NOW));
    assert_eq!(SecretService::plan_read(Some(&s), NOW), Ok(ReadPlan::Refresh(11)));
    let never = secret(true, Some("v"), None, None);
    assert_eq!(SecretService::plan_read(Some(&never), NOW), Ok(ReadPlan::Refresh(11)));
}

#[test]
fn version_write_advances_pointers() {
    let s = secret(false, Some("v1"), None, None);
    assert_eq!(
        SecretService::plan_new_version(Some(&s), "v2"),
        Ok(VersionSuccession { secret_id: 3, current_version: "v2".to_string(), previous_version: Some("v1".to_string()) })
    );
}

#[test]
fn version_write_to_missing_secret_is_not_found() {
    assert_eq!(SecretService::plan_new_version(None, "v2"), Err(AppError::NotFoundError));
}

#[test]
fn version_write_to_proxied_secret_is_not_allowed() {
    let s = secret(true, Some("v"), None, Some(NOW));
    for tag in ["v9", "v", "", "not a tag"] {
        let err = SecretService::plan_new_version(Some(&s), tag).unwrap_err();
        assert_eq!(err, AppError::MethodNotAllowed);
        assert_eq!(err.status_code(), 405);
    }
}

#[test]
fn refresh_expiry_uses_ttl_or_default() {
    assert_eq!(SecretService::refresh_expiry(NOW, Some(1)), NOW + 1000);
    assert_eq!(SecretService::refresh_expiry(NOW, None), NOW + 3_600_000);
    assert_eq!(SecretService::refresh_expiry(NOW, Some(0)), NOW);
    assert_eq!(SecretService::refresh_expiry(NOW, Some(-5)), NOW - 5000);
    assert_eq!(SecretService::refresh_expiry(0, Some(i32::MAX)), 2_147_483_647_000);
}

#[test]
fn refresh_with_changed_content_mints_next_tag() {
    let s = secret(true, Some("v"), None, Some(NOW - 1));
    let current = version("v", Some(SHA_A));
    let expire = SecretService::refresh_expiry(NOW, Some(1));
    let plan = SecretService::plan_refresh(&s, Some(&current), SHA_B, expire).unwrap();
    assert_eq!(
        plan,
        RefreshPlan::Mint {
            succession: VersionSuccession {
                secret_id: 3,
                current_version: "v-1".to_string(),
                previous_version: Some("v".to_string()),
            },
            expire_at: NOW + 1000,
        }
    );
    assert_eq!(SecretService::refreshed_tag(&plan), "v-1");
}

#[test]
fn refresh_with_same_content_extends_expiry() {
    let s = secret(true, Some("v"), None, Some(NOW - 1));
    let current = version("v", Some(SHA_A));
    let plan = SecretService::plan_refresh(&s, Some(&current), SHA_A, NOW + 1000).unwrap();
    assert_eq!(plan, RefreshPlan::Extend { version_id: 21, version_tag: "v".to_string(), expire_at: NOW + 1000 });
    assert_eq!(SecretService::refreshed_tag(&plan), "v");
}

#[test]
fn refresh_of_version_without_digest_mints() {
    let s = secret(true, Some("v-7"), Some("v-6"), None);
    let current = version("v-7", None);
    let plan = SecretService::plan_refresh(&s, Some(&current), SHA_A, NOW).unwrap();
    assert_eq!(SecretService::refreshed_tag(&plan), "v-8");
}

#[test]
fn refresh_of_secret_without_versions_starts_from_seed() {
    let s = secret(true, None, None, None);
    let plan = SecretService::plan_refresh(&s, None, SHA_A, NOW).unwrap();
    assert_eq!(
        plan,
        RefreshPlan::Mint {
            succession: VersionSuccession { secret_id: 3, current_version: "v-1".to_string(), previous_version: None },
            expire_at: NOW,
        }
    );
}

#[test]
fn refresh_with_missing_current_row_is_not_found() {
    let s = secret(true, Some("v"), None, None);
    assert_eq!(SecretService::plan_refresh(&s, None, SHA_A, NOW), Err(AppError::NotFoundError));
}

#[test]
fn refresh_digest_comparison_is_exact() {
    let s = secret(true, Some("v"), None, None);
    let current = version("v", Some(SHA_A));
    let upper = SHA_A.to_uppercase();
    let plan = SecretService::plan_refresh(&s, Some(&current), &upper, NOW).unwrap();
    assert!(matches!(plan, RefreshPlan::Mint { .. }));
}
