use lockset::crypto::{decrypt_with_data_key, encrypt_with_data_key, plaintext_text, sha256_hash};
use lockset::errors::AppError;
use lockset::secrets::{
    CreateSecretRequest, ReadPlan, RefreshPlan, Secret, SecretService, SecretSource, SecretVersion,
};

const KEY: [u8; 32] = [42u8; 32];

/// One secret with its versions, kept the way the tables keep them.
struct Store {
    secret: Secret,
    versions: Vec<SecretVersion>,
}

fn seal(value: &str) -> (String, String) {
    let sealed = encrypt_with_data_key(Some(KEY.to_vec()), Some(vec![9]), value.as_bytes()).unwrap();
    (sealed.encrypted_blob, sealed.sha256sum)
}

fn open(blob: &str) -> String {
    plaintext_text(decrypt_with_data_key(Some(KEY.to_vec()), blob).unwrap()).unwrap()
}

impl Store {
    fn create(request: &CreateSecretRequest, value: &str, connection: Option<i32>) -> Store {
        let (blob, sha) = seal(value);
        let secret = Secret {
            id: 1,
            name: request.name.clone(),
            vault_connection_id: connection,
            current_version: Some(request.version_tag.clone()),
            previous_version: None,
            expire_at: None,
            created_at: 0,
            updated_at: 0,
        };
        let mut store = Store { secret, versions: Vec::new() };
        store.insert(&request.version_tag, blob, sha);
        store
    }

    fn insert(&mut self, tag: &str, blob: String, sha: String) {
        assert!(self.versions.iter().all(|v| v.version_tag != tag), "duplicate tag");
        self.versions.push(SecretVersion {
            id: self.versions.len() as i32 + 1,
            secret_id: self.secret.id,
            version_tag: tag.to_string(),
            sha256sum: Some(sha),
            encrypted_secret: blob,
            dek_id: 1,
            deleted: false,
            expire_at: None,
            created_at: 0,
            updated_at: 0,
            deleted_at: None,
        });
    }

    fn version(&self, tag: &str) -> Option<&SecretVersion> {
        self.versions.iter().find(|v| v.version_tag == tag)
    }

    fn write_version(&mut self, tag: &str, value: &str) -> Result<(), AppError> {
        let succession = SecretService::plan_new_version(Some(&self.secret), tag)?;
        let (blob, sha) = seal(value);
        self.insert(&succession.current_version, blob, sha);
        self.secret.current_version = Some(succession.current_version);
        self.secret.previous_version = succession.previous_version;
        Ok(())
    }

    /// Reads the current value; `upstream` answers a refresh.
    fn read(&mut self, now: i64, ttl: Option<i32>, upstream: &str) -> (String, String) {
        match SecretService::plan_read(Some(&self.secret), now).unwrap() {
            ReadPlan::Stored(tag) => (open(&self.version(&tag).unwrap().encrypted_secret), tag),
            ReadPlan::Refresh(_) => {
                let expire_at = SecretService::refresh_expiry(now, ttl);
                let sha = sha256_hash(upstream.as_bytes());
                let current = self.secret.current_version.clone().and_then(|t| self.version(&t).cloned());
                let plan = SecretService::plan_refresh(&self.secret, current.as_ref(), &sha, expire_at).unwrap();
                match &plan {
                    RefreshPlan::Extend { version_id, expire_at, .. } => {
                        let v = self.versions.iter_mut().find(|v| v.id == *version_id).unwrap();
                        v.expire_at = Some(*expire_at);
                        self.secret.expire_at = Some(*expire_at);
                    }
                    RefreshPlan::Mint { succession, expire_at } => {
                        let (blob, sha) = seal(upstream);
                        self.insert(&succession.current_version, blob, sha);
                        self.secret.current_version = Some(succession.current_version.clone());
                        self.secret.previous_version = succession.previous_version.clone();
                        self.secret.expire_at = Some(*expire_at);
                    }
                }
                (upstream.to_string(), SecretService::refreshed_tag(&plan))
            }
        }
    }
}

fn request(name: &str, connection: Option<&str>, value: Option<&str>, tag: &str) -> CreateSecretRequest {
    CreateSecretRequest {
        name: name.to_string(),
        vault_connection: connection.map(|s| s.to_string()),
        value: value.map(|s| s.to_string()),
        version_tag: tag.to_string(),
    }
}

#[test]
fn local_create_then_new_version() {
    let req = request("db_pw", None, Some("s3cret"), "v1");
    assert!(req.validate().is_ok());
    let value = match SecretService::plan_create(&req).unwrap() {
        SecretSource::Value(v) => v,
        SecretSource::Connection(_) => panic!("expected a value"),
    };
    let mut store = Store::create(&req, &value, None);
    assert_eq!(store.read(0, None, ""), ("s3cret".to_string(), "v1".to_string()));

    store.write_version("v2", "s4cret").unwrap();
    assert_eq!(store.read(0, None, ""), ("s4cret".to_string(), "v2".to_string()));
    assert_eq!(store.secret.previous_version.as_deref(), Some("v1"));
    assert_eq!(open(&store.version("v1").unwrap().encrypted_secret), "s3cret");
}

#[test]
fn proxied_refresh_with_changed_content() {
    let req = request("k", Some("conn_abc1"), None, "v");
    assert_eq!(SecretService::plan_create(&req).unwrap(), SecretSource::Connection("conn_abc1".to_string()));
    let mut store = Store::create(&req, "A", Some(5));
    let t0 = 1_700_000_000_000;
    assert_eq!(store.read(t0, Some(1), "A"), ("A".to_string(), "v".to_string()));
    assert_eq!(store.read(t0 + 500, Some(1), "B"), ("A".to_string(), "v".to_string()));

    assert_eq!(store.read(t0 + 1500, Some(1), "B"), ("B".to_string(), "v-1".to_string()));
    let minted = store.version("v-1").unwrap();
    assert_eq!(minted.sha256sum.as_deref(), Some(sha256_hash(b"B").as_str()));
    assert_eq!(store.secret.previous_version.as_deref(), Some("v"));
    assert_eq!(store.versions.len(), 2);
}

#[test]
fn proxied_refresh_with_same_content() {
    let req = request("k", Some("conn_abc1"), None, "v");
    let mut store = Store::create(&req, "A", Some(5));
    let t0 = 1_700_000_000_000;
    assert_eq!(store.read(t0, Some(1), "A"), ("A".to_string(), "v".to_string()));
    let first_expiry = store.secret.expire_at.unwrap();
    assert_eq!(store.read(t0 + 1500, Some(1), "A"), ("A".to_string(), "v".to_string()));
    assert_eq!(store.versions.len(), 1);
    assert!(store.secret.expire_at.unwrap() > first_expiry);
    assert_eq!(store.secret.expire_at, Some(t0 + 2500));
}

#[test]
fn proxied_version_write_denied() {
    let req = request("k", Some("conn_abc1"), None, "v");
    let mut store = Store::create(&req, "A", Some(5));
    assert_eq!(store.write_version("v9", "x"), Err(AppError::MethodNotAllowed));
    assert_eq!(store.versions.len(), 1);
}
