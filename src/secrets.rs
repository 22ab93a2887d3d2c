//! Secrets and their versions. A secret is local (its versions are written
//! by the caller under tags the caller picks) or proxied (bound to a vault
//! connection; its value is fetched upstream on read once the cached copy has
//! expired, and a new version is minted only when the content changed).

use vstd::prelude::*;
use crate::encoding::{
    all_decimal, decimal_text, digits_value, incremented_digits, is_decimal_digit,
    lemma_canonical_digits, lemma_decimal_text_value, lemma_incremented_digits_value,
    lemma_leading_zeros_value, push_incremented_digits, text_eq,
};
use crate::errors::{is_invalid_input, AppError};
use crate::validation::{
    is_public_id, is_secret_name, is_secret_name_format, is_version_tag, is_version_tag_format,
    is_valid_public_id, matches_secret_name_format, matches_version_tag_format,
    with_field, ValidationErrors, MAX_SECRET_NAME_CHARS, MAX_VERSION_TAG_CHARS,
};

verus! {

/// Lifetime of a proxied secret's cached value when its connection sets none.
pub const DEFAULT_TTL_SECONDS: i32 = 3600;

/// Earliest and latest instants handled, in milliseconds since the epoch
/// (the range of `chrono`'s UTC timestamps, rounded inwards).
pub const MIN_INSTANT_MS: i64 = -8_000_000_000_000_000;

pub const MAX_INSTANT_MS: i64 = 8_000_000_000_000_000;

/// A stored secret. Instants are milliseconds since the epoch.
#[derive(Debug, Clone, PartialEq, Eq)]
pub struct Secret {
    pub id: i32,
    pub name: String,
    /// Set exactly when the secret is proxied.
    pub vault_connection_id: Option<i32>,
    pub current_version: Option<String>,
    pub previous_version: Option<String>,
    /// When the cached value of a proxied secret goes stale.
    pub expire_at: Option<i64>,
    pub created_at: i64,
    pub updated_at: i64,
}

/// One immutable version of a secret.
#[derive(Debug, Clone, PartialEq, Eq)]
pub struct SecretVersion {
    pub id: i32,
    pub secret_id: i32,
    pub version_tag: String,
    /// Hex SHA-256 of the plaintext.
    pub sha256sum: Option<String>,
    /// Hex of `nonce || ciphertext || tag`.
    pub encrypted_secret: String,
    pub dek_id: i32,
    pub deleted: bool,
    pub expire_at: Option<i64>,
    pub created_at: i64,
    pub updated_at: i64,
    pub deleted_at: Option<i64>,
}

pub open spec fn opt_text(o: Option<String>) -> Option<Seq<char>> {
    match o {
        Some(s) => Some(s@),
        None => None,
    }
}

pub open spec fn is_proxied(secret: Secret) -> bool {
    secret.vault_connection_id is Some
}

/// A proxied secret is refreshed when it has no expiry or `now` is past it.
pub open spec fn needs_refresh(secret: Secret, now_ms: int) -> bool {
    is_proxied(secret) && match secret.expire_at {
        Some(e) => now_ms > e,
        None => true,
    }
}

/// Where the first value of a new secret comes from.
#[derive(Debug, Clone, PartialEq, Eq)]
pub enum SecretSource {
    /// Fetched from the provider behind the vault connection with this public id.
    Connection(String),
    /// Given by the caller.
    Value(String),
}

/// What reading a secret's current version takes.
#[derive(Debug, Clone, PartialEq, Eq)]
pub enum ReadPlan {
    /// Fetch it anew through the vault connection with this internal id.
    Refresh(i32),
    /// Decrypt the stored version with this tag.
    Stored(String),
}

/// The pointers a secret gets when a new version is written.
#[derive(Debug, Clone, PartialEq, Eq)]
pub struct VersionSuccession {
    pub secret_id: i32,
    pub current_version: String,
    pub previous_version: Option<String>,
}

/// What a refresh of a proxied secret does with the upstream value.
#[derive(Debug, Clone, PartialEq, Eq)]
pub enum RefreshPlan {
    /// The content is unchanged: extend the expiry of the current version
    /// (its id) and of the secret; the current tag is returned.
    Extend { version_id: i32, version_tag: String, expire_at: i64 },
    /// The content changed: store a new version under `succession.current_version`.
    Mint { succession: VersionSuccession, expire_at: i64 },
}

/// `plan` stores a new version of secret `secret_id` under `tag`, moving the
/// previous pointer to `previous`, and sets the expiry to `expire_at`.
pub open spec fn is_mint(
    plan: RefreshPlan,
    secret_id: i32,
    tag: Seq<char>,
    previous: Option<String>,
    expire_at: i64,
) -> bool {
    match plan {
        RefreshPlan::Mint { succession, expire_at: e } => {
            &&& e == expire_at
            &&& succession.secret_id == secret_id
            &&& succession.current_version@ == tag
            &&& succession.previous_version == previous
        },
        _ => false,
    }
}

/// Start of the run of decimal digits that ends `s[..k]`.
pub open spec fn digit_run_start(s: Seq<char>, k: int) -> int
    decreases k,
{
    if k > 0 && k <= s.len() && is_decimal_digit(s[k - 1]) {
        digit_run_start(s, k - 1)
    } else {
        k
    }
}

/// The tag after `tag`: a trailing run of decimal digits, of any length, is
/// replaced by the decimal text of its value plus one; a tag without one gets
/// `-1` appended.
pub open spec fn next_version_tag(tag: Seq<char>) -> Seq<char> {
    let k = digit_run_start(tag, tag.len() as int);
    let run = tag.subrange(k, tag.len() as int);
    if run.len() > 0 {
        tag.subrange(0, k) + decimal_text(digits_value(run) + 1)
    } else {
        tag + "-1"@
    }
}

/// The next tag is never the tag it follows, so a minted version never
/// takes the place of the current one under the same tag.
pub proof fn lemma_next_version_tag_differs(tag: Seq<char>)
    ensures
        next_version_tag(tag) != tag,
{
    let k = digit_run_start(tag, tag.len() as int);
    lemma_digit_run_bounds(tag, tag.len() as int);
    let run = tag.subrange(k, tag.len() as int);
    if run.len() > 0 {
        let v = digits_value(run);
        let next = tag.subrange(0, k) + decimal_text(v + 1);
        lemma_decimal_text_value(v + 1);
        if next == tag {
            assert(next.subrange(k, next.len() as int) =~= decimal_text(v + 1));
            assert(tag.subrange(k, tag.len() as int) == run);
            assert(decimal_text(v + 1) == run);
        }
    } else {
        assert((tag + "-1"@).len() == tag.len() + 2) by {
            reveal_strlit("-1");
        }
    }
}

/// The digit run ending `s[..k]` starts within `0..=k`.
pub proof fn lemma_digit_run_bounds(s: Seq<char>, k: int)
    requires
        0 <= k <= s.len(),
    ensures
        0 <= digit_run_start(s, k) <= k,
    decreases k,
{
    if k > 0 && is_decimal_digit(s[k - 1]) {
        lemma_digit_run_bounds(s, k - 1);
    }
}

/// The tag a proxied secret with no version yet starts from.
pub open spec fn seed_version_tag() -> Seq<char> {
    "v"@
}

/// Version pointers agree with the tags stored for the secret: the current
/// and the previous tag name stored versions, and differ.
pub open spec fn pointers_consistent(
    current: Option<Seq<char>>,
    previous: Option<Seq<char>>,
    tags: Set<Seq<char>>,
) -> bool {
    &&& current is Some ==> tags.contains(current->0)
    &&& previous is Some ==> tags.contains(previous->0)
    &&& current is Some && previous is Some ==> current->0 != previous->0
}

/// A new secret points at its single version and has no previous one.
pub proof fn lemma_first_version_consistent(tag: Seq<char>)
    ensures
        pointers_consistent(Some(tag), None, set![tag]),
{
}

/// Storing a version under a tag the secret does not have yet, then moving
/// the current pointer to it and the previous pointer to the old current,
/// keeps the pointers consistent. (A tag already stored is refused as a
/// conflict and nothing changes.)
pub proof fn lemma_succession_consistent(
    current: Option<Seq<char>>,
    previous: Option<Seq<char>>,
    tags: Set<Seq<char>>,
    new_tag: Seq<char>,
)
    requires
        pointers_consistent(current, previous, tags),
        !tags.contains(new_tag),
    ensures
        pointers_consistent(Some(new_tag), current, tags.insert(new_tag)),
{
}

/// A refresh that mints keeps a secret's version pointers consistent: the
/// tag after the current one (or after `v`) never equals the current tag, so
/// the new current and the new previous differ; and once a version is stored
/// under it (a tag already stored is refused as a conflict), the pointers
/// name stored versions. A refresh that extends leaves the pointers as they
/// were.
pub proof fn lemma_refresh_keeps_pointers(
    secret: Secret,
    tags: Set<Seq<char>>,
    plan: RefreshPlan,
    expire_at: i64,
)
    requires
        pointers_consistent(
            opt_text(secret.current_version),
            opt_text(secret.previous_version),
            tags,
        ),
        is_mint(
            plan,
            secret.id,
            next_version_tag(
                match secret.current_version {
                    Some(t) => t@,
                    None => seed_version_tag(),
                },
            ),
            secret.current_version,
            expire_at,
        ),
    ensures
        plan matches RefreshPlan::Mint { succession, .. } && opt_text(succession.previous_version)
            != Some(succession.current_version@) && (!tags.contains(succession.current_version@)
            ==> pointers_consistent(
            Some(succession.current_version@),
            opt_text(succession.previous_version),
            tags.insert(succession.current_version@),
        )),
{
    match secret.current_version {
        Some(t) => lemma_next_version_tag_differs(t@),
        None => {},
    }
}

/// The instant at which a value fetched at `now_ms` goes stale.
pub open spec fn expiry_after(now_ms: int, ttl_seconds: Option<i32>) -> int {
    now_ms + 1000 * match ttl_seconds {
        Some(t) => t as int,
        None => DEFAULT_TTL_SECONDS as int,
    }
}

/// Messages for a field that must match `format` and hold `min..=max` characters.
pub open spec fn format_and_length_messages(
    format_ok: bool,
    format_msg: Seq<char>,
    length_ok: bool,
    length_msg: Seq<char>,
) -> Seq<Seq<char>> {
    (if format_ok {
        Seq::empty()
    } else {
        seq![format_msg]
    }) + (if length_ok {
        Seq::empty()
    } else {
        seq![length_msg]
    })
}

pub open spec fn name_messages(name: Seq<char>) -> Seq<Seq<char>> {
    format_and_length_messages(
        is_secret_name_format(name),
        "Invalid secret name format"@,
        1 <= name.len() <= MAX_SECRET_NAME_CHARS,
        "Secret name must be between 1 and 255 characters"@,
    )
}

pub open spec fn tag_messages(tag: Seq<char>) -> Seq<Seq<char>> {
    format_and_length_messages(
        is_version_tag_format(tag),
        "Invalid version tag format"@,
        1 <= tag.len() <= MAX_VERSION_TAG_CHARS,
        "Version tag must be between 1 and 20 characters"@,
    )
}

pub open spec fn value_messages(value: Option<Seq<char>>) -> Seq<Seq<char>> {
    match value {
        Some(v) => if v.len() == 0 {
            seq!["Secret value cannot be empty"@]
        } else {
            Seq::empty()
        },
        None => Seq::empty(),
    }
}

pub open spec fn connection_messages(id: Option<Seq<char>>) -> Seq<Seq<char>> {
    match id {
        Some(v) => if is_public_id(v) {
            Seq::empty()
        } else {
            seq!["Invalid vault connection ID format"@]
        },
        None => Seq::empty(),
    }
}

fn push_message(messages: &mut Vec<String>, message: &str)
    ensures
        final(messages).deep_view() == old(messages).deep_view().push(message@),
{
    let ghost before = messages.deep_view();
    messages.push(message.to_owned());
    assert(messages.deep_view() =~= before.push(message@));
}

fn format_and_length(format_ok: bool, format_msg: &str, length_ok: bool, length_msg: &str) -> (r:
    Vec<String>)
    ensures
        r.deep_view() == format_and_length_messages(
            format_ok,
            format_msg@,
            length_ok,
            length_msg@,
        ),
{
    let mut messages: Vec<String> = Vec::new();
    assert(messages.deep_view() =~= Seq::<Seq<char>>::empty());
    if !format_ok {
        push_message(&mut messages, format_msg);
    }
    if !length_ok {
        push_message(&mut messages, length_msg);
    }
    assert(messages.deep_view() =~= format_and_length_messages(
        format_ok,
        format_msg@,
        length_ok,
        length_msg@,
    ));
    messages
}

fn name_problems(name: &str) -> (r: Vec<String>)
    ensures
        r.deep_view() == name_messages(name@),
{
    let n = name.unicode_len();
    format_and_length(
        matches_secret_name_format(name),
        "Invalid secret name format",
        1 <= n && n <= MAX_SECRET_NAME_CHARS,
        "Secret name must be between 1 and 255 characters",
    )
}

fn tag_problems(tag: &str) -> (r: Vec<String>)
    ensures
        r.deep_view() == tag_messages(tag@),
{
    let n = tag.unicode_len();
    format_and_length(
        matches_version_tag_format(tag),
        "Invalid version tag format",
        1 <= n && n <= MAX_VERSION_TAG_CHARS,
        "Version tag must be between 1 and 20 characters",
    )
}

fn value_problems(value: Option<&str>) -> (r: Vec<String>)
    ensures
        r.deep_view() == value_messages(
            match value {
                Some(v) => Some(v@),
                None => None,
            },
        ),
{
    let mut messages: Vec<String> = Vec::new();
    assert(messages.deep_view() =~= Seq::<Seq<char>>::empty());
    if let Some(v) = value {
        if v.unicode_len() == 0 {
            push_message(&mut messages, "Secret value cannot be empty");
            assert(messages.deep_view() =~= seq!["Secret value cannot be empty"@]);
        }
    }
    messages
}

fn digit_at(s: &str, i: usize) -> (r: bool)
    requires
        i < s@.len(),
    ensures
        r == is_decimal_digit(s@[i as int]),
{
    let c = s.get_char(i);
    '0' <= c && c <= '9'
}

/// Body of a request that creates a secret with its first version.
#[derive(Debug, Clone, PartialEq, Eq)]
pub struct CreateSecretRequest {
    pub name: String,
    /// Public id of the vault connection that makes the secret proxied.
    pub vault_connection: Option<String>,
    pub value: Option<String>,
    pub version_tag: String,
}

pub open spec fn create_secret_report(r: CreateSecretRequest) -> Seq<
    (Seq<char>, Seq<Seq<char>>),
> {
    with_field(
        with_field(
            with_field(
                with_field(Seq::empty(), "name"@, name_messages(r.name@)),
                "vault_connection"@,
                connection_messages(opt_text(r.vault_connection)),
            ),
            "value"@,
            value_messages(opt_text(r.value)),
        ),
        "version_tag"@,
        tag_messages(r.version_tag@),
    )
}

impl CreateSecretRequest {
    /// Checks every field: the name and the tag against their formats and
    /// lengths, a connection id against the public id format, and a value
    /// for being non-empty.
    pub fn validate(&self) -> (r: Result<(), ValidationErrors>)
        ensures
            r is Ok <==> create_secret_report(*self).len() == 0,
            r is Err ==> r->Err_0@ == create_secret_report(*self),
    {
        let mut errors = ValidationErrors::new();
        errors.add("name", name_problems(self.name.as_str()));
        let mut conn: Vec<String> = Vec::new();
        assert(conn.deep_view() =~= Seq::<Seq<char>>::empty());
        if let Some(id) = &self.vault_connection {
            if !is_valid_public_id(id.as_str()) {
                push_message(&mut conn, "Invalid vault connection ID format");
                assert(conn.deep_view() =~= seq!["Invalid vault connection ID format"@]);
            }
        }
        errors.add("vault_connection", conn);
        let value = match &self.value {
            Some(v) => Some(v.as_str()),
            None => None,
        };
        errors.add("value", value_problems(value));
        errors.add("version_tag", tag_problems(self.version_tag.as_str()));
        if errors.is_empty() {
            Ok(())
        } else {
            Err(errors)
        }
    }
}

/// Body of a request that writes a new version of a local secret.
#[derive(Debug, Clone, PartialEq, Eq)]
pub struct CreateSecretVersionRequest {
    pub value: String,
    pub version_tag: String,
}

pub open spec fn create_version_report(r: CreateSecretVersionRequest) -> Seq<
    (Seq<char>, Seq<Seq<char>>),
> {
    with_field(
        with_field(Seq::empty(), "value"@, value_messages(Some(r.value@))),
        "version_tag"@,
        tag_messages(r.version_tag@),
    )
}

impl CreateSecretVersionRequest {
    /// Checks that the value is non-empty and the tag has the version tag
    /// format and length.
    pub fn validate(&self) -> (r: Result<(), ValidationErrors>)
        ensures
            r is Ok <==> create_version_report(*self).len() == 0,
            r is Err ==> r->Err_0@ == create_version_report(*self),
    {
        let mut errors = ValidationErrors::new();
        errors.add("value", value_problems(Some(self.value.as_str())));
        errors.add("version_tag", tag_problems(self.version_tag.as_str()));
        if errors.is_empty() {
            Ok(())
        } else {
            Err(errors)
        }
    }
}

/// A secret's value as returned to the caller.
#[derive(Debug, Clone, PartialEq, Eq)]
pub struct SecretResponse {
    pub name: String,
    pub value: String,
    pub version_tag: String,
}

/// Reply to creating a secret.
#[derive(Debug, Clone, PartialEq, Eq)]
pub struct CreateSecretResponse {
    pub name: String,
    pub version_tag: String,
    pub created_at: i64,
}

/// Reply to writing a new version.
#[derive(Debug, Clone, PartialEq, Eq)]
pub struct CreateSecretVersionResponse {
    pub name: String,
    pub version_tag: String,
    pub created_at: i64,
}

/// The decisions of the secret lifecycle; the caller performs the storage,
/// KMS and provider work that each decision calls for.
pub struct SecretService;

impl SecretService {
    /// The next tag of a proxied secret whose content changed upstream.
    pub fn get_next_version_tag(current_tag: &str) -> (r: String)
        ensures
            r@ == next_version_tag(current_tag@),
    {
        let n = current_tag.unicode_len();
        let mut k: usize = n;
        while k > 0 && digit_at(current_tag, k - 1)
            invariant
                k <= n,
                n == current_tag@.len(),
                digit_run_start(current_tag@, n as int) == digit_run_start(current_tag@, k as int),
                forall|j: int| k <= j < n ==> is_decimal_digit(#[trigger] current_tag@[j]),
            decreases k,
        {
            k = k - 1;
        }
        let ghost tag = current_tag@;
        assert(digit_run_start(tag, k as int) == k);
        let ghost run = tag.subrange(k as int, n as int);
        assert(all_decimal(run));
        if k < n {
            let mut p: usize = k;
            while p < n && current_tag.get_char(p) == '0'
                invariant
                    k <= p <= n,
                    n == tag.len(),
                    tag == current_tag@,
                    forall|j: int| k <= j < p ==> #[trigger] tag[j] == '0',
                decreases n - p,
            {
                p = p + 1;
            }
            let ghost zeros = tag.subrange(k as int, p as int);
            let ghost rest = tag.subrange(p as int, n as int);
            proof {
                assert(run =~= zeros + rest);
                assert forall|i: int| 0 <= i < rest.len() implies is_decimal_digit(
                    #[trigger] rest[i],
                ) by {
                    assert(rest[i] == run[i + p - k]);
                }
                lemma_leading_zeros_value(zeros, rest);
                lemma_incremented_digits_value(rest);
                if rest.len() > 0 {
                    assert(rest[0] == tag[p as int]);
                }
                lemma_canonical_digits(incremented_digits(rest));
            }
            let mut out = current_tag.substring_char(0, k).to_owned();
            push_incremented_digits(&mut out, current_tag, p);
            return out;
        }
        current_tag.to_owned().concat("-1")
    }

    /// Where the first value of a new secret comes from: exactly one of a
    /// vault connection and a value must be given.
    pub fn plan_create(request: &CreateSecretRequest) -> (r: Result<SecretSource, AppError>)
        ensures
            request.vault_connection is Some && request.value is Some ==> is_invalid_input(
                r,
                "Only one of `vault_connection_id` or `value` can be present"@,
            ),
            request.vault_connection is None && request.value is None ==> is_invalid_input(
                r,
                "One of `vault_connection_id` or `value` must be present"@,
            ),
            request.vault_connection is Some && request.value is None ==> r == Ok::<
                SecretSource,
                AppError,
            >(SecretSource::Connection(request.vault_connection->0)),
            request.vault_connection is None && request.value is Some ==> r == Ok::<
                SecretSource,
                AppError,
            >(SecretSource::Value(request.value->0)),
    {
        match (&request.vault_connection, &request.value) {
            (Some(_), Some(_)) => Err(
                AppError::invalid_input(
                    "Only one of `vault_connection_id` or `value` can be present",
                ),
            ),
            (None, None) => Err(
                AppError::invalid_input("One of `vault_connection_id` or `value` must be present"),
            ),
            (Some(c), None) => Ok(SecretSource::Connection(c.clone())),
            (None, Some(v)) => Ok(SecretSource::Value(v.clone())),
        }
    }

    /// Whether a read of the secret's current version refreshes it from
    /// upstream.
    pub fn should_refresh(secret: &Secret, now_ms: i64) -> (r: bool)
        ensures
            r == needs_refresh(*secret, now_ms as int),
    {
        match secret.vault_connection_id {
            Some(_) => match secret.expire_at {
                Some(e) => now_ms > e,
                None => true,
            },
            None => false,
        }
    }

    /// What reading the current version of the secret found by name takes:
    /// an expired proxied secret is refreshed, any other returns its current
    /// version.
    pub fn plan_read(secret: Option<&Secret>, now_ms: i64) -> (r: Result<ReadPlan, AppError>)
        ensures
            secret is None ==> r == Err::<ReadPlan, AppError>(AppError::NotFoundError),
            secret is Some && needs_refresh(*secret->0, now_ms as int) ==> r == Ok::<
                ReadPlan,
                AppError,
            >(ReadPlan::Refresh(secret->0.vault_connection_id->0)),
            secret is Some && !needs_refresh(*secret->0, now_ms as int)
                && secret->0.current_version is None ==> r == Err::<ReadPlan, AppError>(
                AppError::NotFoundError,
            ),
            secret is Some && !needs_refresh(*secret->0, now_ms as int)
                && secret->0.current_version is Some ==> r == Ok::<ReadPlan, AppError>(
                ReadPlan::Stored(secret->0.current_version->0),
            ),
    {
        let secret = match secret {
            Some(s) => s,
            None => {
                return Err(AppError::NotFoundError);
            },
        };
        if Self::should_refresh(secret, now_ms) {
            return Ok(ReadPlan::Refresh(secret.vault_connection_id.unwrap()));
        }
        match &secret.current_version {
            Some(tag) => Ok(ReadPlan::Stored(tag.clone())),
            None => Err(AppError::NotFoundError),
        }
    }

    /// The pointers that writing `new_tag` to the secret found by name
    /// (locked for update) gives it. A proxied secret refuses the write,
    /// whatever the payload.
    pub fn plan_new_version(secret: Option<&Secret>, new_tag: &str) -> (r: Result<
        VersionSuccession,
        AppError,
    >)
        ensures
            secret is None ==> r == Err::<VersionSuccession, AppError>(AppError::NotFoundError),
            secret is Some && is_proxied(*secret->0) ==> r == Err::<VersionSuccession, AppError>(
                AppError::MethodNotAllowed,
            ),
            secret is Some && !is_proxied(*secret->0) ==> r is Ok && r->Ok_0.secret_id
                == secret->0.id && r->Ok_0.current_version@ == new_tag@ && r->Ok_0.previous_version
                == secret->0.current_version,
    {
        let secret = match secret {
            Some(s) => s,
            None => {
                return Err(AppError::NotFoundError);
            },
        };
        if secret.vault_connection_id.is_some() {
            return Err(AppError::MethodNotAllowed);
        }
        Ok(
            VersionSuccession {
                secret_id: secret.id,
                current_version: new_tag.to_owned(),
                previous_version: secret.current_version.clone(),
            },
        )
    }

    /// When a value fetched at `now_ms` goes stale: after the connection's
    /// ttl, or `DEFAULT_TTL_SECONDS` when it sets none.
    pub fn refresh_expiry(now_ms: i64, ttl_seconds: Option<i32>) -> (r: i64)
        requires
            MIN_INSTANT_MS <= now_ms <= MAX_INSTANT_MS,
        ensures
            r == expiry_after(now_ms as int, ttl_seconds),
    {
        let ttl: i32 = match ttl_seconds {
            Some(t) => t,
            None => DEFAULT_TTL_SECONDS,
        };
        now_ms + 1000 * (ttl as i64)
    }

    /// What a refresh does with an upstream value whose hex SHA-256 is
    /// `new_sha256`. `current` is the stored version named by the secret's
    /// current tag (looked up only when it has one). Unchanged content
    /// extends the expiry; changed content, or a secret without versions,
    /// mints the next tag after the current one (or after `v`).
    pub fn plan_refresh(
        secret: &Secret,
        current: Option<&SecretVersion>,
        new_sha256: &str,
        expire_at: i64,
    ) -> (r: Result<RefreshPlan, AppError>)
        ensures
            secret.current_version is Some && current is None ==> r == Err::<
                RefreshPlan,
                AppError,
            >(AppError::NotFoundError),
            secret.current_version is Some && current is Some && opt_text(
                current->0.sha256sum,
            ) == Some(new_sha256@) ==> r == Ok::<RefreshPlan, AppError>(
                RefreshPlan::Extend {
                    version_id: current->0.id,
                    version_tag: secret.current_version->0,
                    expire_at,
                },
            ),
            secret.current_version is Some && current is Some && opt_text(current->0.sha256sum)
                != Some(new_sha256@) ==> r is Ok && is_mint(
                r->Ok_0,
                secret.id,
                next_version_tag(secret.current_version->0@),
                secret.current_version,
                expire_at,
            ),
            secret.current_version is None ==> r is Ok && is_mint(
                r->Ok_0,
                secret.id,
                next_version_tag(seed_version_tag()),
                None,
                expire_at,
            ),
    {
        if let Some(tag) = &secret.current_version {
            let version = match current {
                Some(v) => v,
                None => {
                    return Err(AppError::NotFoundError);
                },
            };
            let same = match &version.sha256sum {
                Some(sha) => text_eq(sha.as_str(), new_sha256),
                None => false,
            };
            if same {
                return Ok(
                    RefreshPlan::Extend {
                        version_id: version.id,
                        version_tag: tag.clone(),
                        expire_at,
                    },
                );
            }
            let next = Self::get_next_version_tag(tag.as_str());
            Ok(
                RefreshPlan::Mint {
                    succession: VersionSuccession {
                        secret_id: secret.id,
                        current_version: next,
                        previous_version: Some(tag.clone()),
                    },
                    expire_at,
                },
            )
        } else {
            let next = Self::get_next_version_tag("v");
            Ok(
                RefreshPlan::Mint {
                    succession: VersionSuccession {
                        secret_id: secret.id,
                        current_version: next,
                        previous_version: None,
                    },
                    expire_at,
                },
            )
        }
    }

    /// The tag a refresh returns: the current one when nothing was minted.
    pub fn refreshed_tag(plan: &RefreshPlan) -> (r: String)
        ensures
            match *plan {
                RefreshPlan::Extend { version_tag, .. } => r == version_tag,
                RefreshPlan::Mint { succession, .. } => r == succession.current_version,
            },
    {
        match plan {
            RefreshPlan::Extend { version_tag, .. } => version_tag.clone(),
            RefreshPlan::Mint { succession, .. } => succession.current_version.clone(),
        }
    }
}

} // verus!
