//! Formats that identifiers and payload fields must match before they reach
//! the services, and the per-field error report that a failed check yields.

use vstd::prelude::*;
use vstd::string::StringSliceAdditionalSpecFns;

verus! {

/// Largest vault configuration, in bytes of UTF-8.
pub const MAX_CONFIG_BYTES: usize = 4096;

/// Longest secret name, in characters.
pub const MAX_SECRET_NAME_CHARS: usize = 255;

/// Longest version tag, in characters.
pub const MAX_VERSION_TAG_CHARS: usize = 20;

pub open spec fn is_ascii_alnum(c: char) -> bool {
    ('a' <= c && c <= 'z') || ('A' <= c && c <= 'Z') || ('0' <= c && c <= '9')
}

/// A character allowed inside an identifier; `.` only where `allow_dot`.
pub open spec fn is_inner_char(c: char, allow_dot: bool) -> bool {
    is_ascii_alnum(c) || c == '_' || c == '-' || (allow_dot && c == '.')
}

/// Starts and ends with an ASCII letter or digit, with inner characters from
/// `[A-Za-z0-9_-]` (plus `.` where `allow_dot`) between.
pub open spec fn is_framed(s: Seq<char>, allow_dot: bool) -> bool {
    &&& s.len() >= 1
    &&& is_ascii_alnum(s[0])
    &&& is_ascii_alnum(s.last())
    &&& forall|i: int| 1 <= i < s.len() - 1 ==> is_inner_char(#[trigger] s[i], allow_dot)
}

/// `^[A-Za-z0-9][A-Za-z0-9_-]{6,22}[A-Za-z0-9]$`
pub open spec fn is_public_id(s: Seq<char>) -> bool {
    8 <= s.len() <= 24 && is_framed(s, false)
}

/// `^[A-Za-z0-9]([A-Za-z0-9_-]*[A-Za-z0-9])?$`
pub open spec fn is_secret_name_format(s: Seq<char>) -> bool {
    is_framed(s, false)
}

/// `^[A-Za-z0-9]([A-Za-z0-9_.-]*[A-Za-z0-9])?$`
pub open spec fn is_version_tag_format(s: Seq<char>) -> bool {
    is_framed(s, true)
}

pub open spec fn is_secret_name(s: Seq<char>) -> bool {
    is_secret_name_format(s) && 1 <= s.len() <= MAX_SECRET_NAME_CHARS
}

pub open spec fn is_version_tag(s: Seq<char>) -> bool {
    is_version_tag_format(s) && 1 <= s.len() <= MAX_VERSION_TAG_CHARS
}

fn ascii_alnum(c: char) -> (r: bool)
    ensures
        r == is_ascii_alnum(c),
{
    ('a' <= c && c <= 'z') || ('A' <= c && c <= 'Z') || ('0' <= c && c <= '9')
}

fn framed(s: &str, allow_dot: bool) -> (r: bool)
    ensures
        r == is_framed(s@, allow_dot),
{
    let n = s.unicode_len();
    if n == 0 {
        return false;
    }
    if !ascii_alnum(s.get_char(0)) || !ascii_alnum(s.get_char(n - 1)) {
        return false;
    }
    let mut i: usize = 1;
    while i < n - 1
        invariant
            1 <= i <= n,
            n == s@.len(),
            forall|j: int| 1 <= j < i ==> is_inner_char(#[trigger] s@[j], allow_dot),
        decreases n - i,
    {
        let c = s.get_char(i);
        if !(ascii_alnum(c) || c == '_' || c == '-' || (allow_dot && c == '.')) {
            return false;
        }
        i = i + 1;
    }
    true
}

/// Whether `s` is a well-formed vault connection public id.
pub fn is_valid_public_id(s: &str) -> (r: bool)
    ensures
        r == is_public_id(s@),
{
    let n = s.unicode_len();
    8 <= n && n <= 24 && framed(s, false)
}

/// Whether `s` has the format of a secret name (the length is not checked).
pub fn matches_secret_name_format(s: &str) -> (r: bool)
    ensures
        r == is_secret_name_format(s@),
{
    framed(s, false)
}

/// Whether `s` has the format of a version tag (the length is not checked).
pub fn matches_version_tag_format(s: &str) -> (r: bool)
    ensures
        r == is_version_tag_format(s@),
{
    framed(s, true)
}

/// A vault configuration is at most `MAX_CONFIG_BYTES` bytes long.
pub fn validate_vault_config(config: &str) -> (r: bool)
    ensures
        r == (config.spec_bytes().len() <= MAX_CONFIG_BYTES),
{
    config.as_bytes().len() <= MAX_CONFIG_BYTES
}

/// The messages recorded against one payload field.
#[derive(Debug, Clone, PartialEq, Eq)]
pub struct FieldErrors {
    pub field: String,
    pub messages: Vec<String>,
}

impl View for FieldErrors {
    type V = (Seq<char>, Seq<Seq<char>>);

    open spec fn view(&self) -> (Seq<char>, Seq<Seq<char>>) {
        (self.field@, self.messages.deep_view())
    }
}

/// Every field that failed validation, in declaration order, each with its
/// messages; fields without a failure are absent.
#[derive(Debug, Clone, PartialEq, Eq)]
pub struct ValidationErrors {
    pub fields: Vec<FieldErrors>,
}

impl View for ValidationErrors {
    type V = Seq<(Seq<char>, Seq<Seq<char>>)>;

    open spec fn view(&self) -> Seq<(Seq<char>, Seq<Seq<char>>)> {
        Seq::new(self.fields@.len(), |i: int| self.fields@[i]@)
    }
}

/// `report` with `field` and its messages added at the end, when there are
/// any.
pub open spec fn with_field(
    report: Seq<(Seq<char>, Seq<Seq<char>>)>,
    field: Seq<char>,
    messages: Seq<Seq<char>>,
) -> Seq<(Seq<char>, Seq<Seq<char>>)> {
    if messages.len() > 0 {
        report.push((field, messages))
    } else {
        report
    }
}

impl ValidationErrors {
    pub fn new() -> (r: ValidationErrors)
        ensures
            r@ == Seq::<(Seq<char>, Seq<Seq<char>>)>::empty(),
    {
        ValidationErrors { fields: Vec::new() }
    }

    /// Records `messages` against `field` when there is at least one.
    pub fn add(&mut self, field: &str, messages: Vec<String>)
        ensures
            messages@.len() > 0 ==> final(self)@ == old(self)@.push(
                (field@, messages.deep_view()),
            ),
            messages@.len() == 0 ==> final(self)@ == old(self)@,
    {
        if messages.len() > 0 {
            let ghost before = self@;
            self.fields.push(FieldErrors { field: field.to_owned(), messages });
            assert(self@ =~= before.push((field@, messages.deep_view())));
        }
    }

    pub fn is_empty(&self) -> (r: bool)
        ensures
            r == (self@.len() == 0),
    {
        self.fields.len() == 0
    }
}

} // verus!
