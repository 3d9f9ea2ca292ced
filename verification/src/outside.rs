//! Calls into outside crates (and into parts of std that vstd does not
//! specify). Each item here is trusted: its contract is taken on faith.
use vstd::prelude::*;

verus! {

// ---------------------------------------------------------------------------
// dirs: the user's standard directories. What they return depends on the
// environment and the password database, so nothing is promised about it.
// ---------------------------------------------------------------------------
/// `dirs::home_dir`, as text. The result depends on the environment (`HOME`)
/// and on the system's user database; nothing is stated about it.
#[verifier::external_body]
pub fn home_dir() -> Option<String> {
    match dirs::home_dir() {
        Some(p) => Some(p.to_string_lossy().into_owned()),
        None => None,
    }
}

/// `dirs::cache_dir`, as text (`$XDG_CACHE_HOME` or `~/.cache`). Depends on
/// the environment; nothing is stated about it.
#[verifier::external_body]
pub fn cache_dir() -> Option<String> {
    match dirs::cache_dir() {
        Some(p) => Some(p.to_string_lossy().into_owned()),
        None => None,
    }
}

/// `dirs::config_dir`, as text (`$XDG_CONFIG_HOME` or `~/.config`). Depends on
/// the environment; nothing is stated about it.
#[verifier::external_body]
pub fn config_dir() -> Option<String> {
    match dirs::config_dir() {
        Some(p) => Some(p.to_string_lossy().into_owned()),
        None => None,
    }
}

/// `dirs::data_dir`, as text (`$XDG_DATA_HOME` or `~/.local/share`). Depends
/// on the environment; nothing is stated about it.
#[verifier::external_body]
pub fn data_dir() -> Option<String> {
    match dirs::data_dir() {
        Some(p) => Some(p.to_string_lossy().into_owned()),
        None => None,
    }
}

/// `dirs::data_local_dir`, as text. Depends on the environment; nothing is
/// stated about it.
#[verifier::external_body]
pub fn data_local_dir() -> Option<String> {
    match dirs::data_local_dir() {
        Some(p) => Some(p.to_string_lossy().into_owned()),
        None => None,
    }
}

/// `dirs::state_dir`, as text (`$XDG_STATE_HOME` or `~/.local/state`).
/// Depends on the environment; nothing is stated about it.
#[verifier::external_body]
pub fn state_dir() -> Option<String> {
    match dirs::state_dir() {
        Some(p) => Some(p.to_string_lossy().into_owned()),
        None => None,
    }
}

// ---------------------------------------------------------------------------
// bytesize: human-readable byte counts.
// ---------------------------------------------------------------------------
/// The text `bytesize::ByteSize(bytes).to_string()` produces (binary units
/// with one decimal, such as `1.5 KiB`). Its rounding takes pages to state;
/// it depends on `bytes` alone.
pub uninterp spec fn byte_size_text(bytes: u64) -> Seq<char>;

/// `bytesize::ByteSize(bytes).to_string()`: the result is `byte_size_text`
/// of the argument.
#[verifier::external_body]
pub fn format_bytes(bytes: u64) -> (r: String)
    ensures
        r@ == byte_size_text(bytes),
{
    bytesize::ByteSize(bytes).to_string()
}

// ---------------------------------------------------------------------------
// uuid: rule identifiers.
// ---------------------------------------------------------------------------
#[verifier::external_type_specification]
#[verifier::external_body]
pub struct ExUuid(uuid::Uuid);

/// `Uuid` is `Copy`: its derived `Clone` returns the same identifier.
pub assume_specification[ <uuid::Uuid as Clone>::clone ](u: &uuid::Uuid) -> (r: uuid::Uuid)
    ensures
        r == *u,
;

/// `uuid::Uuid::new_v4`: a random identifier; nothing is stated about it.
#[verifier::external_body]
pub fn new_rule_id() -> uuid::Uuid {
    uuid::Uuid::new_v4()
}

/// `Uuid == Uuid`. The comparison is derived on the identifier's sixteen
/// bytes, which are its whole value: equal exactly when the identifiers are.
#[verifier::external_body]
pub fn same_rule_id(a: &uuid::Uuid, b: &uuid::Uuid) -> (r: bool)
    ensures
        r == (*a == *b),
{
    a == b
}

// ---------------------------------------------------------------------------
// serde_json: reading a quoted string literal of a PO catalog.
// ---------------------------------------------------------------------------
/// The string that `serde_json::from_str::<String>` reads from `text`, or
/// `None` where `text` is not a JSON string literal (escape decoding takes
/// pages to state); it depends on `text` alone.
pub uninterp spec fn json_string(text: Seq<char>) -> Option<Seq<char>>;

/// `serde_json::from_str::<String>(text).ok()`: the result is `json_string`
/// of the argument.
#[verifier::external_body]
pub fn parse_json_string(text: &str) -> (r: Option<String>)
    ensures
        match r {
            Some(s) => json_string(text@) == Some(s@),
            None => json_string(text@) is None,
        },
{
    serde_json::from_str::<String>(text).ok()
}

// ---------------------------------------------------------------------------
// chrono: showing a moment in UTC.
// ---------------------------------------------------------------------------
/// The text `chrono` writes for the UTC moment `secs` seconds after the Unix
/// epoch with the pattern `%Y-%m-%d %H:%M` (calendar arithmetic takes pages
/// to state), or `None` where the moment is outside chrono's range; it
/// depends on `secs` alone.
pub uninterp spec fn utc_minute_text(secs: i64) -> Option<Seq<char>>;

/// `DateTime::<Utc>::from_timestamp(secs, 0)` formatted with
/// `%Y-%m-%d %H:%M`: the result is `utc_minute_text` of the argument.
#[verifier::external_body]
pub fn format_utc_minute(secs: i64) -> (r: Option<String>)
    ensures
        match r {
            Some(s) => utc_minute_text(secs) == Some(s@),
            None => utc_minute_text(secs) is None,
        },
{
    match chrono::DateTime::from_timestamp(secs, 0) {
        Some(t) => Some(t.format("%Y-%m-%d %H:%M").to_string()),
        None => None,
    }
}

// ---------------------------------------------------------------------------
// std: Unicode lower-casing.
// ---------------------------------------------------------------------------
/// The text `str::to_lowercase` produces (full Unicode case mapping, which
/// may change the length); it depends on the argument alone.
pub uninterp spec fn unicode_lowercase(text: Seq<char>) -> Seq<char>;

/// `str::to_lowercase`: the result is `unicode_lowercase` of the argument.
#[verifier::external_body]
pub fn lowercase(text: &str) -> (r: String)
    ensures
        r@ == unicode_lowercase(text@),
{
    text.to_lowercase()
}

// ---------------------------------------------------------------------------
// std: building a string from characters (vstd specifies no `String::push`).
// ---------------------------------------------------------------------------
/// `Iterator::collect` of characters into a `String`: the string holds
/// exactly the given characters, in order.
#[verifier::external_body]
pub fn string_from_chars(v: &[char]) -> (s: String)
    ensures
        s@ == v@,
{
    v.iter().collect()
}

} // verus!
