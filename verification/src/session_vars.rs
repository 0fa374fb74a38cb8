//! Per-session GUC (run-time configuration) variables.
//!
//! PostgreSQL keeps `SET`/`SHOW` state per connection. Values not explicitly set
//! fall back to [`default_session_var`], which matches what the startup
//! `ParameterStatus` burst and `pg_settings` advertise.
use vstd::prelude::*;
use crate::text::{chars_of, opt_text, same_text, text_between, trim_text, trimmed};

verus! {

/// The value a fresh session reports for each known variable.
pub open spec fn default_var(name: Seq<char>) -> Option<Seq<char>> {
    if name == "search_path"@ {
        Some("public"@)
    } else if name == "application_name"@ {
        Some(""@)
    } else if name == "client_encoding"@ {
        Some("UTF8"@)
    } else if name == "datestyle"@ {
        Some("ISO, MDY"@)
    } else if name == "timezone"@ {
        Some("UTC"@)
    } else if name == "intervalstyle"@ {
        Some("postgres"@)
    } else if name == "standard_conforming_strings"@ {
        Some("on"@)
    } else if name == "integer_datetimes"@ {
        Some("on"@)
    } else if name == "bytea_output"@ {
        Some("hex"@)
    } else if name == "server_encoding"@ {
        Some("UTF8"@)
    } else if name == "server_version"@ {
        Some("18.0"@)
    } else if name == "server_version_num"@ {
        Some("180000"@)
    } else if name == "is_superuser"@ {
        Some("on"@)
    } else if name == "session_authorization"@ {
        Some("nodus"@)
    } else if name == "transaction_isolation"@ {
        Some("read committed"@)
    } else if name == "default_transaction_isolation"@ {
        Some("read committed"@)
    } else if name == "transaction_read_only"@ {
        Some("off"@)
    } else if name == "default_transaction_read_only"@ {
        Some("off"@)
    } else if name == "statement_timeout"@ {
        Some("0"@)
    } else if name == "lc_collate"@ {
        Some("C"@)
    } else if name == "lc_ctype"@ {
        Some("C"@)
    } else {
        None
    }
}

/// Built-in default a freshly connected session reports for a known GUC.
///
/// Returns `None` for variables that are not modelled; `SHOW` of an unknown
/// variable then yields an empty string (PostgreSQL would raise
/// `unrecognized configuration parameter`, but several drivers probe optional
/// GUCs and tolerate a blank answer better than an error).
pub fn default_session_var(lower_name: &str) -> (r: Option<&'static str>)
    ensures
        match (r, default_var(lower_name@)) {
            (Some(a), Some(b)) => a@ == b,
            (None, None) => true,
            _ => false,
        },
{
    let n = lower_name;
    // Unqualified names resolve in a single `public` schema, so the effective
    // search path is just `public` (not `"$user", public`).
    if same_text(n, "search_path") {
        Some("public")
    } else if same_text(n, "application_name") {
        Some("")
    } else if same_text(n, "client_encoding") {
        Some("UTF8")
    } else if same_text(n, "datestyle") {
        Some("ISO, MDY")
    } else if same_text(n, "timezone") {
        Some("UTC")
    } else if same_text(n, "intervalstyle") {
        Some("postgres")
    } else if same_text(n, "standard_conforming_strings") {
        Some("on")
    } else if same_text(n, "integer_datetimes") {
        Some("on")
    } else if same_text(n, "bytea_output") {
        Some("hex")
    } else if same_text(n, "server_encoding") {
        Some("UTF8")
    } else if same_text(n, "server_version") {
        Some("18.0")
    } else if same_text(n, "server_version_num") {
        Some("180000")
    } else if same_text(n, "is_superuser") {
        Some("on")
    } else if same_text(n, "session_authorization") {
        Some("nodus")
    } else if same_text(n, "transaction_isolation") {
        Some("read committed")
    } else if same_text(n, "default_transaction_isolation") {
        Some("read committed")
    } else if same_text(n, "transaction_read_only") {
        Some("off")
    } else if same_text(n, "default_transaction_read_only") {
        Some("off")
    } else if same_text(n, "statement_timeout") {
        Some("0")
    } else if same_text(n, "lc_collate") {
        Some("C")
    } else if same_text(n, "lc_ctype") {
        Some("C")
    } else {
        None
    }
}

/// Whether a text stands between two equal quotation marks.
pub open spec fn is_quoted(s: Seq<char>) -> bool {
    s.len() >= 2 && s[0] == s.last() && (s[0] == '\'' || s[0] == '"')
}

/// The bare value of a `SET` value: trimmed, without one layer of quotation
/// marks.
pub open spec fn bare_value(raw: Seq<char>) -> Seq<char> {
    let t = trimmed(raw);
    if is_quoted(t) {
        t.subrange(1, t.len() - 1)
    } else {
        t
    }
}

/// Normalizes a value as it arrives from the planner (which renders the parsed
/// `SET` expression) into the bare string `SHOW` should echo: strips one layer
/// of surrounding single/double quotes and trims whitespace.
pub fn normalize_var_value(raw: &str) -> (r: String)
    ensures
        r@ == bare_value(raw@),
{
    let bare = trim_text(raw);
    let chars = chars_of(bare.as_str());
    let n: usize = chars.len();
    if n >= 2 && chars[0] == chars[n - 1] && (chars[0] == '\'' || chars[0] == '"') {
        return text_between(&chars, 1, n - 1);
    }
    bare
}

/// The value of a run-time variable: the session's own if it set one, else
/// the default.
pub open spec fn setting_of(overrides: Seq<(String, String)>, name: Seq<char>) -> Option<Seq<char>>
    decreases overrides.len(),
{
    if overrides.len() == 0 {
        default_var(name)
    } else if overrides[0].0@ == name {
        Some(overrides[0].1@)
    } else {
        setting_of(overrides.skip(1), name)
    }
}

/// `current_setting(name)`: the session's own value if it set one, else the
/// default. The name is trimmed and in lower case.
pub fn setting(overrides: &Vec<(String, String)>, name: &str) -> (r: Option<String>)
    ensures
        opt_text(r) == setting_of(overrides@, crate::text::lower(trimmed(name@))),
{
    let bare = trim_text(name);
    let low = crate::text::lower_text(bare.as_str());
    let mut i: usize = 0;
    assert(overrides@.skip(0) =~= overrides@);
    while i < overrides.len()
        invariant
            i <= overrides@.len(),
            low@ == crate::text::lower(trimmed(name@)),
            setting_of(overrides@, low@) == setting_of(overrides@.skip(i as int), low@),
        decreases overrides@.len() - i,
    {
        assert(overrides@.skip(i as int).skip(1) =~= overrides@.skip(i + 1));
        if same_text(overrides[i].0.as_str(), low.as_str()) {
            return Some(overrides[i].1.clone());
        }
        i = i + 1;
    }
    match default_session_var(low.as_str()) {
        Some(v) => Some(v.to_owned()),
        None => None,
    }
}

/// Quoting a bare value and normalizing it gives the value back.
pub proof fn law_quoting_is_undone(v: Seq<char>, q: char)
    requires
        q == '\'' || q == '"',
    ensures
        bare_value(seq![q] + v + seq![q]) == v,
{
    let s = seq![q] + v + seq![q];
    assert(s[0] == q);
    assert(s.last() == q);
    assert(crate::text::trim_start(s) == s);
    assert(trimmed(s) == s);
    assert(s.subrange(1, s.len() - 1) =~= v);
}

} // verus!
