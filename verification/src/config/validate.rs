//! Validation helpers shared by the policy normalizers.
use vstd::prelude::*;
use vstd::string::StringSliceAdditionalSpecFns;

use crate::text::{
    chars_of, eq_str, first_index, index_of_char, last_index, last_index_of_char, lower_chars,
    lower_seq, parse_u16, parse_u16_exec, slice, string_of, trim, trim_bounds, trimmed,
};

verus! {

/// Why a configuration cannot be turned into runtime policies.
#[derive(Debug, Clone, PartialEq, Eq)]
pub enum RuntimeConfigError {
    ConfigInvalid(String),
    UnsupportedPolicyCombination(String),
}

/// A configuration error by kind and message.
pub enum ConfigErrorView {
    Invalid(Seq<char>),
    Unsupported(Seq<char>),
}

impl View for RuntimeConfigError {
    type V = ConfigErrorView;

    open spec fn view(&self) -> ConfigErrorView {
        match self {
            RuntimeConfigError::ConfigInvalid(m) => ConfigErrorView::Invalid(m@),
            RuntimeConfigError::UnsupportedPolicyCombination(m) => ConfigErrorView::Unsupported(m@),
        }
    }
}

impl RuntimeConfigError {
    /// The machine-readable category of the error.
    pub fn category(&self) -> (c: &'static str)
        ensures
            c@ == match self@ {
                ConfigErrorView::Invalid(_) => "config_invalid"@,
                ConfigErrorView::Unsupported(_) => "unsupported_policy_combination"@,
            },
    {
        match self {
            RuntimeConfigError::ConfigInvalid(_) => "config_invalid",
            RuntimeConfigError::UnsupportedPolicyCombination(_) => "unsupported_policy_combination",
        }
    }

    /// The message that explains the error.
    pub fn message(&self) -> (m: &str)
        ensures
            m@ == match self@ {
                ConfigErrorView::Invalid(s) => s,
                ConfigErrorView::Unsupported(s) => s,
            },
    {
        match self {
            RuntimeConfigError::ConfigInvalid(m) => m.as_str(),
            RuntimeConfigError::UnsupportedPolicyCombination(m) => m.as_str(),
        }
    }
}

/// The error of a result, by kind and message, if it failed.
pub open spec fn err_of<T>(r: Result<T, RuntimeConfigError>) -> Option<ConfigErrorView> {
    match r {
        Ok(_) => None,
        Err(e) => Some(e@),
    }
}

/// The first of two checks that fails.
pub open spec fn or_else(a: Option<ConfigErrorView>, b: Option<ConfigErrorView>) -> Option<ConfigErrorView> {
    if a is Some {
        a
    } else {
        b
    }
}

pub open spec fn invalid_if(cond: bool, message: Seq<char>) -> Option<ConfigErrorView> {
    if cond {
        Some(ConfigErrorView::Invalid(message))
    } else {
        None
    }
}

/// `name must be greater than 0` when `value` is zero.
pub open spec fn nonzero_check(name: Seq<char>, value: int) -> Option<ConfigErrorView> {
    invalid_if(value == 0, name + " must be greater than 0"@)
}

pub fn config_invalid(message: String) -> (e: RuntimeConfigError)
    ensures
        e@ == ConfigErrorView::Invalid(message@),
{
    RuntimeConfigError::ConfigInvalid(message)
}

pub fn unsupported_policy(message: String) -> (e: RuntimeConfigError)
    ensures
        e@ == ConfigErrorView::Unsupported(message@),
{
    RuntimeConfigError::UnsupportedPolicyCombination(message)
}

/// An invalid-configuration error with a literal message.
pub fn invalid_str(message: &str) -> (e: RuntimeConfigError)
    ensures
        e@ == ConfigErrorView::Invalid(message@),
{
    config_invalid(message.to_owned())
}

fn nonzero_error(name: &str) -> (e: RuntimeConfigError)
    ensures
        e@ == ConfigErrorView::Invalid(name@ + " must be greater than 0"@),
{
    let mut m = name.to_owned();
    m.append(" must be greater than 0");
    config_invalid(m)
}

pub fn require_nonzero_u64(name: &str, value: u64) -> (r: Result<(), RuntimeConfigError>)
    ensures
        err_of(r) == nonzero_check(name@, value as int),
{
    if value == 0 {
        return Err(nonzero_error(name));
    }
    Ok(())
}

pub fn require_nonzero_usize(name: &str, value: usize) -> (r: Result<(), RuntimeConfigError>)
    ensures
        err_of(r) == nonzero_check(name@, value as int),
{
    if value == 0 {
        return Err(nonzero_error(name));
    }
    Ok(())
}

pub fn require_nonzero_u32(name: &str, value: u32) -> (r: Result<(), RuntimeConfigError>)
    ensures
        err_of(r) == nonzero_check(name@, value as int),
{
    if value == 0 {
        return Err(nonzero_error(name));
    }
    Ok(())
}

/// A trimmed optional value, absent when it trims to nothing.
pub open spec fn spec_normalize_optional(value: Option<Seq<char>>) -> Option<Seq<char>> {
    match value {
        Some(v) => if trim(v).len() > 0 {
            Some(trim(v))
        } else {
            None
        },
        None => None,
    }
}

pub open spec fn opt_str_view(value: Option<&str>) -> Option<Seq<char>> {
    match value {
        Some(v) => Some(v@),
        None => None,
    }
}

pub open spec fn opt_string_view(value: Option<String>) -> Option<Seq<char>> {
    match value {
        Some(v) => Some(v@),
        None => None,
    }
}

pub fn normalize_optional_string(value: Option<&str>) -> (r: Option<String>)
    ensures
        opt_string_view(r) == spec_normalize_optional(opt_str_view(value)),
{
    match value {
        Some(v) => {
            let c = chars_of(v);
            let t = trimmed(c.as_slice());
            if t.len() > 0 {
                Some(string_of(t.as_slice()))
            } else {
                None
            }
        },
        None => None,
    }
}

/// Characters of each string.
pub open spec fn strings_view(v: Seq<String>) -> Seq<Seq<char>> {
    v.map_values(|s: String| s@)
}

/// The trimmed values, in order, without those that trim to nothing.
pub open spec fn spec_normalize_strings(values: Seq<Seq<char>>) -> Seq<Seq<char>>
    decreases values.len(),
{
    if values.len() == 0 {
        Seq::empty()
    } else {
        let prev = spec_normalize_strings(values.drop_last());
        let t = trim(values.last());
        if t.len() > 0 {
            prev.push(t)
        } else {
            prev
        }
    }
}

pub fn normalize_string_vec(values: &[String]) -> (r: Vec<String>)
    ensures
        strings_view(r@) == spec_normalize_strings(strings_view(values@)),
{
    let mut r: Vec<String> = Vec::new();
    let mut i: usize = 0;
    while i < values.len()
        invariant
            0 <= i <= values.len(),
            strings_view(r@) == spec_normalize_strings(strings_view(values@.take(i as int))),
        decreases values.len() - i,
    {
        let c = chars_of(values[i].as_str());
        let t = trimmed(c.as_slice());
        proof {
            assert(strings_view(values@.take(i + 1)).drop_last() =~= strings_view(
                values@.take(i as int),
            ));
            assert(strings_view(values@.take(i + 1)).last() == values@[i as int]@);
        }
        if t.len() > 0 {
            let s = string_of(t.as_slice());
            let ghost before = r@;
            r.push(s);
            proof {
                assert(strings_view(r@) =~= strings_view(before).push(s@));
            }
        }
        i += 1;
    }
    proof {
        assert(values@.take(values.len() as int) =~= values@);
    }
    r
}

/// An HTTP token character (RFC 9110 `tchar`).
pub open spec fn is_tchar(b: u8) -> bool {
    ||| b == 0x21
    ||| (0x23 <= b <= 0x27)
    ||| b == 0x2a
    ||| b == 0x2b
    ||| b == 0x2d
    ||| b == 0x2e
    ||| (0x30 <= b <= 0x39)
    ||| (0x41 <= b <= 0x5a)
    ||| (0x5e <= b <= 0x7a)
    ||| b == 0x7c
    ||| b == 0x7e
}

/// A non-empty string of token characters.
pub open spec fn spec_is_valid_http_token(bytes: Seq<u8>) -> bool {
    bytes.len() > 0 && forall|i: int| 0 <= i < bytes.len() ==> #[trigger] is_tchar(bytes[i])
}

pub fn is_valid_http_token(value: &str) -> (b: bool)
    ensures
        b == spec_is_valid_http_token(value.spec_bytes()),
{
    let bytes = value.as_bytes();
    if bytes.len() == 0 {
        return false;
    }
    let mut i: usize = 0;
    while i < bytes.len()
        invariant
            0 <= i <= bytes.len(),
            bytes@ == value.spec_bytes(),
            forall|j: int| 0 <= j < i ==> #[trigger] is_tchar(bytes@[j]),
        decreases bytes.len() - i,
    {
        let c = bytes[i];
        let ok = c == 0x21 || (0x23 <= c && c <= 0x27) || c == 0x2a || c == 0x2b || c == 0x2d || c
            == 0x2e || (0x30 <= c && c <= 0x39) || (0x41 <= c && c <= 0x5a) || (0x5e <= c && c
            <= 0x7a) || c == 0x7c || c == 0x7e;
        if !ok {
            assert(!is_tchar(bytes@[i as int]));
            return false;
        }
        i += 1;
    }
    true
}

/// `host:port` where the host (before the last `:`) is not blank and the
/// port is a number from 1 to 65535.
pub open spec fn spec_is_valid_connect_authority(a: Seq<char>) -> bool {
    match last_index(a, ':') {
        None => false,
        Some(k) => trim(a.take(k)).len() > 0 && match parse_u16(a.skip(k + 1)) {
            Some(p) => p > 0,
            None => false,
        },
    }
}

pub fn is_valid_connect_authority(authority: &str) -> (b: bool)
    ensures
        b == spec_is_valid_connect_authority(authority@),
{
    let a = chars_of(authority);
    let k = match last_index_of_char(a.as_slice(), ':') {
        Some(k) => k,
        None => {
            return false;
        },
    };
    let host = slice(a.as_slice(), 0, k);
    let port = slice(a.as_slice(), k + 1, a.len());
    proof {
        assert(host@ =~= a@.take(k as int));
        assert(port@ =~= a@.skip(k + 1));
    }
    let (hs, he) = trim_bounds(host.as_slice());
    if he - hs == 0 {
        return false;
    }
    match parse_u16_exec(port.as_slice()) {
        Some(p) => p > 0,
        None => false,
    }
}

/// The request key specs that load balancing and rate limiting understand:
/// a named request attribute, or `header:`, `cookie:` or `query:` followed
/// by a non-blank name; compared after trimming and ASCII lowercasing.
pub open spec fn spec_is_valid_request_key_spec(raw: Seq<char>) -> bool {
    let k = lower_seq(trim(raw));
    ||| k == "path"@
    ||| k == "authority"@
    ||| k == "method"@
    ||| k == "cid"@
    ||| k == "sticky-cid"@
    ||| k == "peer_ip"@
    ||| k == "client_ip"@
    ||| k == "bearer_token"@
    ||| match first_index(k, ':') {
        None => false,
        Some(i) => {
            let source = trim(k.take(i));
            trim(k.skip(i + 1)).len() > 0 && (source == "header"@ || source == "cookie"@ || source
                == "query"@)
        },
    }
}

pub fn is_valid_request_key_spec(key_spec: &str) -> (b: bool)
    ensures
        b == spec_is_valid_request_key_spec(key_spec@),
{
    let raw = chars_of(key_spec);
    let t = trimmed(raw.as_slice());
    let k = lower_chars(t.as_slice());
    let ks = k.as_slice();
    if eq_str(ks, "path") || eq_str(ks, "authority") || eq_str(ks, "method") || eq_str(ks, "cid")
        || eq_str(ks, "sticky-cid") || eq_str(ks, "peer_ip") || eq_str(ks, "client_ip") || eq_str(
        ks,
        "bearer_token",
    ) {
        return true;
    }
    let i = match index_of_char(ks, ':') {
        Some(i) => i,
        None => {
            return false;
        },
    };
    let source_raw = slice(ks, 0, i);
    let name_raw = slice(ks, i + 1, k.len());
    proof {
        assert(source_raw@ =~= k@.take(i as int));
        assert(name_raw@ =~= k@.skip(i + 1));
    }
    let source = trimmed(source_raw.as_slice());
    let name = trimmed(name_raw.as_slice());
    name.len() > 0 && (eq_str(source.as_slice(), "header") || eq_str(source.as_slice(), "cookie")
        || eq_str(source.as_slice(), "query"))
}

} // verus!
