//! API keys of tenants: their text form and the checks on new keys.

use vstd::prelude::*;
use vstd::string::*;
use crate::error::AppError;
use crate::identity::{hyphenated, hyphenated_form, is_random_uuid, random_uuid, simple_form};
use crate::text::{trim_ws, trimmed};

verus! {

/// A request to create a named API key.
pub struct CreateKeyRequest {
    pub name: String,
}

/// An API key as the dashboard lists it.
pub struct ApiKeyResponse {
    pub id: u128,
    pub key: String,
    pub name: String,
    pub created_at: String,
}

/// The API key made from a UUID: `mdr_` followed by the UUID's 32 hex digits
/// (its hyphenated text with the hyphens removed).
pub fn api_key_for(u: u128) -> (r: String)
    ensures
        r@ == "mdr_"@ + simple_form(u),
{
    let s = hyphenated(u);
    let ghost h = simple_form(u);
    proof {
        let f = hyphenated_form(u);
        assert(f.subrange(0, 8) =~= h.subrange(0, 8));
        assert(f.subrange(9, 13) =~= h.subrange(8, 12));
        assert(f.subrange(14, 18) =~= h.subrange(12, 16));
        assert(f.subrange(19, 23) =~= h.subrange(16, 20));
        assert(f.subrange(24, 36) =~= h.subrange(20, 32));
    }
    let t = s.as_str();
    let mut key = String::from_str("mdr_");
    key.append(t.substring_char(0, 8));
    key.append(t.substring_char(9, 13));
    key.append(t.substring_char(14, 18));
    key.append(t.substring_char(19, 23));
    key.append(t.substring_char(24, 36));
    assert(key@ =~= "mdr_"@ + h);
    key
}

/// A fresh API key: `mdr_` and the hex digits of a new random UUID.
pub fn generate_key() -> (r: String)
    ensures
        exists|u: u128| is_random_uuid(u) && r@ == "mdr_"@ + simple_form(u),
{
    let u = random_uuid();
    api_key_for(u)
}

/// Checks the name of a new key: once trimmed it must not be empty.
/// Returns the trimmed name.
pub fn validate_key_name(name: &str) -> (r: Result<String, AppError>)
    ensures
        match r {
            Ok(n) => n@ == trimmed(name@) && trimmed(name@).len() > 0,
            Err(err) => trimmed(name@).len() == 0 && (err matches AppError::BadRequest(m) && m@
                == "name is required"@),
        },
{
    let t = trim_ws(name);
    if t.is_empty() {
        return Err(AppError::BadRequest(String::from_str("name is required")));
    }
    Ok(String::from_str(t))
}

} // verus!
