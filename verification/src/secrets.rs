//! Which keyring entries the frontend may touch through the generic secret commands.
//! Other entries under the app's service name are set directly by the code that owns
//! them and must not become readable or writable just because a caller knows the key.
use vstd::prelude::*;
use crate::detect::str_eq;
use crate::text::{push_str, string_from_chars};

verus! {

/// The keyring service name of the app's entries.
pub const SERVICE: &'static str = "com.slamanna.apogee";

/// The keys the frontend may use.
pub open spec fn allowed_frontend_keys() -> Seq<Seq<char>> {
    seq!["xtream_password"@]
}

/// Accepts an allowed key, and refuses any other with a message naming it.
pub fn check_allowed_key(key: &str) -> (r: Result<(), String>)
    ensures
        allowed_frontend_keys().contains(key@) ==> r is Ok,
        !allowed_frontend_keys().contains(key@) ==> (r matches Err(e) && e@ == "secrets: key \""@ + key@
            + "\" is not allowed"@),
{
    if str_eq(key, "xtream_password") {
        assert(allowed_frontend_keys()[0] == key@);
        return Ok(());
    }
    proof {
        if allowed_frontend_keys().contains(key@) {
            let i = choose|i: int| 0 <= i < allowed_frontend_keys().len() && allowed_frontend_keys()[i] == key@;
            assert(i == 0);
        }
    }
    let mut out: Vec<char> = Vec::new();
    push_str(&mut out, "secrets: key \"");
    push_str(&mut out, key);
    push_str(&mut out, "\" is not allowed");
    Err(string_from_chars(out.as_slice()))
}

} // verus!
