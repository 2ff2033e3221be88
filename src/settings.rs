use crate::strmap::StringMap;
use crate::DiscoveryError;
use vstd::prelude::*;

verus! {

/// Whether `e` is a configuration error with message `msg`.
pub open spec fn is_config_error(e: DiscoveryError, msg: Seq<char>) -> bool {
    e is ConfigError && e->ConfigError_0@ == msg
}

/// The values of three required keys, or the message naming the first that is
/// missing.
pub open spec fn required3(
    m: Map<Seq<char>, Seq<char>>,
    k1: Seq<char>,
    k2: Seq<char>,
    k3: Seq<char>,
) -> Result<(Seq<char>, Seq<char>, Seq<char>), Seq<char>> {
    if !m.contains_key(k1) {
        Err(k1 + " is required"@)
    } else if !m.contains_key(k2) {
        Err(k2 + " is required"@)
    } else if !m.contains_key(k3) {
        Err(k3 + " is required"@)
    } else {
        Ok((m[k1], m[k2], m[k3]))
    }
}

fn require(config: &StringMap, key: &str) -> (r: Result<String, DiscoveryError>)
    requires
        config.wf(),
    ensures
        config@.contains_key(key@) ==> r is Ok && r->Ok_0@ == config@[key@],
        !config@.contains_key(key@) ==> r is Err && is_config_error(
            r->Err_0,
            key@ + " is required"@,
        ),
{
    match config.get(key) {
        Some(v) => Ok(v.clone()),
        None => Err(DiscoveryError::ConfigError(String::from_str(key).concat(" is required"))),
    }
}

/// Reads three required keys of `config`, in order.
pub fn require3(config: &StringMap, k1: &str, k2: &str, k3: &str) -> (r: Result<
    (String, String, String),
    DiscoveryError,
>)
    requires
        config.wf(),
    ensures
        match required3(config@, k1@, k2@, k3@) {
            Ok(t) => r is Ok && r->Ok_0.0@ == t.0 && r->Ok_0.1@ == t.1 && r->Ok_0.2@ == t.2,
            Err(msg) => r is Err && is_config_error(r->Err_0, msg),
        },
{
    let a = match require(config, k1) {
        Ok(v) => v,
        Err(e) => return Err(e),
    };
    let b = match require(config, k2) {
        Ok(v) => v,
        Err(e) => return Err(e),
    };
    let c = match require(config, k3) {
        Ok(v) => v,
        Err(e) => return Err(e),
    };
    Ok((a, b, c))
}

} // verus!
