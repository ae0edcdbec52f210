use vstd::prelude::*;
use vstd::string::StringExecFns;

verus! {

/// How key material is written.
#[derive(Clone, Copy, Debug, PartialEq, Eq, Structural)]
pub enum KeyFormat {
    Pem,
}

/// Where records are kept.
#[derive(Debug)]
pub enum Database {
    Sqlite { path: String },
}

pub fn default_db() -> (r: Database)
    ensures
        r matches Database::Sqlite { path } && path@ == ":memory:"@,
{
    Database::Sqlite { path: String::from_str(":memory:") }
}

pub fn default_signaling_port() -> (r: u16)
    ensures
        r == 8787,
{
    8787
}

pub fn default_renewal_port() -> (r: u16)
    ensures
        r == 8788,
{
    8788
}

pub fn default_proxy_port() -> (r: u16)
    ensures
        r == 8789,
{
    8789
}

/// Lifetime of an access token, in seconds: ten minutes.
pub fn default_token_duration() -> (r: u64)
    ensures
        r == 600,
{
    60 * 10
}

/// Lifetime of a refresh token, in seconds: thirty days.
pub fn default_refresh_token_duration() -> (r: u64)
    ensures
        r == 2_592_000,
{
    60 * 60 * 24 * 30
}

/// Tolerated clock skew when checking expiry, in seconds.
pub fn default_token_leeway() -> (r: u64)
    ensures
        r == 60,
{
    60
}

} // verus!
