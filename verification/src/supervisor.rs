//! The process supervisor's decisions: where the backend executable is
//! looked for, which fixed flags launch it, and how long a graceful
//! shutdown waits. The spawning, stream plumbing and termination themselves
//! live in the embedding application; the decisions are verified here over
//! plain values.
use vstd::prelude::*;
use vstd::string::StringExecFns;
use crate::model::BackendError;

verus! {

/// How long teardown waits after the best-effort quit command before the
/// child is forcibly terminated, in milliseconds.
pub const QUIT_GRACE_MILLIS: u64 = 100;

/// The fixed launch flags: machine-readable protocol mode and reduced
/// power mode.
pub fn backend_launch_flags() -> (r: Vec<String>)
    ensures
        r@.len() == 2,
        r@[0]@ == "--json-api"@,
        r@[1]@ == "--low-power"@,
{
    let mut v: Vec<String> = Vec::new();
    v.push(String::from_str("--json-api"));
    v.push(String::from_str("--low-power"));
    v
}

/// The development-build location of the backend, relative to the working
/// directory.
pub fn dev_backend_path() -> (r: String)
    ensures
        r@ == "zig-out/bin/clipz"@,
{
    String::from_str("zig-out/bin/clipz")
}

/// The packaged-resource location of the backend, relative to the running
/// application's own location.
pub fn packaged_backend_path() -> (r: String)
    ensures
        r@ == "Resources/bin/clipz"@,
{
    String::from_str("Resources/bin/clipz")
}

/// The discovery decision: the development path wins when it exists, then
/// the packaged path; when neither exists startup fails with
/// `BackendNotFound` (non-fatal: the application keeps running with no
/// backend attached and an empty, immutable entry list).
pub fn choose_backend_path(
    dev_path: String,
    dev_exists: bool,
    packaged_path: Option<String>,
    packaged_exists: bool,
) -> (r: Result<String, BackendError>)
    ensures
        dev_exists ==> r == Ok::<String, BackendError>(dev_path),
        !dev_exists ==> match packaged_path {
            Some(p) => if packaged_exists {
                r == Ok::<String, BackendError>(p)
            } else {
                r == Err::<String, BackendError>(BackendError::BackendNotFound)
            },
            None => r == Err::<String, BackendError>(BackendError::BackendNotFound),
        },
{
    if dev_exists {
        return Ok(dev_path);
    }
    match packaged_path {
        Some(p) => if packaged_exists {
            Ok(p)
        } else {
            Err(BackendError::BackendNotFound)
        },
        None => Err(BackendError::BackendNotFound),
    }
}

} // verus!
