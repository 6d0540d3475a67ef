//! Engine-socket discovery: the ordered list of candidate socket paths and
//! the choice among those that exist on disk. Opening the engine connection
//! itself is performed by the unverified shell around this crate.
use vstd::prelude::*;

verus! {

/// The suffix of a socket path that is a run-flavor candidate.
pub open spec fn spec_run_socket_suffix() -> Seq<char> {
    "/.docker/run/docker.sock"@
}

/// The suffix of a socket path that is a desktop-flavor candidate.
pub open spec fn spec_desktop_socket_suffix() -> Seq<char> {
    "/.docker/desktop/docker.sock"@
}

/// Relies on `std::path::Path::exists`: whether the path names something on
/// disk at this moment. Nothing is promised of the result.
#[verifier::external_body]
fn path_exists(path: &String) -> bool {
    std::path::Path::new(path.as_str()).exists()
}

/// Relies on `dirs::runtime_dir`: the user's runtime directory, if the
/// platform defines one. Nothing is promised of the result.
#[verifier::external_body]
fn runtime_dir_path() -> (r: Option<String>) {
    dirs::runtime_dir().map(|p| p.display().to_string())
}

/// Relies on `dirs::home_dir`: the user's home directory, if the platform
/// reports one. Nothing is promised of the result.
#[verifier::external_body]
fn home_dir_path() -> (r: Option<String>) {
    dirs::home_dir().map(|p| p.display().to_string())
}

/// Returns the path unchanged when it exists on disk, else nothing.
pub fn validate_path(path: String) -> (r: Option<String>)
    ensures
        r matches Some(p) ==> p == path,
{
    if path_exists(&path) {
        Some(path)
    } else {
        None
    }
}

fn dir_socket_candidate(dir: &str, desktop: bool) -> (r: String)
    ensures
        !desktop ==> r@ == dir@ + spec_run_socket_suffix(),
        desktop ==> r@ == dir@ + spec_desktop_socket_suffix(),
{
    let mut r = dir.to_owned();
    if desktop {
        r.append("/.docker/desktop/docker.sock");
    } else {
        r.append("/.docker/run/docker.sock");
    }
    r
}

/// Discovers the engine's control-socket path, probing in order: the
/// conventional well-known path; a runtime-directory run-flavor path; a
/// home-directory run-flavor path; a home-directory desktop-flavor path;
/// falling back to the conventional path when none exists on disk. The
/// result is always the conventional path or one ending in one of the two
/// probed suffixes.
pub fn get_socket_path() -> (r: String)
    ensures
        r@ == "/var/run/docker.sock"@ || (exists|d: Seq<char>|
            r@ == d + spec_run_socket_suffix()) || (exists|d: Seq<char>|
            r@ == d + spec_desktop_socket_suffix()),
{
    if let Some(found) = validate_path("/var/run/docker.sock".to_owned()) {
        return found;
    }
    if let Some(dir) = runtime_dir_path() {
        let candidate = dir_socket_candidate(dir.as_str(), false);
        let ghost dv = dir@;
        if let Some(found) = validate_path(candidate) {
            proof {
                assert(found@ == dv + spec_run_socket_suffix());
            }
            return found;
        }
    }
    if let Some(dir) = home_dir_path() {
        let candidate = dir_socket_candidate(dir.as_str(), false);
        let ghost dv = dir@;
        if let Some(found) = validate_path(candidate) {
            proof {
                assert(found@ == dv + spec_run_socket_suffix());
            }
            return found;
        }
        let desktop = dir_socket_candidate(dir.as_str(), true);
        if let Some(found) = validate_path(desktop) {
            proof {
                assert(found@ == dv + spec_desktop_socket_suffix());
            }
            return found;
        }
    }
    "/var/run/docker.sock".to_owned()
}

} // verus!
