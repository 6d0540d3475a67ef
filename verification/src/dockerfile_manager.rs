//! Resolves the effective build-file path against the context directory.
//! Reading the build file and materializing the mangled content as a
//! temporary file inside the context are I/O performed by the unverified
//! shell around this crate, which feeds the content through
//! [`crate::dockerfile_mangler::mangle`].
use vstd::prelude::*;

use crate::running_docker_executor::{is_absolute, join_path, spec_is_absolute, spec_join_path};

verus! {

/// Prepares build files for one context directory.
pub struct DockerfileManager {
    pub context_path: String,
}

impl DockerfileManager {
    /// Remembers the context directory build-file paths resolve against.
    pub fn new(context_path: &str) -> (r: DockerfileManager)
        ensures
            r.context_path@ == context_path@,
    {
        DockerfileManager { context_path: context_path.to_owned() }
    }

    /// The effective build-file path: a relative path is resolved against
    /// the context directory, an absolute one is used as-is.
    pub fn resolve_dockerfile_path(&self, dockerfile: &str) -> (r: String)
        ensures
            spec_is_absolute(dockerfile@) ==> r@ == dockerfile@,
            !spec_is_absolute(dockerfile@) ==> r@ == spec_join_path(
                self.context_path@,
                dockerfile@,
            ),
    {
        if is_absolute(dockerfile) {
            dockerfile.to_owned()
        } else {
            join_path(self.context_path.as_str(), dockerfile)
        }
    }
}

} // verus!
