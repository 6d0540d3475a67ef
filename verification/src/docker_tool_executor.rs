//! The executor configuration: a plain builder describing how to build the
//! image and start the container, held by the caller before anything runs.
use vstd::prelude::*;

verus! {

/// Describes how to obtain a running executor: what to archive, what to
/// build, and how the started container behaves.
pub struct DockerExecutor {
    /// The directory to archive as build context.
    pub context_path: String,
    /// The name to build and tag the image under, or the existing image to
    /// start from.
    pub image_name: String,
    /// The build file to build from; `None` starts straight from
    /// `image_name` without building.
    pub dockerfile: Option<String>,
    /// The unique run identifier suffixed to container and image names.
    pub container_uuid: String,
    /// The user the container runs as; `None` leaves the engine default.
    pub user: Option<String>,
    /// Wipe the inherited environment before running commands.
    pub env_clear: bool,
    /// Environment variable names to unset, additive.
    pub remove_env: Vec<String>,
    /// Environment variables to set, additive.
    pub env: Vec<(String, String)>,
    /// Skip stop and remove when the executor is discarded.
    pub retain_on_drop: bool,
    /// Applied to commands that carry no time limit of their own, in
    /// milliseconds.
    pub default_timeout_ms: Option<u64>,
    /// The working directory commands resolve against.
    pub workdir: String,
}

/// Relies on `uuid::Uuid::new_v4` and its hyphenated rendering: a freshly
/// generated random run identifier. Nothing is promised of its value.
#[verifier::external_body]
fn new_run_id() -> (r: String) {
    uuid::Uuid::new_v4().to_string()
}

impl Default for DockerExecutor {
    /// The default configuration: archive the current directory, build
    /// `Dockerfile` under the default image name, fresh run identifier,
    /// engine-default user, untouched environment, teardown on discard, no
    /// default time limit, and the conventional working directory.
    fn default() -> (r: DockerExecutor)
        ensures
            r.context_path@ == "."@,
            r.image_name@ == "docker-executor"@,
            r.dockerfile matches Some(d) && d@ == "Dockerfile"@,
            r.user is None,
            r.env_clear == false,
            r.remove_env@.len() == 0,
            r.env@.len() == 0,
            r.retain_on_drop == false,
            r.default_timeout_ms is None,
            r.workdir@ == "/app"@,
    {
        DockerExecutor {
            context_path: ".".to_owned(),
            image_name: "docker-executor".to_owned(),
            dockerfile: Some("Dockerfile".to_owned()),
            container_uuid: new_run_id(),
            user: None,
            env_clear: false,
            remove_env: Vec::new(),
            env: Vec::new(),
            retain_on_drop: false,
            default_timeout_ms: None,
            workdir: "/app".to_owned(),
        }
    }
}

impl DockerExecutor {
    /// Sets the directory to build the context from.
    pub fn with_context_path(self, path: String) -> (r: DockerExecutor)
        ensures
            r == (DockerExecutor { context_path: path, ..self }),
    {
        DockerExecutor { context_path: path, ..self }
    }

    /// Retains the container for inspection instead of tearing it down on
    /// discard.
    pub fn retain_on_drop(self, retain: bool) -> (r: DockerExecutor)
        ensures
            r == (DockerExecutor { retain_on_drop: retain, ..self }),
    {
        DockerExecutor { retain_on_drop: retain, ..self }
    }

    /// Clears the inherited environment before running commands in the
    /// container.
    pub fn clear_env(self) -> (r: DockerExecutor)
        ensures
            r == (DockerExecutor { env_clear: true, ..self }),
    {
        DockerExecutor { env_clear: true, ..self }
    }

    /// Adds one environment variable name to unset in the container.
    pub fn remove_env(self, env: String) -> (r: DockerExecutor)
        ensures
            r.remove_env@ == self.remove_env@.push(env),
            r == (DockerExecutor { remove_env: r.remove_env, ..self }),
    {
        let mut names = self.remove_env;
        names.push(env);
        DockerExecutor { remove_env: names, ..self }
    }

    /// Adds one environment variable to set in the container; entries set
    /// later shadow earlier ones of the same name.
    pub fn with_env(self, key: String, value: String) -> (r: DockerExecutor)
        ensures
            r.env@ == self.env@.push((key, value)),
            r == (DockerExecutor { env: r.env, ..self }),
    {
        let mut env = self.env;
        env.push((key, value));
        DockerExecutor { env, ..self }
    }

    /// Adds several environment variables to set in the container.
    pub fn with_envs(self, envs: Vec<(String, String)>) -> (r: DockerExecutor)
        ensures
            r.env@ == self.env@ + envs@,
            r == (DockerExecutor { env: r.env, ..self }),
    {
        let mut env = self.env;
        let mut i: usize = 0;
        while i < envs.len()
            invariant
                0 <= i <= envs@.len(),
                env@ == self.env@ + envs@.take(i as int),
            decreases envs@.len() - i,
        {
            env.push((envs[i].0.clone(), envs[i].1.clone()));
            proof {
                assert(envs@[i as int] == (envs@[i as int].0, envs@[i as int].1));
                assert(env@ =~= self.env@ + envs@.take(i + 1));
            }
            i += 1;
        }
        proof {
            assert(self.env@ + envs@.take(envs@.len() as int) =~= self.env@ + envs@);
        }
        DockerExecutor { env, ..self }
    }

    /// Applies the given time limit, in milliseconds, to every command that
    /// carries none of its own.
    pub fn with_default_timeout(self, timeout_ms: u64) -> (r: DockerExecutor)
        ensures
            r == (DockerExecutor { default_timeout_ms: Some(timeout_ms), ..self }),
    {
        DockerExecutor { default_timeout_ms: Some(timeout_ms), ..self }
    }

    /// Removes any default time limit previously configured.
    pub fn clear_default_timeout(self) -> (r: DockerExecutor)
        ensures
            r == (DockerExecutor { default_timeout_ms: None, ..self }),
    {
        DockerExecutor { default_timeout_ms: None, ..self }
    }

    /// Sets the user the container runs as.
    pub fn with_user(self, user: String) -> (r: DockerExecutor)
        ensures
            r == (DockerExecutor { user: Some(user), ..self }),
    {
        DockerExecutor { user: Some(user), ..self }
    }

    /// Starts from an existing image instead of building one: the build
    /// file is cleared, so no image build happens.
    pub fn with_existing_image(self, image: String) -> (r: DockerExecutor)
        ensures
            r == (DockerExecutor { image_name: image, dockerfile: None, ..self }),
    {
        DockerExecutor { image_name: image, dockerfile: None, ..self }
    }

    /// Sets the name to build and tag the image under.
    pub fn with_image_name(self, name: String) -> (r: DockerExecutor)
        ensures
            r == (DockerExecutor { image_name: name, ..self }),
    {
        DockerExecutor { image_name: name, ..self }
    }

    /// Overwrites the run identifier suffixed to the container name.
    pub fn with_container_uuid(self, uuid: String) -> (r: DockerExecutor)
        ensures
            r == (DockerExecutor { container_uuid: uuid, ..self }),
    {
        DockerExecutor { container_uuid: uuid, ..self }
    }

    /// Overwrites the build file to build from.
    pub fn with_dockerfile(self, path: String) -> (r: DockerExecutor)
        ensures
            r == (DockerExecutor { dockerfile: Some(path), ..self }),
    {
        DockerExecutor { dockerfile: Some(path), ..self }
    }

    /// Overwrites the working directory commands resolve against.
    pub fn with_workdir(self, path: String) -> (r: DockerExecutor)
        ensures
            r == (DockerExecutor { workdir: path, ..self }),
    {
        DockerExecutor { workdir: path, ..self }
    }
}

} // verus!
