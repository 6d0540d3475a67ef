//! The error taxonomy. Every fallible boundary of the library reports one of
//! these kinds, carrying the underlying cause's message as text.
use vstd::prelude::*;

verus! {

/// Failure while rewriting a build file.
#[derive(Debug)]
pub enum MangleError {
    /// The build file could not be read.
    DockerfileReadError(String),
    /// The build file holds no `FROM` line, so there is no final stage to
    /// inject the required copies after.
    InvalidDockerfile,
}

/// Failure while packaging a build context.
#[derive(Debug)]
pub enum ContextError {
    /// The combined ignore rule set could not be compiled.
    FailedIgnore(String),
    /// The walk over the context directory failed to start.
    Walk(String),
    /// An I/O failure reading the build file or the context.
    Io(String),
    /// A path could not be expressed relative to the context root.
    RelativePath(String),
    /// A named custom build file could not be used.
    CustomDockerfile(String),
}

/// Failure to establish the engine connection.
#[derive(Debug)]
pub enum ClientError {
    Init(String),
}

/// Failure while building an image from a context archive.
#[derive(Debug)]
pub enum ImageBuildError {
    /// Compressing the context archive failed.
    Compression(String),
    /// The build response stream itself failed.
    BuildFailed(String),
    /// A build response record carried an explicit error.
    BuildError(String),
    /// The image name or build-file path could not be resolved.
    InvalidImageName(String),
}

/// Failure while preparing the build file for an image build.
#[derive(Debug)]
pub enum DockerfileError {
    /// Wraps a mangle failure.
    MangleError(MangleError),
    /// Writing the temporary build file failed.
    TempFileError(String),
    /// The build-file path is unusable.
    InvalidPath(String),
}

/// Failure while creating or starting the container.
#[derive(Debug)]
pub enum ContainerStartError {
    /// The engine refused to create the container.
    Creation(String),
    /// The engine refused to start the container.
    Start(String),
    /// The container's port or network metadata could not be read.
    PortMapping(String),
    /// The container's log stream reported an error.
    Logs(String),
}

/// The top-level error type: identifies which stage of obtaining or driving
/// an executor failed, preserving the underlying message.
#[derive(Debug)]
pub enum DockerExecutorError {
    /// The engine API call itself failed.
    Docker(String),
    /// Packaging the build context failed.
    Context(ContextError),
    /// The engine reported a container without a state object.
    ContainerStateMissing(String),
    /// The engine connection could not be established.
    Init(ClientError),
    /// An I/O failure outside the other kinds.
    Io(String),
    /// Rewriting the build file failed.
    Transform(MangleError),
    /// Starting the container failed after it was created.
    Start(String),
    /// Building the image failed.
    ImageBuild(ImageBuildError),
    /// Preparing the build file failed.
    DockerfilePreparation(DockerfileError),
    /// Creating or starting the container failed.
    ContainerStart(ContainerStartError),
}

impl From<ContextError> for DockerExecutorError {
    fn from(e: ContextError) -> (r: DockerExecutorError) {
        DockerExecutorError::Context(e)
    }
}

impl vstd::std_specs::convert::FromSpecImpl<ContextError> for DockerExecutorError {
    open spec fn obeys_from_spec() -> bool {
        true
    }

    open spec fn from_spec(e: ContextError) -> DockerExecutorError {
        DockerExecutorError::Context(e)
    }
}

impl From<ClientError> for DockerExecutorError {
    fn from(e: ClientError) -> (r: DockerExecutorError) {
        DockerExecutorError::Init(e)
    }
}

impl vstd::std_specs::convert::FromSpecImpl<ClientError> for DockerExecutorError {
    open spec fn obeys_from_spec() -> bool {
        true
    }

    open spec fn from_spec(e: ClientError) -> DockerExecutorError {
        DockerExecutorError::Init(e)
    }
}

impl From<MangleError> for DockerExecutorError {
    fn from(e: MangleError) -> (r: DockerExecutorError) {
        DockerExecutorError::Transform(e)
    }
}

impl vstd::std_specs::convert::FromSpecImpl<MangleError> for DockerExecutorError {
    open spec fn obeys_from_spec() -> bool {
        true
    }

    open spec fn from_spec(e: MangleError) -> DockerExecutorError {
        DockerExecutorError::Transform(e)
    }
}

impl From<ImageBuildError> for DockerExecutorError {
    fn from(e: ImageBuildError) -> (r: DockerExecutorError) {
        DockerExecutorError::ImageBuild(e)
    }
}

impl vstd::std_specs::convert::FromSpecImpl<ImageBuildError> for DockerExecutorError {
    open spec fn obeys_from_spec() -> bool {
        true
    }

    open spec fn from_spec(e: ImageBuildError) -> DockerExecutorError {
        DockerExecutorError::ImageBuild(e)
    }
}

impl From<DockerfileError> for DockerExecutorError {
    fn from(e: DockerfileError) -> (r: DockerExecutorError) {
        DockerExecutorError::DockerfilePreparation(e)
    }
}

impl vstd::std_specs::convert::FromSpecImpl<DockerfileError> for DockerExecutorError {
    open spec fn obeys_from_spec() -> bool {
        true
    }

    open spec fn from_spec(e: DockerfileError) -> DockerExecutorError {
        DockerExecutorError::DockerfilePreparation(e)
    }
}

impl From<ContainerStartError> for DockerExecutorError {
    fn from(e: ContainerStartError) -> (r: DockerExecutorError) {
        DockerExecutorError::ContainerStart(e)
    }
}

impl vstd::std_specs::convert::FromSpecImpl<ContainerStartError> for DockerExecutorError {
    open spec fn obeys_from_spec() -> bool {
        true
    }

    open spec fn from_spec(e: ContainerStartError) -> DockerExecutorError {
        DockerExecutorError::ContainerStart(e)
    }
}

impl From<MangleError> for DockerfileError {
    fn from(e: MangleError) -> (r: DockerfileError) {
        DockerfileError::MangleError(e)
    }
}

impl vstd::std_specs::convert::FromSpecImpl<MangleError> for DockerfileError {
    open spec fn obeys_from_spec() -> bool {
        true
    }

    open spec fn from_spec(e: MangleError) -> DockerfileError {
        DockerfileError::MangleError(e)
    }
}

} // verus!
