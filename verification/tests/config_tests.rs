use docker_executor::client::{get_socket_path, validate_path};
use docker_executor::container_configurator::{pick_network, ContainerConfigurator};
use docker_executor::container_starter::{
    container_name, first_non_bridge_ip, is_ready_line, readiness_step, resolve_address,
    service_port, ReadinessStep,
};
use docker_executor::docker_tool_executor::DockerExecutor;
use docker_executor::dockerfile_manager::DockerfileManager;
use docker_executor::errors::{
    ContainerStartError, ContextError, DockerExecutorError, DockerfileError, ImageBuildError,
    MangleError,
};
use docker_executor::image_builder::{
    compress_context, dockerfile_build_arg, image_name_with_tag, interpret_build_record,
    interpret_build_stream_failure, tag_from_run_id,
};
use docker_executor::loader::MyLoaderExecutor;
use docker_executor::text::{contains_ci, split_whitespace, trim};

#[test]
fn container_names_are_untagged_and_dash_safe() {
    assert_eq!(container_name("repo/image:tag", "uuid-1"), "repo-image-uuid-1");
    assert_eq!(container_name("plain", "id"), "plain-id");
}

#[test]
fn readiness_marker_is_the_listening_line() {
    assert!(is_ready_line("grpc server listening on 0.0.0.0:50051"));
    assert!(!is_ready_line("starting up"));
    assert!(matches!(readiness_step(101, Some(&"x".to_string())), ReadinessStep::GiveUp));
    assert!(matches!(
        readiness_step(3, Some(&"svc listening on :50051".to_string())),
        ReadinessStep::Ready
    ));
    assert!(matches!(readiness_step(3, Some(&"booting".to_string())), ReadinessStep::Wait));
    assert!(matches!(readiness_step(3, None), ReadinessStep::Wait));
}

#[test]
fn address_resolution_follows_the_fallback_chain() {
    match resolve_address(Some("10.0.0.7".to_string()), false, None, None) {
        Ok((ip, port)) => {
            assert_eq!(ip, "10.0.0.7");
            assert_eq!(port, "50051");
        }
        Err(_) => panic!("a container address must win"),
    }
    match resolve_address(None, true, Some("192.168.65.2".to_string()), None) {
        Ok((ip, port)) => {
            assert_eq!(ip, "192.168.65.2");
            assert_eq!(port, "50051");
        }
        Err(_) => panic!("the gateway must be used inside a container"),
    }
    match resolve_address(None, false, Some("192.168.65.2".to_string()), Some("40000".to_string()))
    {
        Ok((ip, port)) => {
            assert_eq!(ip, "127.0.0.1");
            assert_eq!(port, "40000");
        }
        Err(_) => panic!("the mapped port must be used on a bare host"),
    }
    assert!(matches!(
        resolve_address(None, false, None, None),
        Err(ContainerStartError::PortMapping(_))
    ));
    assert_eq!(service_port(), "50051");
}

#[test]
fn container_ip_comes_from_the_first_non_bridge_network() {
    let nets = vec![
        ("bridge".to_string(), Some("172.17.0.2".to_string())),
        ("shared".to_string(), Some("10.0.0.2".to_string())),
    ];
    assert_eq!(first_non_bridge_ip(&nets), Some("10.0.0.2".to_string()));
    let only_bridge = vec![("bridge".to_string(), Some("172.17.0.2".to_string()))];
    assert_eq!(first_non_bridge_ip(&only_bridge), None);
}

#[test]
fn network_pick_prefers_non_bridge_but_keeps_bridge_alone() {
    assert_eq!(
        pick_network(&vec!["bridge".to_string(), "mynet".to_string()]),
        Some("mynet".to_string())
    );
    assert_eq!(pick_network(&vec!["bridge".to_string()]), Some("bridge".to_string()));
    assert_eq!(pick_network(&Vec::new()), None);
}

#[test]
fn container_spec_carries_port_socket_and_network() {
    let configurator = ContainerConfigurator::new(Some("/var/run/docker.sock".to_string()));
    let user = "1000:1000".to_string();
    let spec = configurator.create_container_config("img:tag", Some(&user), Some("net".to_string()));
    assert_eq!(spec.image, "img:tag");
    assert_eq!(spec.cmd, vec!["swiftide-docker-service".to_string()]);
    assert!(spec.tty);
    assert!(spec.auto_remove);
    assert_eq!(spec.user.as_deref(), Some("1000:1000"));
    assert_eq!(spec.exposed_port, "50051/tcp");
    assert_eq!(spec.port_binding.host_ip, "0.0.0.0");
    assert_eq!(spec.port_binding.host_port, "");
    assert_eq!(
        spec.socket_bind.as_deref(),
        Some("/var/run/docker.sock:/var/run/docker.sock")
    );
    assert_eq!(spec.network_mode.as_deref(), Some("net"));

    let bare = ContainerConfigurator::new(None).create_container_config("img", None, None);
    assert!(bare.socket_bind.is_none());
    assert!(bare.user.is_none());
    assert!(bare.network_mode.is_none());
}

#[test]
fn tags_come_from_the_run_identifier() {
    assert_eq!(tag_from_run_id("abc-def-g"), "abc");
    assert_eq!(tag_from_run_id("nohyphen"), "latest");
    assert_eq!(image_name_with_tag("docker-executor", "abc"), "docker-executor:abc");
}

#[test]
fn compressed_context_is_gzip_framed() {
    let archive = vec![0u8; 2048];
    let compressed = compress_context(&archive).unwrap();
    assert!(compressed.len() >= 2);
    assert_eq!(compressed[0], 0x1f);
    assert_eq!(compressed[1], 0x8b);
    assert!(compressed.len() < archive.len());
    assert_ne!(compressed, archive);
}

#[test]
fn extension_filter_admits_listed_extensions_only() {
    let loader = MyLoaderExecutor;
    let rs = vec!["rs".to_string()];
    assert!(loader.matches_extension("src/tests.rs", &rs));
    assert!(loader.matches_extension("/abs/dir/lib.rs", &rs));
    assert!(!loader.matches_extension("src/notes.md", &rs));
    assert!(!loader.matches_extension("src/Makefile", &rs));
    assert!(!loader.matches_extension("src/.gitignore", &rs));
    assert!(!loader.matches_extension("dir/..", &rs));
    assert!(loader.matches_extension("archive.tar.gz", &vec!["gz".to_string()]));
    assert!(loader.matches_extension("anything.at.all", &Vec::new()));
    assert!(loader.matches_extension("no_extension", &Vec::new()));
}

#[test]
fn build_records_with_errors_are_fatal() {
    let err = interpret_build_record(Some(&"boom".to_string()), Some(&"detail".to_string()));
    match err {
        Some(ImageBuildError::BuildError(m)) => assert_eq!(m, "boom detail"),
        _ => panic!("an error record must be fatal"),
    }
    assert!(interpret_build_record(None, Some(&"noise".to_string())).is_none());

    match interpret_build_stream_failure("stream broke", true) {
        ImageBuildError::BuildFailed(m) => {
            assert_eq!(m, "error during build: stream broke")
        }
        _ => panic!("stream failures are build failures"),
    }
    match interpret_build_stream_failure("plain", false) {
        ImageBuildError::BuildFailed(m) => assert_eq!(m, "plain"),
        _ => panic!("transport failures are build failures"),
    }
}

#[test]
fn build_arg_is_relative_to_the_context_root() {
    assert_eq!(
        dockerfile_build_arg("/ctx", "/ctx/.tmpXYZ").unwrap(),
        ".tmpXYZ".to_string()
    );
    assert!(matches!(
        dockerfile_build_arg("/ctx", "/elsewhere/.tmpXYZ"),
        Err(ImageBuildError::InvalidImageName(_))
    ));
}

#[test]
fn dockerfile_paths_resolve_against_the_context() {
    let manager = DockerfileManager::new("/ctx");
    assert_eq!(manager.resolve_dockerfile_path("Dockerfile"), "/ctx/Dockerfile");
    assert_eq!(manager.resolve_dockerfile_path("/abs/Dockerfile"), "/abs/Dockerfile");
    assert_eq!(manager.context_path, "/ctx");
}

#[test]
fn builder_defaults_and_setters_compose() {
    let exec = DockerExecutor::default();
    assert_eq!(exec.context_path, ".");
    assert_eq!(exec.image_name, "docker-executor");
    assert_eq!(exec.dockerfile.as_deref(), Some("Dockerfile"));
    assert_eq!(exec.workdir, "/app");
    assert!(!exec.env_clear);
    assert!(!exec.retain_on_drop);
    assert!(exec.default_timeout_ms.is_none());
    assert!(!exec.container_uuid.is_empty());

    let exec = DockerExecutor::default()
        .with_context_path("tests".to_string())
        .with_image_name("test-img".to_string())
        .with_dockerfile("Dockerfile.custom".to_string())
        .with_container_uuid("run-1".to_string())
        .with_user("1000".to_string())
        .clear_env()
        .remove_env("HOSTNAME".to_string())
        .with_env("TEST_ENV".to_string(), "test_value".to_string())
        .with_default_timeout(1000)
        .retain_on_drop(true)
        .with_workdir("/work".to_string());
    assert_eq!(exec.context_path, "tests");
    assert_eq!(exec.image_name, "test-img");
    assert_eq!(exec.dockerfile.as_deref(), Some("Dockerfile.custom"));
    assert_eq!(exec.container_uuid, "run-1");
    assert_eq!(exec.user.as_deref(), Some("1000"));
    assert!(exec.env_clear);
    assert_eq!(exec.remove_env, vec!["HOSTNAME".to_string()]);
    assert_eq!(
        exec.env,
        vec![("TEST_ENV".to_string(), "test_value".to_string())]
    );
    assert_eq!(exec.default_timeout_ms, Some(1000));
    assert!(exec.retain_on_drop);
    assert_eq!(exec.workdir, "/work");

    let existing = DockerExecutor::default().with_existing_image("img:latest".to_string());
    assert_eq!(existing.image_name, "img:latest");
    assert!(existing.dockerfile.is_none());

    let cleared = DockerExecutor::default()
        .with_default_timeout(5)
        .clear_default_timeout();
    assert!(cleared.default_timeout_ms.is_none());
}

#[test]
fn socket_discovery_validates_paths() {
    let file = tempfile::NamedTempFile::new().unwrap();
    let existing = file.path().to_str().unwrap().to_string();
    assert_eq!(validate_path(existing.clone()), Some(existing));
    assert_eq!(validate_path("/definitely/not/there.sock".to_string()), None);

    let discovered = get_socket_path();
    assert!(!discovered.is_empty());
}

#[test]
fn error_wrapping_keeps_the_stage() {
    let top = DockerExecutorError::from(ContextError::Io("disk gone".to_string()));
    assert!(matches!(top, DockerExecutorError::Context(ContextError::Io(_))));

    let prep = DockerfileError::from(MangleError::InvalidDockerfile);
    assert!(matches!(prep, DockerfileError::MangleError(MangleError::InvalidDockerfile)));

    let start = DockerExecutorError::from(ContainerStartError::Start("refused".to_string()));
    assert!(matches!(
        start,
        DockerExecutorError::ContainerStart(ContainerStartError::Start(_))
    ));
}

#[test]
fn text_helpers_fold_ascii_case_and_split_words() {
    assert!(contains_ci("No Such FILE or Directory", "no such file"));
    assert!(!contains_ci("short", "longer than the haystack"));
    assert_eq!(trim("  a b \t"), "a b");
    assert_eq!(split_whitespace("  /usr/bin/env   python3 "), vec!["/usr/bin/env", "python3"]);
}
