use docker_executor::dockerfile_mangler::{mangle, service_version, MangledDockerfile};
use docker_executor::errors::MangleError;

#[test]
fn test_mangle() {
    let result = mangle("FROM alpine\n").unwrap();

    assert!(
        result
            .content
            .contains("COPY --from=bosunai/swiftide-docker-service:"),
        "action {}",
        result.content
    );
    assert!(result.content.contains("/usr/bin/swiftide-docker-service"));
    assert!(result.content.contains("/usr/bin/rg"));
    assert!(result.content.contains("/usr/bin/fd"));
}

#[test]
fn test_remove_cmd_entrypoint() {
    let result = mangle("FROM alpine\nCMD [\"echo\", \"Hello World\"]\nENTRYPOINT [\"/bin/sh\"]\n")
        .unwrap();

    assert!(
        !result.content.contains("CMD [\"echo\", \"Hello World\"]"),
        "actual {}",
        result.content
    );
    assert!(!result.content.contains("ENTRYPOINT [\"/bin/sh\"]"));
}

#[test]
fn test_remove_cmd_entrypoint_case_insensitive() {
    let result = mangle("from alpine\ncmd [\"echo\", \"Hello World\"]\neNtryPoint [\"/bin/sh\"]\n")
        .unwrap();

    assert!(!result.content.contains("CMD [\"echo\", \"Hello World\"]"));
    assert!(!result.content.contains("ENTRYPOINT [\"/bin/sh\"]"));
}

#[test]
fn test_mangle_with_multiple_forms_and_other_lines() {
    let result = mangle("FROM alpine\nFROM ubuntu\nRUN echo hello world\nCMD [\"true\"]\n")
        .unwrap();

    let version = service_version();
    let expected = format!(
        "FROM alpine\nFROM ubuntu\n\
         COPY --from=bosunai/swiftide-docker-service:{version} /usr/bin/swiftide-docker-service /usr/bin/swiftide-docker-service\n\
         COPY --from=bosunai/swiftide-docker-service:{version} /usr/bin/rg /usr/bin/rg\n\
         COPY --from=bosunai/swiftide-docker-service:{version} /usr/bin/fd /usr/bin/fd\n\
         RUN echo hello world"
    );
    assert_eq!(result.content, expected);
}

#[test]
fn mangle_alpine_final_stage_gets_packages() {
    let result = mangle("FROM alpine\n").unwrap();
    let version = service_version();
    let expected = format!(
        "FROM alpine\n\
         COPY --from=bosunai/swiftide-docker-service:{version} /usr/bin/swiftide-docker-service /usr/bin/swiftide-docker-service\n\
         COPY --from=bosunai/swiftide-docker-service:{version} /usr/bin/rg /usr/bin/rg\n\
         COPY --from=bosunai/swiftide-docker-service:{version} /usr/bin/fd /usr/bin/fd\n\
         RUN apk add --no-cache gcompat libgcc pcre2 ripgrep fd"
    );
    assert_eq!(result.content, expected);
}

#[test]
fn mangle_non_alpine_final_stage_gets_no_packages() {
    let result = mangle("FROM debian:bookworm\n").unwrap();
    assert!(!result.content.contains("apk add"));
}

#[test]
fn mangle_without_from_line_is_invalid() {
    let err = mangle("RUN echo hello\n").unwrap_err();
    assert!(matches!(err, MangleError::InvalidDockerfile));
}

#[test]
fn mangle_keeps_content_between_stages() {
    let MangledDockerfile { content } =
        mangle("FROM rust AS build\nRUN cargo build\nFROM debian\nCOPY app /app\n").unwrap();
    assert!(content.starts_with("FROM rust AS build\nRUN cargo build\nFROM debian\n"));
    assert!(content.ends_with("COPY app /app"));
}

#[test]
fn mangle_handles_crlf_line_endings() {
    let result = mangle("FROM alpine\r\nCMD [\"true\"]\r\n").unwrap();
    assert!(result.content.starts_with("FROM alpine\n"));
    assert!(!result.content.contains("CMD"));
    assert!(!result.content.contains('\r'));
}

#[test]
fn service_version_matches_injected_reference() {
    let version = service_version();
    let result = mangle("FROM alpine\n").unwrap();
    assert!(result
        .content
        .contains(&format!("COPY --from=bosunai/swiftide-docker-service:{version} ")));
}
