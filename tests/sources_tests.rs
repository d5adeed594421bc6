use bark::sources::{
    validate_container_name, validate_pod_name, validate_remote_path, validate_ssh_host, DockerSource,
    FileSource, K8sSource, LogSourceType, SshSource,
};

#[test]
fn test_validate_container_name_valid() {
    assert!(validate_container_name("nginx").is_ok());
    assert!(validate_container_name("my-container").is_ok());
    assert!(validate_container_name("my_container").is_ok());
    assert!(validate_container_name("container123").is_ok());
    assert!(validate_container_name("my-app-v1.2.3").is_ok());
}

#[test]
fn test_validate_container_name_rejects_dash_prefix() {
    assert!(validate_container_name("-f").is_err());
    assert!(validate_container_name("--help").is_err());
    assert!(validate_container_name("-v").is_err());
}

#[test]
fn test_validate_container_name_rejects_empty() {
    assert!(validate_container_name("").is_err());
}

#[test]
fn test_validate_pod_name_valid() {
    assert!(validate_pod_name("my-pod").is_ok());
    assert!(validate_pod_name("nginx").is_ok());
    assert!(validate_pod_name("app-deployment-abc123").is_ok());
    assert!(validate_pod_name("pod_name").is_ok());
}

#[test]
fn test_validate_pod_name_rejects_dash_prefix() {
    assert!(validate_pod_name("-f").is_err());
    assert!(validate_pod_name("--help").is_err());
    assert!(validate_pod_name("-n").is_err());
}

#[test]
fn test_validate_pod_name_rejects_empty() {
    assert!(validate_pod_name("").is_err());
}

#[test]
fn test_k8s_source_name_formatting() {
    let source = K8sSource::new("my-pod".to_string(), None, None);
    assert_eq!(source.name(), "k8s:my-pod");

    let source = K8sSource::new("my-pod".to_string(), Some("production".to_string()), None);
    assert_eq!(source.name(), "k8s:production/my-pod");

    let source = K8sSource::new(
        "my-pod".to_string(),
        Some("prod".to_string()),
        Some("nginx".to_string()),
    );
    assert_eq!(source.name(), "k8s:prod/my-pod/nginx");
}

#[test]
fn test_validate_ssh_host_valid() {
    assert!(validate_ssh_host("example.com").is_ok());
    assert!(validate_ssh_host("user@example.com").is_ok());
    assert!(validate_ssh_host("192.168.1.1").is_ok());
    assert!(validate_ssh_host("host:22").is_ok());
    assert!(validate_ssh_host("user@host.domain.com").is_ok());
    assert!(validate_ssh_host("my-server").is_ok());
    assert!(validate_ssh_host("my_server").is_ok());
}

#[test]
fn test_validate_ssh_host_rejects_dash_prefix() {
    assert!(validate_ssh_host("-oProxyCommand=evil").is_err());
    assert!(validate_ssh_host("--help").is_err());
    assert!(validate_ssh_host("-v").is_err());
}

#[test]
fn test_validate_ssh_host_rejects_empty() {
    assert!(validate_ssh_host("").is_err());
}

#[test]
fn test_validate_ssh_host_rejects_shell_metacharacters() {
    assert!(validate_ssh_host("host;rm -rf /").is_err());
    assert!(validate_ssh_host("host$(evil)").is_err());
    assert!(validate_ssh_host("host`evil`").is_err());
    assert!(validate_ssh_host("host|cat /etc/passwd").is_err());
    assert!(validate_ssh_host("host&background").is_err());
    assert!(validate_ssh_host("host>file").is_err());
    assert!(validate_ssh_host("host<file").is_err());
}

#[test]
fn test_validate_remote_path_valid() {
    assert!(validate_remote_path("/var/log/syslog").is_ok());
    assert!(validate_remote_path("/home/user/app.log").is_ok());
    assert!(validate_remote_path("relative/path.log").is_ok());
}

#[test]
fn test_validate_remote_path_rejects_dash_prefix() {
    assert!(validate_remote_path("-n100").is_err());
    assert!(validate_remote_path("--help").is_err());
}

#[test]
fn test_validate_remote_path_rejects_empty() {
    assert!(validate_remote_path("").is_err());
}

#[test]
fn test_source_type_names() {
    let f = LogSourceType::File { path: "/var/log/app.log".to_string() };
    assert_eq!(f.name(), "app.log");
    let d = LogSourceType::Docker { container: "web".to_string() };
    assert_eq!(d.name(), "docker:web");
    let k = LogSourceType::K8s { pod: "p".to_string(), namespace: None, container: Some("c".to_string()) };
    assert_eq!(k.name(), "k8s:p/c");
    let s = LogSourceType::Ssh { host: "h".to_string(), path: "/x".to_string() };
    assert_eq!(s.name(), "ssh:h:/x");
}

#[test]
fn test_source_struct_names() {
    assert_eq!(DockerSource::new("web".to_string()).name(), "web");
    assert_eq!(FileSource::new("/tmp/a.log".to_string()).name(), "/tmp/a.log");
    let ssh = SshSource::new("host".to_string(), "/var/log/x".to_string());
    assert_eq!(ssh.name(), "ssh:host:/var/log/x");
    assert_eq!(ssh.host_key_checking, "yes");
    let ssh2 = SshSource::with_host_key_checking("h".to_string(), "p".to_string(), "no".to_string());
    assert_eq!(ssh2.host_key_checking, "no");
}
