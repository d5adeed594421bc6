use bark::config::{flag_value, Config, FILTER_DEBOUNCE_MS};
use bark::discovery::{parse_docker_ps, parse_k8s_pods, DiscoveredSource, SourceType};
use bark::themes::{canonical_theme_name, next_theme_name};

#[test]
fn test_default_config_values() {
    let config = Config::default();
    assert_eq!(config.max_lines, 10_000);
    assert!(config.level_colors);
    assert!(!config.line_wrap);
    assert!(config.show_side_panel);
    assert_eq!(config.export_dir, "/tmp");
    assert_eq!(config.theme, "default");
    assert_eq!(config.filter_debounce_ms, FILTER_DEBOUNCE_MS);
}

#[test]
fn test_flag_value() {
    assert!(flag_value("1"));
    assert!(flag_value("true"));
    assert!(flag_value("TRUE"));
    assert!(!flag_value("0"));
    assert!(!flag_value("yes"));
}

#[test]
fn test_source_type_display() {
    assert_eq!(SourceType::Docker.to_string(), "Docker");
    assert_eq!(SourceType::K8s.to_string(), "K8s");
}

#[test]
fn test_discovered_source_clone() {
    let source = DiscoveredSource {
        name: "test".to_string(),
        source_type: SourceType::Docker,
        status: "running".to_string(),
        extra: Some("nginx:latest".to_string()),
        namespace: None,
    };
    let cloned = source.clone();
    assert_eq!(cloned.name, "test");
    assert_eq!(cloned.source_type, SourceType::Docker);
}

#[test]
fn test_discovered_source_with_namespace() {
    let source = DiscoveredSource {
        name: "my-pod".to_string(),
        source_type: SourceType::K8s,
        status: "Running".to_string(),
        extra: Some("nginx".to_string()),
        namespace: Some("production".to_string()),
    };
    assert_eq!(source.namespace, Some("production".to_string()));
}

#[test]
fn test_theme_names_and_aliases() {
    assert_eq!(canonical_theme_name("default"), "default");
    assert_eq!(canonical_theme_name("futuristic"), "cyber");
    assert_eq!(canonical_theme_name("mono"), "monochrome");
    assert_eq!(canonical_theme_name("hacker"), "matrix");
    assert_eq!(canonical_theme_name("mocha"), "catppuccin");
    assert_eq!(canonical_theme_name("tokyo"), "tokyo_night");
    assert_eq!(canonical_theme_name("tokyonight"), "tokyo_night");
    assert_eq!(canonical_theme_name("KaWaIi"), "kawaii");
    assert_eq!(canonical_theme_name("unknown_theme"), "default");
}

#[test]
fn test_theme_cycle() {
    assert_eq!(next_theme_name(&"default".to_string()), "kawaii");
    assert_eq!(next_theme_name(&"solarized".to_string()), "default");
    assert_eq!(next_theme_name(&"nonsense".to_string()), "kawaii");
}

#[test]
fn test_parse_docker_ps_output() {
    let out = "web\tUp 2 hours\tnginx:latest\r\n\nbad-row\ndb\tUp 1 hour\n";
    let found = parse_docker_ps(out);
    assert_eq!(found.len(), 2);
    assert_eq!(found[0].name, "web");
    assert_eq!(found[0].status, "Up 2 hours");
    assert_eq!(found[0].extra.as_deref(), Some("nginx:latest"));
    assert_eq!(found[1].name, "db");
    assert_eq!(found[1].extra, None);
    assert_eq!(found[1].source_type, SourceType::Docker);
}

#[test]
fn test_parse_k8s_pods_output() {
    let all = "NAMESPACE NAME STATUS CONTAINERS\nprod   api-1   Running   api,sidecar\nshort\n";
    let found = parse_k8s_pods(all, None);
    assert_eq!(found.len(), 1);
    assert_eq!(found[0].namespace.as_deref(), Some("prod"));
    assert_eq!(found[0].name, "api-1");
    assert_eq!(found[0].extra.as_deref(), Some("api,sidecar"));
    let one = "NAME STATUS CONTAINERS\nweb Pending\n";
    let found = parse_k8s_pods(one, Some("dev"));
    assert_eq!(found.len(), 1);
    assert_eq!(found[0].namespace.as_deref(), Some("dev"));
    assert_eq!(found[0].status, "Pending");
    assert_eq!(found[0].extra, None);
}
