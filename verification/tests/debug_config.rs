use reflect_tui::config::{format_config_error, ConfigUpdate};
use reflect_tui::debug_config::{
    count_hook_handlers, format_managed_hooks_requirements, format_optional, join_or_empty, new_debug_config_output,
    non_file_layer_value_label, normalize_allowed_web_search_modes, render_agents_config_lines,
    render_debug_config_lines, session_all_proxy_url, AgentsView, ConfigLayerKind, ConfigLayerView,
    ManagedHooksView, NetworkConstraintsView, RequirementsView, SandboxModeRequirement, SessionNetworkProxyRuntime, TomlNode,
    WebSearchModeRequirement,
};
use reflect_tui::style::StyledLine;

const MDM_SOURCE: &str = "MDM managed_config.toml (legacy)";

fn render_to_text(lines: &[StyledLine]) -> String {
    lines
        .iter()
        .map(|line| line.spans.iter().map(|span| span.content.as_str()).collect::<String>())
        .collect::<Vec<_>>()
        .join("\n")
}

fn no_requirements() -> RequirementsView {
    RequirementsView {
        allowed_approval_policies: None,
        approval_policy_source: String::new(),
        allowed_approvals_reviewers: None,
        approvals_reviewer_source: String::new(),
        allowed_sandbox_modes: None,
        permission_profile_source: String::new(),
        allowed_web_search_modes: None,
        web_search_mode_source: String::new(),
        allow_managed_hooks_only: None,
        allow_managed_hooks_only_source: None,
        allow_appshots: None,
        allow_appshots_source: None,
        allow_remote_control: None,
        allow_remote_control_source: None,
        guardian_policy_configured: false,
        guardian_policy_config_source: String::new(),
        feature_requirements: None,
        hooks: None,
        managed_hooks_source: None,
        mcp_servers: None,
        rules_configured: false,
        enforce_residency: None,
        enforce_residency_source: String::new(),
        network: None,
        filesystem_deny_read: None,
    }
}

fn file_layer(kind: ConfigLayerKind, source: &str, disabled_reason: Option<&str>) -> ConfigLayerView {
    ConfigLayerView {
        kind,
        source: source.to_string(),
        disabled_reason: disabled_reason.map(|r| r.to_string()),
        raw_toml: None,
        config_text: String::new(),
        config: TomlNode::Table(Vec::new()),
    }
}

fn all_modes() -> Vec<SandboxModeRequirement> {
    vec![
        SandboxModeRequirement::ReadOnly,
        SandboxModeRequirement::WorkspaceWrite,
        SandboxModeRequirement::DangerFullAccess,
        SandboxModeRequirement::ExternalSandbox,
    ]
}

#[test]
fn debug_config_output_lists_all_layers_including_disabled() {
    let layers = vec![
        file_layer(ConfigLayerKind::System, "system (/etc/reflect/config.toml)", None),
        file_layer(ConfigLayerKind::Project, "project (/repo/.reflect/config.toml)", Some("project is untrusted")),
    ];
    let rendered = render_to_text(&render_debug_config_lines(&layers, &no_requirements(), &all_modes()));
    assert!(rendered.contains("(enabled)"));
    assert!(rendered.contains("(disabled)"));
    assert!(rendered.contains("reason: project is untrusted"));
    assert!(rendered.contains("Requirements:"));
    assert!(rendered.contains("  <none>"));
}

#[test]
fn debug_config_output_lists_approvals_reviewer_as_requirement() {
    let mut requirements = no_requirements();
    requirements.allowed_approvals_reviewers = Some(vec!["auto_review".to_string()]);
    requirements.approvals_reviewer_source = MDM_SOURCE.to_string();
    let rendered = render_to_text(&render_debug_config_lines(&Vec::new(), &requirements, &all_modes()));
    assert!(rendered.contains("allowed_approvals_reviewers: auto_review (source: MDM managed_config.toml (legacy))"));
    assert!(!rendered.contains("Requirements:\n  <none>"));
}

#[test]
fn debug_config_output_normalizes_empty_web_search_mode_list() {
    let mut requirements = no_requirements();
    requirements.allowed_web_search_modes = Some(Vec::new());
    requirements.web_search_mode_source = MDM_SOURCE.to_string();
    let rendered = render_to_text(&render_debug_config_lines(&Vec::new(), &requirements, &all_modes()));
    assert!(rendered.contains(&format!("allowed_web_search_modes: disabled (source: {MDM_SOURCE})")));
}

#[test]
fn debug_config_output_lists_managed_hooks_requirement() {
    let mut requirements = no_requirements();
    requirements.hooks = Some(ManagedHooksView {
        managed_dir: Some("/enterprise/hooks".to_string()),
        windows_managed_dir: Some(r"C:\enterprise\hooks".to_string()),
        handler_groups: vec![1],
    });
    requirements.managed_hooks_source = Some(MDM_SOURCE.to_string());
    let rendered = render_to_text(&render_debug_config_lines(&Vec::new(), &requirements, &all_modes()));
    assert!(rendered.contains("hooks:"));
    assert!(rendered.contains("handlers=1"));
    assert!(rendered.contains(&format!("(source: {MDM_SOURCE})")));
}

#[test]
fn session_all_proxy_url_uses_socks_when_enabled() {
    assert_eq!(session_all_proxy_url("127.0.0.1:3128", "127.0.0.1:8081", true), "socks5h://127.0.0.1:8081".to_string());
}

#[test]
fn session_all_proxy_url_uses_http_when_socks_disabled() {
    assert_eq!(session_all_proxy_url("127.0.0.1:3128", "127.0.0.1:8081", false), "http://127.0.0.1:3128".to_string());
}

#[test]
fn debug_config_output_starts_with_title_and_empty_stack() {
    let rendered = render_to_text(&render_debug_config_lines(&Vec::new(), &no_requirements(), &all_modes()));
    assert_eq!(
        rendered,
        "/debug-config\n\nConfig layer stack (lowest precedence first):\n  <none>\n\nRequirements:\n  <none>"
    );
}

#[test]
fn layers_are_numbered_from_one() {
    let layers = vec![
        file_layer(ConfigLayerKind::User, "user", None),
        file_layer(ConfigLayerKind::Project, "project", None),
    ];
    let rendered = render_to_text(&render_debug_config_lines(&layers, &no_requirements(), &all_modes()));
    assert!(rendered.contains("  1. user (enabled)"));
    assert!(rendered.contains("  2. project (enabled)"));
}

#[test]
fn session_flag_layer_lists_its_values() {
    let layer = ConfigLayerView {
        kind: ConfigLayerKind::SessionFlags,
        source: "session flags".to_string(),
        disabled_reason: None,
        raw_toml: None,
        config_text: "model = \"o3\"".to_string(),
        config: TomlNode::Table(vec![("model".to_string(), TomlNode::Leaf("\"o3\"".to_string()))]),
    };
    let rendered = render_to_text(&render_debug_config_lines(&vec![layer], &no_requirements(), &all_modes()));
    assert!(rendered.contains("model"));
    assert!(rendered.contains("\"o3\""));
}

#[test]
fn agents_and_proxy_rows_follow_the_report() {
    let agents = AgentsView {
        enabled: false,
        max_threads: Some("7".to_string()),
        max_depth: 2,
        default_subagent_model: None,
        default_subagent_reasoning_effort: Some("high".to_string()),
        interrupt_message_enabled: false,
    };
    let agent_text = render_to_text(&render_agents_config_lines(&agents));
    assert!(agent_text.contains("[agents]:"));
    assert!(agent_text.contains("  - enabled = false"));
    assert!(agent_text.contains("  - max_concurrent_threads_per_session = 7"));
    assert!(agent_text.contains("  - max_depth = 2 (V1 only; ignored by V2)"));
    assert!(agent_text.contains("  - default_subagent_model = <unset>"));
    assert!(agent_text.contains("  - default_subagent_reasoning_effort = high"));

    let proxy = SessionNetworkProxyRuntime { http_addr: "127.0.0.1:3128".to_string(), socks_addr: "127.0.0.1:8081".to_string() };
    let all = render_to_text(&new_debug_config_output(
        &Vec::new(),
        &no_requirements(),
        &all_modes(),
        &agents,
        Some(&proxy),
        true,
    ));
    assert!(all.ends_with("    - HTTP_PROXY  = http://127.0.0.1:3128\n    - ALL_PROXY   = socks5h://127.0.0.1:8081"));
}

#[test]
fn small_formatters() {
    assert_eq!(format_optional(Some("x")), "x");
    assert_eq!(format_optional(None), "<unset>");
    assert_eq!(join_or_empty(&Vec::new()), "<empty>");
    assert_eq!(join_or_empty(&vec!["a".to_string(), "b".to_string()]), "a, b");
    assert_eq!(non_file_layer_value_label(ConfigLayerKind::Mdm), "MDM value");
    assert_eq!(non_file_layer_value_label(ConfigLayerKind::EnterpriseManaged), "Enterprise-managed config value");
    assert_eq!(non_file_layer_value_label(ConfigLayerKind::User), "Layer value");
    let hooks = ManagedHooksView { managed_dir: None, windows_managed_dir: None, handler_groups: vec![2, 1] };
    assert_eq!(format_managed_hooks_requirements(&hooks), "handlers=3");
}

#[test]
fn empty_web_search_list_means_disabled() {
    let normalized = normalize_allowed_web_search_modes(&Vec::new());
    assert_eq!(normalized, vec![WebSearchModeRequirement::Disabled]);
}

#[test]
fn config_errors_show_a_fixed_message() {
    assert_eq!(format_config_error("anything"), "config error");
    assert_eq!(format_config_error(&42u8), "config error");
    let update = ConfigUpdate::default();
    let _copy = update;
}

#[test]
fn debug_config_output_formats_unix_socket_permissions() {
    let mut requirements = no_requirements();
    requirements.network = Some((
        NetworkConstraintsView {
            enabled: None,
            http_port: None,
            socks_port: None,
            allow_upstream_proxy: None,
            dangerously_allow_non_loopback_proxy: None,
            dangerously_allow_all_unix_sockets: None,
            managed_allowed_domains_only: None,
            allow_local_binding: None,
            domains_allow: None,
            domains_deny: None,
            unix_sockets_allow: Some(vec!["/tmp/reflect.sock".to_string()]),
            unix_sockets_deny: Some(vec!["/tmp/blocked.sock".to_string()]),
        },
        MDM_SOURCE.to_string(),
    ));
    let rendered = render_to_text(&render_debug_config_lines(&Vec::new(), &requirements, &all_modes()));
    assert!(rendered.contains(&format!(
        "experimental_network: unix_sockets={{/tmp/blocked.sock=deny, /tmp/reflect.sock=allow}} (source: {MDM_SOURCE})"
    )));
}

#[test]
fn hook_handlers_are_counted_over_matcher_groups() {
    assert_eq!(count_hook_handlers(&[]), 0);
    assert_eq!(count_hook_handlers(&[1, 0, 4]), 5);
    assert_eq!(count_hook_handlers(&[usize::MAX, 2]), usize::MAX);
}
