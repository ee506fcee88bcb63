use reflect_tui::plugin_list::{
    dedupe_plugin_entries, disambiguate_duplicate_tab_labels, marketplace_display_name, plugin_entries_for_marketplaces,
    plugin_entry_preferred, plugin_remote_section_error, plugins_popup_hint_line, preferred_local_plugin_sources,
    remote_section_error_item, remote_section_loading_item, sort_plugin_entries, PluginEntry,
    PluginRemoteSectionError,
};
use reflect_tui::plugins::{
    plugin_app_summary, plugin_auth_policy_summary, plugin_brief_description,
    plugin_brief_description_without_marketplace, plugin_detail_description, plugin_detail_location,
    plugin_detail_request_for_entry, plugin_detail_status_label, plugin_display_name, plugin_hook_summary,
    plugin_location_for_marketplace, plugin_mcp_summary, plugin_metadata_items, plugin_request_name,
    plugin_share_context_summary, plugin_share_principals_summary, plugin_skill_summary, plugin_source_summary,
    plugin_status_label, plugin_uninstall_id, plugin_version_summary, PluginAuthPolicy, PluginAvailability,
    PluginDetail, PluginInstallPolicy, PluginInterface, PluginLocation, PluginMarketplaceEntry,
    PluginShareContext, PluginShareDiscoverability, PluginSharePrincipal, PluginSource, PluginSummary,
};

fn plugin(id: &str, name: &str) -> PluginSummary {
    PluginSummary {
        id: id.to_string(),
        name: name.to_string(),
        source: PluginSource::Local,
        installed: false,
        enabled: false,
        availability: PluginAvailability::Available,
        install_policy: PluginInstallPolicy::Available,
        auth_policy: PluginAuthPolicy::OnUse,
        interface: None,
        local_version: None,
        share_context: None,
        remote_plugin_id: None,
    }
}

fn share(remote_id: &str) -> PluginShareContext {
    PluginShareContext {
        remote_plugin_id: remote_id.to_string(),
        remote_version: None,
        discoverability: None,
        creator_name: None,
        creator_account_user_id: None,
        share_principals: None,
        share_url: None,
    }
}

fn detail(summary: PluginSummary) -> PluginDetail {
    PluginDetail {
        summary,
        marketplace_name: "team".to_string(),
        marketplace_path: None,
        description: None,
        skills: Vec::new(),
        apps: Vec::new(),
        hooks: Vec::new(),
        mcp_servers: Vec::new(),
    }
}

fn market(name: &str, path: Option<&str>, plugins: Vec<PluginSummary>) -> PluginMarketplaceEntry {
    PluginMarketplaceEntry { name: name.to_string(), path: path.map(|p| p.to_string()), display_name: None, plugins }
}

#[test]
fn status_labels_follow_install_state() {
    let mut p = plugin("a", "A");
    assert_eq!(plugin_status_label(&p), "Available");
    assert_eq!(plugin_detail_status_label(&p), "Can be installed");
    p.installed = true;
    p.enabled = true;
    assert_eq!(plugin_status_label(&p), "Installed");
    p.enabled = false;
    assert_eq!(plugin_status_label(&p), "Disabled");
    p.install_policy = PluginInstallPolicy::InstalledByDefault;
    assert_eq!(plugin_detail_status_label(&p), "Installed by admin");
    p.installed = false;
    assert_eq!(plugin_status_label(&p), "Admin assigned");
    assert_eq!(plugin_detail_status_label(&p), "Enabled by Admin");
    p.availability = PluginAvailability::DisabledByAdmin;
    assert_eq!(plugin_status_label(&p), "Disabled");
    assert_eq!(plugin_detail_status_label(&p), "Disabled by admin");
}

#[test]
fn share_summaries_join_known_parts() {
    let mut c = share("remote-1");
    assert_eq!(plugin_share_context_summary(&c), "Remote ID remote-1");
    c.discoverability = Some(PluginShareDiscoverability::Unlisted);
    c.creator_name = Some("Ada".to_string());
    c.creator_account_user_id = Some("u1".to_string());
    c.share_principals = Some(vec![
        PluginSharePrincipal { name: "x".to_string() },
        PluginSharePrincipal { name: "y".to_string() },
    ]);
    c.share_url = Some("   ".to_string());
    assert_eq!(plugin_share_context_summary(&c), "Workspace link · creator Ada (u1) · 2 principals");
    c.share_url = Some("https://share".to_string());
    assert!(plugin_share_context_summary(&c).ends_with(" · https://share"));
    assert_eq!(plugin_share_principals_summary(&[]), "No explicit principals");
    assert_eq!(plugin_share_principals_summary(&[PluginSharePrincipal { name: "z".to_string() }]), "1 principal: z");
}

#[test]
fn versions_and_sources_are_summarized() {
    let mut p = plugin("a", "A");
    assert_eq!(plugin_version_summary(&p), None);
    p.local_version = Some("1.0".to_string());
    let mut c = share("r");
    c.remote_version = Some("2.0".to_string());
    p.share_context = Some(c);
    assert_eq!(plugin_version_summary(&p), Some("local 1.0 · remote 2.0".to_string()));
    p.source = PluginSource::Git { url: "https://g".to_string(), ref_name: Some("main".to_string()) };
    assert_eq!(plugin_source_summary(&p, "team", None), "Git · https://g@main");
    p.source = PluginSource::Npm { package: "pkg".to_string(), version: None };
    assert_eq!(plugin_source_summary(&p, "team", None), "npm · pkg");
    p.source = PluginSource::Remote;
    assert_eq!(plugin_source_summary(&p, "team", Some("Reflect")), "Remote · Reflect");
    assert_eq!(plugin_source_summary(&p, "team", None), "Remote · team");
    assert_eq!(plugin_auth_policy_summary(PluginAuthPolicy::OnInstall), "Auth on install");
}

#[test]
fn names_and_descriptions_prefer_the_interface() {
    let mut p = plugin("a", "raw-name");
    assert_eq!(plugin_display_name(&p), "raw-name");
    p.interface = Some(PluginInterface {
        display_name: Some("  Nice Name ".to_string()),
        short_description: None,
        long_description: Some("  Long text ".to_string()),
    });
    assert_eq!(plugin_display_name(&p), "Nice Name");
    assert_eq!(plugin_brief_description(&p, "team", 10), "Available  · team · Long text");
    assert_eq!(plugin_brief_description_without_marketplace(&p, 3), "Available · Long text");
    let mut d = detail(p);
    assert_eq!(plugin_detail_description(&d), Some("Long text".to_string()));
    d.description = Some("Own".to_string());
    assert_eq!(plugin_detail_description(&d), Some("Own".to_string()));
}

#[test]
fn remote_plugins_are_addressed_by_remote_id() {
    let mut p = plugin("local-id", "name");
    assert_eq!(plugin_request_name(&p), "name");
    assert_eq!(plugin_uninstall_id(&p), Some("local-id".to_string()));
    p.source = PluginSource::Remote;
    assert_eq!(plugin_uninstall_id(&p), None);
    p.remote_plugin_id = Some("rid".to_string());
    assert_eq!(plugin_request_name(&p), "rid");
    assert_eq!(plugin_uninstall_id(&p), Some("rid".to_string()));
}

#[test]
fn detail_summaries_list_parts() {
    let mut d = detail(plugin("a", "A"));
    assert_eq!(plugin_skill_summary(&d), "No plugin skills.");
    assert_eq!(plugin_app_summary(&d), "No plugin apps.");
    assert_eq!(plugin_mcp_summary(&d), "No plugin MCP servers.");
    assert_eq!(plugin_hook_summary(&d), "No plugin hooks.");
    d.skills = vec!["s1".to_string(), "s2".to_string()];
    d.mcp_servers = vec!["docs".to_string()];
    d.hooks = vec!["PreToolUse".to_string(), "Stop".to_string(), "PreToolUse".to_string()];
    assert_eq!(plugin_skill_summary(&d), "s1, s2");
    assert_eq!(plugin_mcp_summary(&d), "docs");
    assert_eq!(plugin_hook_summary(&d), "PreToolUse (2), Stop (1)");
    let items = plugin_metadata_items(&d, None);
    let names: Vec<&str> = items.iter().map(|i| i.name.as_str()).collect();
    assert_eq!(names, vec!["Source", "Auth"]);
    assert!(items.iter().all(|i| i.is_disabled));
}

#[test]
fn locations_and_requests() {
    let m = market("local", Some("/m"), Vec::new());
    let p = plugin("a", "A");
    assert!(matches!(plugin_location_for_marketplace(&m, &p), Some(PluginLocation::Local { marketplace_path }) if marketplace_path == "/m"));
    let remote_market = market("remote", None, Vec::new());
    assert!(plugin_location_for_marketplace(&remote_market, &p).is_none());
    let mut rp = plugin("b", "B");
    rp.source = PluginSource::Remote;
    rp.remote_plugin_id = Some("rid".to_string());
    assert!(matches!(plugin_location_for_marketplace(&remote_market, &rp), Some(PluginLocation::Remote { marketplace_name }) if marketplace_name == "remote"));
    let d = detail(plugin("c", "C"));
    assert!(plugin_detail_location(&d).is_none());

    let mut local_copy = plugin("copy", "copy-name");
    local_copy.share_context = Some(share("rid"));
    let markets = vec![market("local", Some("/m"), vec![local_copy])];
    let preferred = preferred_local_plugin_sources(&markets);
    assert_eq!(preferred.len(), 1);
    assert_eq!(preferred[0].0, "rid");
    let r = plugin_detail_request_for_entry(&remote_market, &rp, &preferred).unwrap();
    assert!(matches!(&r.0, PluginLocation::Local { marketplace_path } if marketplace_path == "/m"));
    assert_eq!(r.1, "copy-name");
}

#[test]
fn duplicate_remote_plugins_keep_the_preferred_entry() {
    let mut remote = plugin("r1", "shared");
    remote.source = PluginSource::Remote;
    remote.remote_plugin_id = Some("rid".to_string());
    let mut local = plugin("l1", "shared");
    local.installed = true;
    local.share_context = Some(share("rid"));
    let other = plugin("o1", "other");
    let markets = vec![market("remote", None, vec![remote]), market("local", Some("/m"), vec![local, other])];
    let entries = plugin_entries_for_marketplaces(&markets);
    assert_eq!(entries.len(), 2);
    assert_eq!((entries[0].marketplace, entries[0].plugin), (1, 0));
    assert_eq!((entries[1].marketplace, entries[1].plugin), (1, 1));
    assert!(plugin_entry_preferred(&markets[1].plugins[0], &markets[0].plugins[0]));
    let flat = vec![
        PluginEntry { marketplace: 0, plugin: 0, display_name: "shared".to_string() },
        PluginEntry { marketplace: 1, plugin: 1, display_name: "other".to_string() },
    ];
    assert_eq!(dedupe_plugin_entries(&markets, flat).len(), 2);
}

#[test]
fn plugin_list_puts_installed_first_then_names() {
    let mut b = plugin("b", "b");
    b.installed = true;
    let markets = vec![market("m", Some("/m"), vec![plugin("a", "a"), b, plugin("c", "C"), plugin("d", "B")])];
    let mut entries = vec![
        PluginEntry { marketplace: 0, plugin: 0, display_name: "a".to_string() },
        PluginEntry { marketplace: 0, plugin: 1, display_name: "b".to_string() },
        PluginEntry { marketplace: 0, plugin: 2, display_name: "C".to_string() },
        PluginEntry { marketplace: 0, plugin: 3, display_name: "B".to_string() },
    ];
    sort_plugin_entries(&markets, &mut entries);
    let names: Vec<&str> = entries.iter().map(|e| e.display_name.as_str()).collect();
    assert_eq!(names, vec!["b", "a", "B", "C"]);
}

#[test]
fn duplicate_tab_labels_are_numbered() {
    let labels = vec!["Team".to_string(), "Solo".to_string(), "Team".to_string()];
    assert_eq!(
        disambiguate_duplicate_tab_labels(labels),
        vec!["Team (1/2)".to_string(), "Solo".to_string(), "Team (2/2)".to_string()]
    );
}

#[test]
fn popup_hints_and_section_rows() {
    assert_eq!(
        plugins_popup_hint_line(false, false),
        "space enable/disable · ←/→ select marketplace · enter view details · esc close"
    );
    assert!(plugins_popup_hint_line(true, true).starts_with("ctrl + u upgrade · ctrl + r remove"));
    let loading = remote_section_loading_item("Team", "wait");
    assert_eq!(loading.name, "Loading Team plugins...");
    assert_eq!(loading.description.as_deref(), Some("wait"));
    let error = remote_section_error_item("Team", "boom");
    assert_eq!(error.name, "Team unavailable");
    let errors = vec![
        PluginRemoteSectionError { section_id: "a".to_string(), label: "A".to_string(), message: "x".to_string() },
        PluginRemoteSectionError { section_id: "b".to_string(), label: "B".to_string(), message: "y".to_string() },
    ];
    assert_eq!(plugin_remote_section_error(&errors, "b").map(|e| e.label.as_str()), Some("B"));
    assert!(plugin_remote_section_error(&errors, "c").is_none());
    let mut m = market("raw", None, Vec::new());
    assert_eq!(marketplace_display_name(&m, None), "raw");
    m.display_name = Some(" Pretty ".to_string());
    assert_eq!(marketplace_display_name(&m, None), "Pretty");
    assert_eq!(marketplace_display_name(&m, Some("Product")), "Product");
}

#[test]
fn plugin_list_keeps_input_order_among_equal_entries() {
    let markets = vec![
        market("first", Some("/a"), vec![plugin("same", "Same")]),
        market("second", Some("/b"), vec![plugin("same", "Same")]),
    ];
    let mut entries = vec![
        PluginEntry { marketplace: 1, plugin: 0, display_name: "Same".to_string() },
        PluginEntry { marketplace: 0, plugin: 0, display_name: "Same".to_string() },
        PluginEntry { marketplace: 1, plugin: 0, display_name: "Same".to_string() },
    ];
    sort_plugin_entries(&markets, &mut entries);
    let order: Vec<usize> = entries.iter().map(|e| e.marketplace).collect();
    assert_eq!(order, vec![1, 0, 1]);
}
