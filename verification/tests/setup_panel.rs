use discord_role_restore::guild_config::GuildConfig;
use discord_role_restore::panel::{
    admin_button_text, build_setup_panel, channel_menu_options, has_configurable_roles,
    log_channel_display, menu_max_values, mentions_text, panel_lists_channels, role_list_display,
    role_menu_options, ChannelEntry, PanelEvent, RoleEntry,
};

fn role(id: u64, name: &str, managed: bool, has_admin: bool) -> RoleEntry {
    RoleEntry { id, name: name.to_string(), managed, has_admin }
}

fn channel(id: u64, name: &str, is_text: bool, view: bool, send: bool) -> ChannelEntry {
    ChannelEntry { id, name: name.to_string(), is_text, bot_can_view: view, bot_can_send: send }
}

fn config() -> GuildConfig {
    GuildConfig {
        safe_roles: vec![2],
        avoid_roles: vec![3],
        log_channel_id: Some(50),
        reassign_admin_roles: false,
    }
}

fn roles() -> Vec<RoleEntry> {
    vec![
        role(1, "@everyone", false, false),
        role(2, "Member", false, false),
        role(3, "Admin", false, true),
        role(4, "Bot", true, false),
    ]
}

fn channels() -> Vec<ChannelEntry> {
    vec![
        channel(50, "logs", true, true, true),
        channel(51, "voice", false, true, true),
        channel(52, "hidden", true, false, true),
        channel(53, "readonly", true, true, false),
        channel(54, "general", true, true, true),
    ]
}

#[test]
fn mentions_are_joined() {
    assert_eq!(mentions_text(&[], ", "), "");
    assert_eq!(mentions_text(&[1], ", "), "<@&1>");
    assert_eq!(mentions_text(&[1, 22], ", "), "<@&1>, <@&22>");
    assert_eq!(role_list_display(&[]), "None configured");
    assert_eq!(role_list_display(&[5, 6]), "<@&5> <@&6>");
}

#[test]
fn log_channel_and_button_texts() {
    assert_eq!(log_channel_display(Some(99)), "<#99>");
    assert_eq!(log_channel_display(None), "Not configured");
    assert_eq!(admin_button_text(true), "Re-assign Admin Roles: ✅ Enabled");
    assert_eq!(admin_button_text(false), "Re-assign Admin Roles: ❌ Disabled");
}

#[test]
fn role_menu_lists_configurable_roles() {
    let options = role_menu_options(&roles(), None, true);
    let labels: Vec<&str> = options.iter().map(|o| o.label.as_str()).collect();
    assert_eq!(labels, vec!["Member", "Admin"]);
    assert_eq!(options[0].value, "2");
    assert!(!options[0].admin_warning);
    assert!(options[1].admin_warning);
    assert!(!options[0].preselected);
    let options = role_menu_options(&roles(), Some(&[3]), false);
    assert!(!options[0].preselected);
    assert!(options[1].preselected);
    assert!(!options[1].admin_warning);
    assert!(has_configurable_roles(&roles()));
    assert!(!has_configurable_roles(&[role(1, "@everyone", false, false), role(4, "Bot", true, false)]));
    assert!(!has_configurable_roles(&[]));
}

#[test]
fn channel_menu_lists_postable_text_channels() {
    let options = channel_menu_options(&channels(), Some(54));
    let values: Vec<&str> = options.iter().map(|o| o.value.as_str()).collect();
    assert_eq!(values, vec!["50", "54"]);
    assert!(!options[0].preselected);
    assert!(options[1].preselected);
}

#[test]
fn menu_limits() {
    assert_eq!(menu_max_values(0), 0);
    assert_eq!(menu_max_values(3), 3);
    assert_eq!(menu_max_values(25), 25);
    assert_eq!(menu_max_values(40), 25);
    assert_eq!(menu_max_values(256), 0);
    assert_eq!(menu_max_values(260), 4);
}

#[test]
fn opened_panel_shows_configuration() {
    let panel = build_setup_panel(PanelEvent::Opened, "42", &config(), &roles(), &channels());
    assert_eq!(panel.safe_field_title, "Safe Roles");
    assert_eq!(panel.avoid_field_title, "Avoid Roles");
    assert_eq!(panel.safe_roles_text, "<@&2>");
    assert_eq!(panel.avoid_roles_text, "<@&3>");
    assert_eq!(panel.log_channel_text, "<#50>");
    assert!(panel.show_security_rules);
    assert_eq!(panel.safe_options.len(), 2);
    assert!(panel.safe_options.iter().all(|o| !o.preselected));
    assert!(panel.safe_options[1].admin_warning);
    assert!(panel.channel_menu_is_list);
    assert_eq!(panel.channel_options.len(), 2);
    assert!(panel.channel_options[0].preselected);
    assert_eq!(panel.max_values, 2);
    assert_eq!(panel.safe_menu_id, "safe_roles_select_42");
    assert_eq!(panel.avoid_menu_id, "avoid_roles_select_42");
    assert_eq!(panel.log_menu_id, "log_channel_select_42");
    assert_eq!(panel.admin_button_id, "admin_filter_toggle_42");
    assert_eq!(panel.admin_button_label, "Re-assign Admin Roles: ❌ Disabled");
    assert!(!panel.admin_button_success);
}

#[test]
fn updated_panels_show_selection() {
    let panel = build_setup_panel(PanelEvent::SafeRolesChosen, "42", &config(), &roles(), &channels());
    assert!(panel.safe_options[0].preselected);
    assert!(!panel.safe_options[1].preselected);
    assert!(panel.avoid_options[1].preselected);
    assert!(!panel.safe_options[1].admin_warning);
    assert!(panel.channel_options.iter().all(|o| !o.preselected));
    let panel = build_setup_panel(PanelEvent::LogChannelChosen, "42", &config(), &roles(), &channels());
    assert!(panel.channel_options[0].preselected);
    let panel = build_setup_panel(PanelEvent::AvoidRolesChosen, "42", &config(), &roles(), &channels());
    assert_eq!(panel.safe_field_title, "Safe Roles (Will Restore)");
    assert_eq!(panel.avoid_field_title, "Avoid Roles (Won't Restore)");
    assert!(!panel.channel_menu_is_list);
    assert!(panel.channel_options.is_empty());
    assert!(!panel_lists_channels(PanelEvent::AvoidRolesChosen));
    assert!(panel_lists_channels(PanelEvent::AdminFilterToggled));
}

#[test]
fn enabled_admin_setting_hides_security_rules() {
    let mut c = config();
    c.reassign_admin_roles = true;
    c.safe_roles = vec![];
    c.log_channel_id = None;
    let panel = build_setup_panel(PanelEvent::AdminFilterToggled, "7", &c, &[], &[]);
    assert!(!panel.show_security_rules);
    assert!(panel.admin_button_success);
    assert_eq!(panel.admin_button_label, "Re-assign Admin Roles: ✅ Enabled");
    assert_eq!(panel.safe_roles_text, "None configured");
    assert_eq!(panel.log_channel_text, "Not configured");
    assert_eq!(panel.max_values, 0);
}
