use discord_role_restore::access::{
    check_component_access, control_custom_id, control_prefix_str, is_setup_command,
    may_open_setup, route_component, same_text, strip_prefix, ComponentAccess, PanelControl,
};
use discord_role_restore::selection::{chosen_log_channel, chosen_role_ids, SelectionValues};

#[test]
fn components_are_routed_by_prefix() {
    assert_eq!(route_component("safe_roles_select_12"), Some(PanelControl::SafeRoles));
    assert_eq!(route_component("avoid_roles_select_12"), Some(PanelControl::AvoidRoles));
    assert_eq!(route_component("log_channel_select_"), Some(PanelControl::LogChannel));
    assert_eq!(route_component("admin_filter_toggle_x"), Some(PanelControl::AdminFilter));
    assert_eq!(route_component("something_else"), None);
    assert_eq!(route_component("safe_roles"), None);
}

#[test]
fn control_ids_carry_the_owner() {
    assert_eq!(control_custom_id(PanelControl::SafeRoles, "42"), "safe_roles_select_42");
    assert_eq!(control_custom_id(PanelControl::AdminFilter, "7"), "admin_filter_toggle_7");
    assert_eq!(control_prefix_str(PanelControl::LogChannel), "log_channel_select_");
    for control in [PanelControl::SafeRoles, PanelControl::AvoidRoles, PanelControl::LogChannel, PanelControl::AdminFilter] {
        assert_eq!(route_component(&control_custom_id(control, "123")), Some(control));
    }
}

#[test]
fn only_the_panel_owner_is_answered() {
    match check_component_access(true, "safe_roles_select_42", PanelControl::SafeRoles, 42) {
        ComponentAccess::Granted(owner) => assert_eq!(owner, "42"),
        _ => panic!("owner refused"),
    }
    assert!(matches!(
        check_component_access(true, "safe_roles_select_42", PanelControl::SafeRoles, 43),
        ComponentAccess::NotPanelOwner
    ));
}

#[test]
fn owner_text_is_kept_as_written() {
    match check_component_access(true, "avoid_roles_select_+042", PanelControl::AvoidRoles, 42) {
        ComponentAccess::Granted(owner) => assert_eq!(owner, "+042"),
        _ => panic!("owner refused"),
    }
}

#[test]
fn odd_interactions_are_ignored_or_refused() {
    assert!(matches!(
        check_component_access(false, "safe_roles_select_42", PanelControl::SafeRoles, 42),
        ComponentAccess::OutsideServer
    ));
    assert!(matches!(
        check_component_access(true, "avoid_roles_select_42", PanelControl::SafeRoles, 42),
        ComponentAccess::Ignored
    ));
    assert!(matches!(
        check_component_access(true, "safe_roles_select_abc", PanelControl::SafeRoles, 42),
        ComponentAccess::Ignored
    ));
}

#[test]
fn setup_is_for_owners_and_admins() {
    assert!(may_open_setup(true, None));
    assert!(may_open_setup(false, Some(true)));
    assert!(!may_open_setup(false, Some(false)));
    assert!(!may_open_setup(false, None));
}

#[test]
fn setup_command_is_recognised() {
    assert!(is_setup_command("setup"));
    assert!(!is_setup_command("setupx"));
    assert!(!is_setup_command("set"));
    assert!(!is_setup_command(""));
}

#[test]
fn text_helpers() {
    assert!(same_text("abc", "abc"));
    assert!(!same_text("abc", "abd"));
    assert_eq!(strip_prefix("héllo", "hé"), Some("llo"));
    assert_eq!(strip_prefix("hello", "x"), None);
    assert_eq!(strip_prefix("he", "hello"), None);
}

#[test]
fn chosen_roles_are_the_ids_among_the_values() {
    let values = SelectionValues::Texts(vec!["1".to_string(), "x".to_string(), "3".to_string()]);
    assert_eq!(chosen_role_ids(&values), vec![1, 3]);
    assert_eq!(chosen_role_ids(&SelectionValues::Channels(vec![5])), Vec::<u64>::new());
    assert_eq!(chosen_role_ids(&SelectionValues::Other), Vec::<u64>::new());
}

#[test]
fn chosen_log_channel_is_the_first_value() {
    assert_eq!(chosen_log_channel(&SelectionValues::Channels(vec![5, 6])), Some(5));
    assert_eq!(chosen_log_channel(&SelectionValues::Channels(vec![])), None);
    assert_eq!(chosen_log_channel(&SelectionValues::Texts(vec!["8".to_string(), "9".to_string()])), Some(8));
    assert_eq!(chosen_log_channel(&SelectionValues::Texts(vec!["x".to_string(), "9".to_string()])), None);
    assert_eq!(chosen_log_channel(&SelectionValues::Texts(vec![])), None);
    assert_eq!(chosen_log_channel(&SelectionValues::Other), None);
}
