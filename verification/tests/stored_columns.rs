use discord_role_restore::guild_config::{
    column_to_id, id_to_column, log_channel_column, log_channel_of_column, reassign_admin_of_column,
    roles_of_column, saved_roles_of_column, toggled_admin_setting, GuildConfig,
};
use discord_role_restore::role_codec::{decode_role_list, encode_role_list, roles_or_empty};

#[test]
fn role_lists_are_stored_as_compact_json() {
    assert_eq!(encode_role_list(&[]), "[]");
    assert_eq!(encode_role_list(&[5]), "[5]");
    assert_eq!(encode_role_list(&[1, 22, 333]), "[1,22,333]");
    assert_eq!(encode_role_list(&[u64::MAX]), "[18446744073709551615]");
}

#[test]
fn stored_role_lists_read_back() {
    for ids in [vec![], vec![7], vec![1, 2, 3], vec![u64::MAX, 0, 1234567890123456789]] {
        assert_eq!(decode_role_list(&encode_role_list(&ids)), ids);
    }
}

#[test]
fn unreadable_role_lists_read_as_none() {
    assert_eq!(decode_role_list("not json"), Vec::<u64>::new());
    assert_eq!(decode_role_list("[1,-2]"), Vec::<u64>::new());
    assert_eq!(decode_role_list(" [ 1 , 2 ] "), vec![1, 2]);
    assert_eq!(roles_or_empty(serde_json::from_str::<Vec<u64>>("{")), Vec::<u64>::new());
    assert_eq!(roles_or_empty(Ok(vec![4])), vec![4]);
}

#[test]
fn missing_rows_read_as_defaults() {
    assert_eq!(roles_of_column(None), Vec::<u64>::new());
    assert_eq!(roles_of_column(Some("[3,4]".to_string())), vec![3, 4]);
    assert_eq!(saved_roles_of_column(None), None);
    assert_eq!(saved_roles_of_column(Some("[9]".to_string())), Some(vec![9]));
    assert_eq!(saved_roles_of_column(Some("oops".to_string())), Some(vec![]));
    assert_eq!(log_channel_of_column(None), None);
    assert_eq!(log_channel_of_column(Some(None)), None);
    assert_eq!(log_channel_of_column(Some(Some(77))), Some(77));
    assert!(reassign_admin_of_column(None));
    assert!(reassign_admin_of_column(Some(1)));
    assert!(reassign_admin_of_column(Some(5)));
    assert!(!reassign_admin_of_column(Some(0)));
}

#[test]
fn ids_survive_integer_columns() {
    for id in [0u64, 1, i64::MAX as u64, i64::MAX as u64 + 1, u64::MAX, 1234567890123456789] {
        assert_eq!(id_to_column(id), id as i64);
        assert_eq!(column_to_id(id_to_column(id)), id);
    }
    assert_eq!(id_to_column(u64::MAX), -1);
    assert_eq!(column_to_id(-1), u64::MAX);
    assert_eq!(log_channel_column(Some(u64::MAX)), Some(-1));
    assert_eq!(log_channel_column(None), None);
    assert_eq!(log_channel_of_column(Some(Some(-2))), Some(u64::MAX - 1));
}

#[test]
fn config_from_reads_uses_defaults_for_failed_reads() {
    let c = GuildConfig::from_reads(None, Some(vec![2]), None, None);
    assert_eq!(c.safe_roles, Vec::<u64>::new());
    assert_eq!(c.avoid_roles, vec![2]);
    assert_eq!(c.log_channel_id, None);
    assert!(c.reassign_admin_roles);
    let c = GuildConfig::from_reads(Some(vec![1]), None, Some(Some(5)), Some(false));
    assert_eq!(c.safe_roles, vec![1]);
    assert_eq!(c.log_channel_id, Some(5));
    assert!(!c.reassign_admin_roles);
}

#[test]
fn admin_toggle_flips_the_setting() {
    assert!(!toggled_admin_setting(Some(true)));
    assert!(toggled_admin_setting(Some(false)));
    assert!(!toggled_admin_setting(None));
    assert!(toggled_admin_setting(Some(toggled_admin_setting(Some(true)))));
}
