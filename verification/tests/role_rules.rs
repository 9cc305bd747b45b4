use discord_role_restore::role_filter::{
    assignable_roles, bot_highest_role_position, contains_id, restorable_roles, roles_to_save,
    without_roles, RoleInfo,
};
use std::collections::HashMap;

fn role(name: &str, position: i64, has_admin: bool) -> RoleInfo {
    RoleInfo { name: name.to_string(), position, has_admin }
}

#[test]
fn contains_id_finds_members_only() {
    assert!(contains_id(&[1, 2, 3], 2));
    assert!(!contains_id(&[1, 2, 3], 4));
    assert!(!contains_id(&[], 4));
}

#[test]
fn without_safe_roles_everything_not_avoided_is_restored() {
    assert_eq!(restorable_roles(&[1, 2, 3, 4], &[], &[2, 4]), vec![1, 3]);
}

#[test]
fn with_safe_roles_only_those_are_restored() {
    assert_eq!(restorable_roles(&[1, 2, 3, 4], &[3, 1, 9], &[]), vec![1, 3]);
}

#[test]
fn avoid_wins_over_safe() {
    assert_eq!(restorable_roles(&[1, 2, 3], &[1, 2, 3], &[2]), vec![1, 3]);
}

#[test]
fn restorable_keeps_order_and_duplicates() {
    assert_eq!(restorable_roles(&[5, 1, 5, 2], &[], &[2]), vec![5, 1, 5]);
    assert_eq!(restorable_roles(&[], &[1], &[2]), Vec::<u64>::new());
}

#[test]
fn roles_at_or_above_the_bot_are_not_assigned() {
    let mut roles = HashMap::new();
    roles.insert(1, role("low", 1, false));
    roles.insert(2, role("same", 5, false));
    roles.insert(3, role("high", 9, false));
    assert_eq!(assignable_roles(&[1, 2, 3, 4], &[], &[], 5, &roles, true), vec![1, 4]);
}

#[test]
fn admin_roles_are_assigned_only_when_enabled() {
    let mut roles = HashMap::new();
    roles.insert(1, role("admin", 1, true));
    roles.insert(2, role("member", 2, false));
    assert_eq!(assignable_roles(&[1, 2], &[], &[], 10, &roles, true), vec![1, 2]);
    assert_eq!(assignable_roles(&[1, 2], &[], &[], 10, &roles, false), vec![2]);
}

#[test]
fn assignable_also_applies_the_lists() {
    let roles = HashMap::new();
    assert_eq!(assignable_roles(&[1, 2, 3], &[1, 2], &[2], i64::MAX, &roles, false), vec![1]);
}

#[test]
fn without_roles_removes_the_chosen_ones() {
    assert_eq!(without_roles(&[1, 2, 3, 2], &[2]), vec![1, 3]);
    assert_eq!(without_roles(&[1, 2], &[]), vec![1, 2]);
}

#[test]
fn bot_position_is_its_highest_known_role() {
    let mut roles = HashMap::new();
    roles.insert(10, role("a", 3, false));
    roles.insert(11, role("b", 7, false));
    assert_eq!(bot_highest_role_position(Some(&[10, 11, 12]), &roles), 7);
    assert_eq!(bot_highest_role_position(Some(&[10]), &roles), 3);
}

#[test]
fn bot_position_is_unlimited_when_unknown() {
    let mut roles = HashMap::new();
    roles.insert(10, role("a", 3, false));
    assert_eq!(bot_highest_role_position(None, &roles), i64::MAX);
    assert_eq!(bot_highest_role_position(Some(&[]), &roles), i64::MAX);
    assert_eq!(bot_highest_role_position(Some(&[99]), &roles), i64::MAX);
}

#[test]
fn departure_prefers_event_roles_then_cache() {
    assert_eq!(roles_to_save(Some(vec![1, 2]), Some(vec![3])), Some(vec![1, 2]));
    assert_eq!(roles_to_save(None, Some(vec![3])), Some(vec![3]));
    assert_eq!(roles_to_save(None, None), None);
    assert_eq!(roles_to_save(Some(vec![]), Some(vec![3])), None);
}

#[test]
fn choosing_roles_in_one_list_takes_them_off_the_other() {
    let selected = vec![2, 3];
    let old_avoid = vec![1, 2, 3, 4, 2];
    let new_avoid = without_roles(&old_avoid, &selected);
    assert_eq!(new_avoid, vec![1, 4]);
    assert!(selected.iter().all(|r| !new_avoid.contains(r)));
}

#[test]
fn full_rules_never_give_more_than_the_lists() {
    let mut roles = HashMap::new();
    roles.insert(1, role("a", 1, true));
    roles.insert(2, role("b", 8, false));
    let saved = [1, 2, 3, 4];
    let (safe, avoid) = (vec![1, 2, 3], vec![3]);
    let lists_only = restorable_roles(&saved, &safe, &avoid);
    for reassign in [true, false] {
        let full = assignable_roles(&saved, &safe, &avoid, 5, &roles, reassign);
        assert!(full.iter().all(|r| lists_only.contains(r)));
    }
    assert_eq!(lists_only, vec![1, 2]);
    assert_eq!(assignable_roles(&saved, &safe, &avoid, 5, &roles, true), vec![1]);
    assert_eq!(assignable_roles(&saved, &safe, &avoid, 5, &roles, false), Vec::<u64>::new());
}

#[test]
fn full_rules_keep_the_order_of_the_lists_result() {
    let mut roles = HashMap::new();
    roles.insert(3, role("high", 9, false));
    roles.insert(5, role("admin", 1, true));
    let saved = [4, 3, 1, 5, 2];
    let lists_only = restorable_roles(&saved, &[], &[2]);
    assert_eq!(lists_only, vec![4, 3, 1, 5]);
    assert_eq!(assignable_roles(&saved, &[], &[2], 5, &roles, false), vec![4, 1]);
    assert_eq!(assignable_roles(&saved, &[], &[2], 5, &HashMap::new(), false), lists_only);
}

#[test]
fn more_rank_or_admin_never_removes_a_role() {
    let mut roles = HashMap::new();
    roles.insert(1, role("a", 2, false));
    roles.insert(2, role("b", 6, true));
    roles.insert(3, role("c", 9, false));
    let saved = [3, 2, 1, 4];
    let low = assignable_roles(&saved, &[], &[], 5, &roles, false);
    let high = assignable_roles(&saved, &[], &[], 10, &roles, false);
    let high_admin = assignable_roles(&saved, &[], &[], 10, &roles, true);
    assert_eq!(low, vec![1, 4]);
    assert_eq!(high, vec![3, 1, 4]);
    assert_eq!(high_admin, vec![3, 2, 1, 4]);
    assert!(low.iter().all(|r| high.contains(r)));
    assert!(high.iter().all(|r| high_admin.contains(r)));
}
