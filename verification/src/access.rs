//! Who may use the setup panel, and which control an interaction belongs to.

use crate::decimal::{decimal, parse_u64_decimal, u64_text_value};
use vstd::prelude::*;

verus! {

/// The interactive controls of the setup panel.
#[derive(PartialEq, Eq, Structural, Clone, Copy, Debug)]
pub enum PanelControl {
    SafeRoles,
    AvoidRoles,
    LogChannel,
    AdminFilter,
}

/// The prefix of the custom id of a control; the rest is the id of the user
/// who opened the panel.
pub open spec fn control_prefix(control: PanelControl) -> Seq<char> {
    match control {
        PanelControl::SafeRoles => "safe_roles_select_"@,
        PanelControl::AvoidRoles => "avoid_roles_select_"@,
        PanelControl::LogChannel => "log_channel_select_"@,
        PanelControl::AdminFilter => "admin_filter_toggle_"@,
    }
}

/// Whether `s` starts with `prefix`.
pub open spec fn has_prefix(s: Seq<char>, prefix: Seq<char>) -> bool {
    prefix.len() <= s.len() && s.subrange(0, prefix.len() as int) == prefix
}

/// The control that a component interaction with custom id `id` belongs to,
/// the prefixes being tried in the order safe, avoid, log channel, admin.
pub open spec fn route_of(id: Seq<char>) -> Option<PanelControl> {
    if has_prefix(id, control_prefix(PanelControl::SafeRoles)) {
        Some(PanelControl::SafeRoles)
    } else if has_prefix(id, control_prefix(PanelControl::AvoidRoles)) {
        Some(PanelControl::AvoidRoles)
    } else if has_prefix(id, control_prefix(PanelControl::LogChannel)) {
        Some(PanelControl::LogChannel)
    } else if has_prefix(id, control_prefix(PanelControl::AdminFilter)) {
        Some(PanelControl::AdminFilter)
    } else {
        None
    }
}

/// The text after a control's prefix in a custom id.
pub open spec fn owner_text(id: Seq<char>, control: PanelControl) -> Seq<char> {
    id.subrange(control_prefix(control).len() as int, id.len() as int)
}

/// The answer to an interaction with a control of the setup panel.
pub enum ComponentAccess {
    /// The interaction did not come from a server.
    OutsideServer,
    /// The custom id is not one of this control's; nothing is answered.
    Ignored,
    /// Another user than the one who opened the panel used it.
    NotPanelOwner,
    /// The user who opened the panel used it; holds the owner text of the
    /// custom id, from which the panel's controls are named again.
    Granted(String),
}

/// The prefix of a control's custom id.
pub fn control_prefix_str(control: PanelControl) -> (prefix: &'static str)
    ensures
        prefix@ == control_prefix(control),
{
    match control {
        PanelControl::SafeRoles => "safe_roles_select_",
        PanelControl::AvoidRoles => "avoid_roles_select_",
        PanelControl::LogChannel => "log_channel_select_",
        PanelControl::AdminFilter => "admin_filter_toggle_",
    }
}

/// `s` without `prefix`, or `None` when `s` does not start with it.
pub fn strip_prefix<'a>(s: &'a str, prefix: &str) -> (rest: Option<&'a str>)
    ensures
        rest is Some <==> has_prefix(s@, prefix@),
        rest matches Some(r) ==> r@ == s@.subrange(prefix@.len() as int, s@.len() as int),
{
    let n = s.unicode_len();
    let m = prefix.unicode_len();
    if m > n {
        return None;
    }
    let mut i: usize = 0;
    while i < m
        invariant
            i <= m <= n,
            n == s@.len(),
            m == prefix@.len(),
            forall|j: int| 0 <= j < i ==> s@[j] == prefix@[j],
        decreases m - i,
    {
        if s.get_char(i) != prefix.get_char(i) {
            assert(s@.subrange(0, m as int)[i as int] != prefix@[i as int]);
            return None;
        }
        i += 1;
    }
    assert(s@.subrange(0, m as int) =~= prefix@);
    Some(s.substring_char(m, n))
}

/// The control that a component interaction belongs to, by the prefix of its
/// custom id.
pub fn route_component(custom_id: &str) -> (control: Option<PanelControl>)
    ensures
        control == route_of(custom_id@),
{
    if strip_prefix(custom_id, control_prefix_str(PanelControl::SafeRoles)).is_some() {
        Some(PanelControl::SafeRoles)
    } else if strip_prefix(custom_id, control_prefix_str(PanelControl::AvoidRoles)).is_some() {
        Some(PanelControl::AvoidRoles)
    } else if strip_prefix(custom_id, control_prefix_str(PanelControl::LogChannel)).is_some() {
        Some(PanelControl::LogChannel)
    } else if strip_prefix(custom_id, control_prefix_str(PanelControl::AdminFilter)).is_some() {
        Some(PanelControl::AdminFilter)
    } else {
        None
    }
}

/// The custom id of a control of a panel opened by the user whose id has the
/// text `owner`.
pub fn control_custom_id(control: PanelControl, owner: &str) -> (id: String)
    ensures
        id@ == control_prefix(control) + owner@,
{
    let mut id = String::from_str(control_prefix_str(control));
    id.append(owner);
    id
}

/// Decides how to answer a user's interaction with a control of the setup
/// panel: only from a server, and only for the user whose id follows the
/// control's prefix in the custom id.
pub fn check_component_access(
    in_server: bool,
    custom_id: &str,
    control: PanelControl,
    user_id: u64,
) -> (access: ComponentAccess)
    ensures
        !in_server ==> access is OutsideServer,
        in_server && !has_prefix(custom_id@, control_prefix(control)) ==> access is Ignored,
        in_server && has_prefix(custom_id@, control_prefix(control)) ==> match u64_text_value(
            owner_text(custom_id@, control),
        ) {
            None => access is Ignored,
            Some(owner) => if owner == user_id {
                access matches ComponentAccess::Granted(t) && t@ == owner_text(custom_id@, control)
            } else {
                access is NotPanelOwner
            },
        },
{
    if !in_server {
        return ComponentAccess::OutsideServer;
    }
    match strip_prefix(custom_id, control_prefix_str(control)) {
        None => ComponentAccess::Ignored,
        Some(rest) => match parse_u64_decimal(rest) {
            None => ComponentAccess::Ignored,
            Some(owner) => if owner != user_id {
                ComponentAccess::NotPanelOwner
            } else {
                ComponentAccess::Granted(String::from_str(rest))
            },
        },
    }
}

/// Whether a user may open the setup panel: the server's owner, or a member
/// whose permissions include Administrator (`None` when they are not known).
pub fn may_open_setup(is_owner: bool, has_admin_permission: Option<bool>) -> (allowed: bool)
    ensures
        allowed == (is_owner || has_admin_permission == Some(true)),
{
    let has_admin = match has_admin_permission {
        Some(a) => a,
        None => false,
    };
    is_owner || has_admin
}

/// Whether two texts are equal.
pub fn same_text(a: &str, b: &str) -> (same: bool)
    ensures
        same == (a@ == b@),
{
    if a.unicode_len() != b.unicode_len() {
        return false;
    }
    match strip_prefix(a, b) {
        Some(_) => {
            assert(a@ =~= a@.subrange(0, b@.len() as int));
            true
        },
        None => {
            assert(a@.subrange(0, a@.len() as int) =~= a@);
            false
        },
    }
}

/// Whether a slash command is the setup command.
pub fn is_setup_command(name: &str) -> (is_setup: bool)
    ensures
        is_setup == (name@ == "setup"@),
{
    same_text(name, "setup")
}

/// The controls of a panel opened by the user `owner` carry a custom id that
/// starts with the control's prefix and whose owner text reads as `owner`;
/// so `check_component_access` grants the control to `owner` and refuses it
/// to every other user.
pub proof fn lemma_panel_answers_only_its_owner(control: PanelControl, owner: u64)
    ensures
        has_prefix(control_prefix(control) + decimal(owner as nat), control_prefix(control)),
        u64_text_value(owner_text(control_prefix(control) + decimal(owner as nat), control))
            == Some(owner),
{
    let p = control_prefix(control);
    let id = p + decimal(owner as nat);
    assert(id.subrange(0, p.len() as int) =~= p);
    assert(owner_text(id, control) =~= decimal(owner as nat));
    crate::decimal::lemma_decimal_parses(owner);
}

/// The custom id of a control, whatever follows its prefix, is routed to
/// that control.
pub proof fn lemma_control_ids_route_to_their_control(control: PanelControl, owner: Seq<char>)
    ensures
        route_of(control_prefix(control) + owner) == Some(control),
{
    reveal_strlit("safe_roles_select_");
    reveal_strlit("avoid_roles_select_");
    reveal_strlit("log_channel_select_");
    reveal_strlit("admin_filter_toggle_");
    let id = control_prefix(control) + owner;
    let safe = control_prefix(PanelControl::SafeRoles);
    let avoid = control_prefix(PanelControl::AvoidRoles);
    let log = control_prefix(PanelControl::LogChannel);
    let admin = control_prefix(PanelControl::AdminFilter);
    assert(id.subrange(0, control_prefix(control).len() as int) =~= control_prefix(control));
    if control != PanelControl::SafeRoles {
        assert(id[0] != safe[0]);
        assert(id.len() >= safe.len() ==> id.subrange(0, safe.len() as int)[0] != safe[0]);
    }
    if control == PanelControl::LogChannel || control == PanelControl::AdminFilter {
        if control == PanelControl::LogChannel {
            assert(id[0] != avoid[0]);
            assert(id.subrange(0, avoid.len() as int)[0] != avoid[0]);
        } else {
            assert(id[1] != avoid[1]);
            assert(id.subrange(0, avoid.len() as int)[1] != avoid[1]);
        }
    }
    if control == PanelControl::AdminFilter {
        assert(id[0] != log[0]);
        assert(id.subrange(0, log.len() as int)[0] != log[0]);
    }
}

} // verus!
