//! The setup panel: the texts, menus and button that show a server's
//! configuration and let its owner change it.

use crate::access::{PanelControl, control_custom_id, control_prefix, same_text};
use crate::decimal::{decimal, u64_to_decimal};
use crate::guild_config::GuildConfig;
use crate::role_filter::contains_id;
use vstd::prelude::*;

verus! {

/// A role of the server, as the panel lists it.
pub struct RoleEntry {
    pub id: u64,
    pub name: String,
    /// Whether an integration manages the role (it cannot be handed out).
    pub managed: bool,
    /// Whether the role grants Administrator.
    pub has_admin: bool,
}

/// A channel of the server, as the log channel menu lists it.
pub struct ChannelEntry {
    pub id: u64,
    pub name: String,
    pub is_text: bool,
    /// Whether the bot may see the channel.
    pub bot_can_view: bool,
    /// Whether the bot may post in the channel.
    pub bot_can_send: bool,
}

/// One entry of a select menu.
pub struct MenuOption {
    pub label: String,
    pub value: String,
    /// Whether the entry warns that the role grants Administrator.
    pub admin_warning: bool,
    /// Whether the entry is shown as selected.
    pub preselected: bool,
}

/// A menu entry as plain values.
pub struct MenuOptionView {
    pub label: Seq<char>,
    pub value: Seq<char>,
    pub admin_warning: bool,
    pub preselected: bool,
}

impl View for MenuOption {
    type V = MenuOptionView;

    open spec fn view(&self) -> MenuOptionView {
        MenuOptionView {
            label: self.label@,
            value: self.value@,
            admin_warning: self.admin_warning,
            preselected: self.preselected,
        }
    }
}

/// What brought the panel up: the setup command, or a change made with one
/// of its controls.
#[derive(PartialEq, Eq, Structural, Clone, Copy, Debug)]
pub enum PanelEvent {
    Opened,
    AdminFilterToggled,
    SafeRolesChosen,
    AvoidRolesChosen,
    LogChannelChosen,
}

/// Everything the panel shows.
pub struct SetupPanel {
    pub safe_field_title: String,
    pub avoid_field_title: String,
    pub safe_roles_text: String,
    pub avoid_roles_text: String,
    pub log_channel_text: String,
    /// Whether the panel explains that admin roles are not given back.
    pub show_security_rules: bool,
    pub safe_options: Vec<MenuOption>,
    pub avoid_options: Vec<MenuOption>,
    /// Entries of the log channel menu; unused when it is a channel picker.
    pub channel_options: Vec<MenuOption>,
    /// Whether the log channel menu lists `channel_options` (else it is
    /// Discord's own picker of text channels).
    pub channel_menu_is_list: bool,
    /// How many roles may be chosen at once in the role menus.
    pub max_values: u8,
    pub safe_menu_id: String,
    pub avoid_menu_id: String,
    pub log_menu_id: String,
    pub admin_button_id: String,
    pub admin_button_label: String,
    /// Whether the admin button is shown as "success" (else as "danger").
    pub admin_button_success: bool,
}

/// The mention of a role.
pub open spec fn role_mention(id: u64) -> Seq<char> {
    "<@&"@ + decimal(id as nat) + ">"@
}

/// The mentions of `ids`, separated by `sep`.
pub open spec fn joined_mentions(ids: Seq<u64>, sep: Seq<char>) -> Seq<char>
    decreases ids.len(),
{
    if ids.len() == 0 {
        Seq::empty()
    } else if ids.len() == 1 {
        role_mention(ids[0])
    } else {
        joined_mentions(ids.drop_last(), sep) + sep + role_mention(ids.last())
    }
}

/// How the panel shows a list of roles.
pub open spec fn role_list_text(ids: Seq<u64>) -> Seq<char> {
    if ids.len() == 0 {
        "None configured"@
    } else {
        joined_mentions(ids, " "@)
    }
}

/// How the panel shows the log channel.
pub open spec fn log_channel_text(channel: Option<u64>) -> Seq<char> {
    match channel {
        Some(id) => "<#"@ + decimal(id as nat) + ">"@,
        None => "Not configured"@,
    }
}

/// The label of the admin button.
pub open spec fn admin_button_label(reassign_admin: bool) -> Seq<char> {
    if reassign_admin {
        "Re-assign Admin Roles: ✅ Enabled"@
    } else {
        "Re-assign Admin Roles: ❌ Disabled"@
    }
}

/// Whether a role can be offered in the role menus.
pub open spec fn is_configurable(e: RoleEntry) -> bool {
    !e.managed && e.name@ != "@everyone"@
}

/// The menu entry of a role.
pub open spec fn role_option(e: RoleEntry, preselect: Option<Seq<u64>>, warn_admin: bool) -> MenuOptionView {
    MenuOptionView {
        label: e.name@,
        value: decimal(e.id as nat),
        admin_warning: warn_admin && e.has_admin,
        preselected: match preselect {
            Some(chosen) => chosen.contains(e.id),
            None => false,
        },
    }
}

/// The entries of a role menu: the configurable roles, in their order.
pub open spec fn role_options(
    entries: Seq<RoleEntry>,
    preselect: Option<Seq<u64>>,
    warn_admin: bool,
) -> Seq<MenuOptionView>
    decreases entries.len(),
{
    if entries.len() == 0 {
        Seq::empty()
    } else {
        let rest = role_options(entries.drop_last(), preselect, warn_admin);
        if is_configurable(entries.last()) {
            rest.push(role_option(entries.last(), preselect, warn_admin))
        } else {
            rest
        }
    }
}

/// Whether the bot can post in a channel.
pub open spec fn is_postable(e: ChannelEntry) -> bool {
    e.is_text && e.bot_can_view && e.bot_can_send
}

/// The entries of the log channel menu: the channels the bot can post in,
/// in their order, the current one selected.
pub open spec fn channel_options(entries: Seq<ChannelEntry>, current: Option<u64>) -> Seq<MenuOptionView>
    decreases entries.len(),
{
    if entries.len() == 0 {
        Seq::empty()
    } else {
        let rest = channel_options(entries.drop_last(), current);
        let e = entries.last();
        if is_postable(e) {
            rest.push(
                MenuOptionView {
                    label: e.name@,
                    value: decimal(e.id as nat),
                    admin_warning: false,
                    preselected: current == Some(e.id),
                },
            )
        } else {
            rest
        }
    }
}

/// Whether the role menus show the configured roles as selected (all but the
/// panel that the setup command opens).
pub open spec fn shows_selection(event: PanelEvent) -> bool {
    event != PanelEvent::Opened
}

/// The log channel shown as selected in the log channel menu.
pub open spec fn channel_default(event: PanelEvent, current: Option<u64>) -> Option<u64> {
    if event == PanelEvent::Opened || event == PanelEvent::LogChannelChosen {
        current
    } else {
        None
    }
}

/// Whether the log channel menu lists the postable channels (after a choice
/// of avoid roles it is Discord's own channel picker instead).
pub open spec fn lists_channels(event: PanelEvent) -> bool {
    event != PanelEvent::AvoidRolesChosen
}

/// The title of the field that shows the safe roles.
pub open spec fn safe_field_title(event: PanelEvent) -> Seq<char> {
    if event == PanelEvent::AvoidRolesChosen {
        "Safe Roles (Will Restore)"@
    } else {
        "Safe Roles"@
    }
}

/// The title of the field that shows the avoid roles.
pub open spec fn avoid_field_title(event: PanelEvent) -> Seq<char> {
    if event == PanelEvent::AvoidRolesChosen {
        "Avoid Roles (Won't Restore)"@
    } else {
        "Avoid Roles"@
    }
}

/// The menu entries as plain values.
pub open spec fn options_view(options: Seq<MenuOption>) -> Seq<MenuOptionView> {
    options.map_values(|o: MenuOption| o@)
}

/// The limit of choices in the role menus for `count` entries: the count,
/// taken modulo 256 as a `u8` cast does, and at most 25.
pub open spec fn max_values_for(count: nat) -> nat {
    if count % 256 < 25 {
        count % 256
    } else {
        25
    }
}

/// A view of an optional list of ids.
pub open spec fn opt_ids(ids: Option<&[u64]>) -> Option<Seq<u64>> {
    match ids {
        Some(s) => Some(s@),
        None => None,
    }
}

proof fn lemma_options_view_push(options: Seq<MenuOption>, o: MenuOption)
    ensures
        options_view(options.push(o)) == options_view(options).push(o@),
{
    assert(options_view(options.push(o)) =~= options_view(options).push(o@));
}

/// The roles of `entries`, in their order, that are neither managed by an
/// integration nor `@everyone`.
pub open spec fn offerable_roles(entries: Seq<RoleEntry>) -> Seq<RoleEntry> {
    entries.filter(|e: RoleEntry| !e.managed && e.name@ != "@everyone"@)
}

/// A role menu has one entry per role that is neither managed nor
/// `@everyone`, in the order of the roles; the entry shows the role's name,
/// has the role's id in decimal as its value, warns of Administrator exactly
/// when asked to and the role grants it, and is selected exactly when the
/// role's id occurs anywhere in the list of selected roles.
pub proof fn lemma_role_options_describe_offerable_roles(
    entries: Seq<RoleEntry>,
    preselect: Option<Seq<u64>>,
    warn_admin: bool,
)
    ensures
        role_options(entries, preselect, warn_admin).len() == offerable_roles(entries).len(),
        forall|k: int|
            0 <= k < offerable_roles(entries).len() ==> {
                let e = #[trigger] offerable_roles(entries)[k];
                let o = role_options(entries, preselect, warn_admin)[k];
                &&& o.label == e.name@
                &&& o.value == decimal(e.id as nat)
                &&& o.admin_warning == (warn_admin && e.has_admin)
                &&& o.preselected == (preselect matches Some(chosen) && chosen.contains(e.id))
            },
    decreases entries.len(),
{
    let p = |e: RoleEntry| !e.managed && e.name@ != "@everyone"@;
    if entries.len() == 0 {
        reveal(Seq::filter);
    } else {
        let rest = entries.drop_last();
        let last = entries.last();
        lemma_role_options_describe_offerable_roles(rest, preselect, warn_admin);
        assert(entries =~= rest.push(last));
        rest.lemma_filter_push(last, p);
        assert(offerable_roles(entries) == if p(last) {
            offerable_roles(rest).push(last)
        } else {
            offerable_roles(rest)
        });
        assert forall|k: int| 0 <= k < offerable_roles(entries).len() implies {
            let e = #[trigger] offerable_roles(entries)[k];
            let o = role_options(entries, preselect, warn_admin)[k];
            &&& o.label == e.name@
            &&& o.value == decimal(e.id as nat)
            &&& o.admin_warning == (warn_admin && e.has_admin)
            &&& o.preselected == (preselect matches Some(chosen) && chosen.contains(e.id))
        } by {
            if k < offerable_roles(rest).len() {
                assert(offerable_roles(entries)[k] == offerable_roles(rest)[k]);
                assert(role_options(entries, preselect, warn_admin)[k] == role_options(
                    rest,
                    preselect,
                    warn_admin,
                )[k]);
            }
        }
    }
}

proof fn lemma_joined_mentions_append(a: Seq<u64>, b: Seq<u64>, sep: Seq<char>)
    requires
        a.len() > 0,
        b.len() > 0,
    ensures
        joined_mentions(a + b, sep) == joined_mentions(a, sep) + sep + joined_mentions(b, sep),
    decreases b.len(),
{
    let ab = a + b;
    if b.len() == 1 {
        assert(ab.drop_last() =~= a);
        assert(ab.last() == b[0]);
    } else {
        let b1 = b.drop_last();
        lemma_joined_mentions_append(a, b1, sep);
        assert(ab.drop_last() =~= a + b1);
        assert(ab.last() == b.last());
        assert(joined_mentions(a + b, sep) =~= joined_mentions(a, sep) + sep + joined_mentions(
            b,
            sep,
        ));
    }
}

/// Mentions are joined with the separator between every two consecutive
/// ones: the text of one role is its mention, and the text of two non-empty
/// lists put together is the text of the first, the separator, and the text
/// of the second (so adding a role to a non-empty list adds the separator and
/// its mention).
pub proof fn lemma_joined_mentions_separates_every_pair(a: Seq<u64>, b: Seq<u64>, x: u64, sep: Seq<char>)
    ensures
        joined_mentions(seq![x], sep) == "<@&"@ + decimal(x as nat) + ">"@,
        joined_mentions(Seq::<u64>::empty(), sep) == Seq::<char>::empty(),
        a.len() > 0 && b.len() > 0 ==> joined_mentions(a + b, sep) == joined_mentions(a, sep)
            + sep + joined_mentions(b, sep),
        a.len() > 0 ==> joined_mentions(a.push(x), sep) == joined_mentions(a, sep) + sep + "<@&"@
            + decimal(x as nat) + ">"@,
{
    if a.len() > 0 && b.len() > 0 {
        lemma_joined_mentions_append(a, b, sep);
    }
    if a.len() > 0 {
        lemma_joined_mentions_append(a, seq![x], sep);
        assert(a + seq![x] =~= a.push(x));
        assert(joined_mentions(a.push(x), sep) =~= joined_mentions(a, sep) + sep + "<@&"@ + decimal(
            x as nat,
        ) + ">"@);
    }
}

/// The mentions of `ids` separated by `sep`.
pub fn mentions_text(ids: &[u64], sep: &str) -> (text: String)
    ensures
        text@ == joined_mentions(ids@, sep@),
{
    let mut text = String::new();
    let mut i: usize = 0;
    while i < ids.len()
        invariant
            i <= ids.len(),
            text@ == joined_mentions(ids@.take(i as int), sep@),
        decreases ids.len() - i,
    {
        let ghost before = text@;
        if i > 0 {
            text.append(sep);
        }
        text.append("<@&");
        let digits = u64_to_decimal(ids[i]);
        text.append(digits.as_str());
        text.append(">");
        proof {
            let next = ids@.take(i + 1);
            assert(next.drop_last() =~= ids@.take(i as int));
            if i == 0 {
                assert(text@ =~= role_mention(ids@[0]));
            } else {
                assert(text@ =~= before + sep@ + role_mention(ids@[i as int]));
            }
        }
        i += 1;
    }
    assert(ids@.take(ids.len() as int) =~= ids@);
    text
}

/// How the panel shows a list of roles: their mentions separated by spaces,
/// or "None configured".
pub fn role_list_display(ids: &[u64]) -> (text: String)
    ensures
        text@ == role_list_text(ids@),
{
    if ids.len() == 0 {
        String::from_str("None configured")
    } else {
        mentions_text(ids, " ")
    }
}

/// How the panel shows the log channel: its mention, or "Not configured".
pub fn log_channel_display(channel: Option<u64>) -> (text: String)
    ensures
        text@ == log_channel_text(channel),
{
    match channel {
        Some(id) => {
            let mut text = String::from_str("<#");
            let digits = u64_to_decimal(id);
            text.append(digits.as_str());
            text.append(">");
            text
        },
        None => String::from_str("Not configured"),
    }
}

/// The label of the admin button for the current setting.
pub fn admin_button_text(reassign_admin: bool) -> (label: String)
    ensures
        label@ == admin_button_label(reassign_admin),
{
    if reassign_admin {
        String::from_str("Re-assign Admin Roles: ✅ Enabled")
    } else {
        String::from_str("Re-assign Admin Roles: ❌ Disabled")
    }
}

/// The entries of a role menu: every role that no integration manages and
/// that is not `@everyone`, in their order; an entry is selected when its role
/// is in `preselect`, and warns of Administrator when `warn_admin` is set.
pub fn role_menu_options(roles: &[RoleEntry], preselect: Option<&[u64]>, warn_admin: bool) -> (options: Vec<MenuOption>)
    ensures
        options_view(options@) == role_options(roles@, opt_ids(preselect), warn_admin),
{
    let mut options: Vec<MenuOption> = Vec::new();
    let mut i: usize = 0;
    while i < roles.len()
        invariant
            i <= roles.len(),
            options_view(options@) == role_options(roles@.take(i as int), opt_ids(preselect), warn_admin),
        decreases roles.len() - i,
    {
        let e = &roles[i];
        proof {
            assert(roles@.take(i + 1).drop_last() =~= roles@.take(i as int));
        }
        if !e.managed && !same_text(e.name.as_str(), "@everyone") {
            let preselected = match preselect {
                Some(chosen) => contains_id(chosen, e.id),
                None => false,
            };
            let option = MenuOption {
                label: e.name.clone(),
                value: u64_to_decimal(e.id),
                admin_warning: warn_admin && e.has_admin,
                preselected,
            };
            proof {
                lemma_options_view_push(options@, option);
            }
            options.push(option);
        }
        i += 1;
    }
    assert(roles@.take(roles.len() as int) =~= roles@);
    options
}

/// Whether the server has a role that the role menus can offer.
pub fn has_configurable_roles(roles: &[RoleEntry]) -> (any: bool)
    ensures
        any == (role_options(roles@, None, false).len() > 0),
{
    let mut i: usize = 0;
    while i < roles.len()
        invariant
            i <= roles.len(),
            role_options(roles@.take(i as int), None, false).len() == 0,
        decreases roles.len() - i,
    {
        proof {
            assert(roles@.take(i + 1).drop_last() =~= roles@.take(i as int));
        }
        if !roles[i].managed && !same_text(roles[i].name.as_str(), "@everyone") {
            proof {
                lemma_role_options_grow(roles@, i as int + 1);
            }
            return true;
        }
        i += 1;
    }
    assert(roles@.take(roles.len() as int) =~= roles@);
    false
}

proof fn lemma_role_options_grow(entries: Seq<RoleEntry>, k: int)
    requires
        0 < k <= entries.len(),
        role_options(entries.take(k), None, false).len() > 0,
    ensures
        role_options(entries, None, false).len() > 0,
    decreases entries.len(),
{
    if k < entries.len() {
        assert(entries.drop_last().take(k) =~= entries.take(k));
        lemma_role_options_grow(entries.drop_last(), k);
    } else {
        assert(entries.take(k) =~= entries);
    }
}

/// The entries of the log channel menu: the text channels the bot can see
/// and post in, in their order, with `current` selected.
pub fn channel_menu_options(channels: &[ChannelEntry], current: Option<u64>) -> (options: Vec<MenuOption>)
    ensures
        options_view(options@) == channel_options(channels@, current),
{
    let mut options: Vec<MenuOption> = Vec::new();
    let mut i: usize = 0;
    while i < channels.len()
        invariant
            i <= channels.len(),
            options_view(options@) == channel_options(channels@.take(i as int), current),
        decreases channels.len() - i,
    {
        let e = &channels[i];
        proof {
            assert(channels@.take(i + 1).drop_last() =~= channels@.take(i as int));
        }
        if e.is_text && e.bot_can_view && e.bot_can_send {
            let preselected = match current {
                Some(c) => c == e.id,
                None => false,
            };
            let option = MenuOption {
                label: e.name.clone(),
                value: u64_to_decimal(e.id),
                admin_warning: false,
                preselected,
            };
            proof {
                lemma_options_view_push(options@, option);
            }
            options.push(option);
        }
        i += 1;
    }
    assert(channels@.take(channels.len() as int) =~= channels@);
    options
}

/// How many roles may be chosen at once in menus of `count` entries.
pub fn menu_max_values(count: usize) -> (max: u8)
    ensures
        max as nat == max_values_for(count as nat),
{
    let truncated = count as u8;
    proof {
        assert(count as u8 == count % 256) by (bit_vector);
    }
    if truncated < 25 {
        truncated
    } else {
        25
    }
}


/// Whether the log channel menu lists the postable channels, so that they
/// have to be fetched before the panel is built.
pub fn panel_lists_channels(event: PanelEvent) -> (lists: bool)
    ensures
        lists == lists_channels(event),
{
    event != PanelEvent::AvoidRolesChosen
}

/// Builds the panel that shows `config` after `event`, for the panel opened
/// by the user whose id has the text `owner`; `roles` and `channels` are the
/// server's, in the order they are to be listed.
pub fn build_setup_panel(
    event: PanelEvent,
    owner: &str,
    config: &GuildConfig,
    roles: &[RoleEntry],
    channels: &[ChannelEntry],
) -> (panel: SetupPanel)
    ensures
        panel.safe_field_title@ == safe_field_title(event),
        panel.avoid_field_title@ == avoid_field_title(event),
        panel.safe_roles_text@ == role_list_text(config.safe_roles@),
        panel.avoid_roles_text@ == role_list_text(config.avoid_roles@),
        panel.log_channel_text@ == log_channel_text(config.log_channel_id),
        panel.show_security_rules == !config.reassign_admin_roles,
        options_view(panel.safe_options@) == role_options(
            roles@,
            if shows_selection(event) {
                Some(config.safe_roles@)
            } else {
                None
            },
            event == PanelEvent::Opened,
        ),
        options_view(panel.avoid_options@) == role_options(
            roles@,
            if shows_selection(event) {
                Some(config.avoid_roles@)
            } else {
                None
            },
            event == PanelEvent::Opened,
        ),
        panel.channel_menu_is_list == lists_channels(event),
        options_view(panel.channel_options@) == if lists_channels(event) {
            channel_options(channels@, channel_default(event, config.log_channel_id))
        } else {
            Seq::empty()
        },
        panel.max_values as nat == max_values_for(panel.safe_options@.len()),
        panel.safe_menu_id@ == control_prefix(PanelControl::SafeRoles) + owner@,
        panel.avoid_menu_id@ == control_prefix(PanelControl::AvoidRoles) + owner@,
        panel.log_menu_id@ == control_prefix(PanelControl::LogChannel) + owner@,
        panel.admin_button_id@ == control_prefix(PanelControl::AdminFilter) + owner@,
        panel.admin_button_label@ == admin_button_label(config.reassign_admin_roles),
        panel.admin_button_success == config.reassign_admin_roles,
{
    let opened = event == PanelEvent::Opened;
    let safe_options = if opened {
        role_menu_options(roles, None, true)
    } else {
        role_menu_options(roles, Some(config.safe_roles.as_slice()), false)
    };
    let avoid_options = if opened {
        role_menu_options(roles, None, true)
    } else {
        role_menu_options(roles, Some(config.avoid_roles.as_slice()), false)
    };
    let lists = panel_lists_channels(event);
    let channel_options = if !lists {
        Vec::new()
    } else if opened || event == PanelEvent::LogChannelChosen {
        channel_menu_options(channels, config.log_channel_id)
    } else {
        channel_menu_options(channels, None)
    };
    proof {
        if !lists {
            assert(options_view(channel_options@) =~= Seq::<MenuOptionView>::empty());
        }
    }
    let max_values = menu_max_values(safe_options.len());
    let (safe_title, avoid_title) = if event == PanelEvent::AvoidRolesChosen {
        (String::from_str("Safe Roles (Will Restore)"), String::from_str("Avoid Roles (Won't Restore)"))
    } else {
        (String::from_str("Safe Roles"), String::from_str("Avoid Roles"))
    };
    SetupPanel {
        safe_field_title: safe_title,
        avoid_field_title: avoid_title,
        safe_roles_text: role_list_display(config.safe_roles.as_slice()),
        avoid_roles_text: role_list_display(config.avoid_roles.as_slice()),
        log_channel_text: log_channel_display(config.log_channel_id),
        show_security_rules: !config.reassign_admin_roles,
        safe_options,
        avoid_options,
        channel_options,
        channel_menu_is_list: lists,
        max_values,
        safe_menu_id: control_custom_id(PanelControl::SafeRoles, owner),
        avoid_menu_id: control_custom_id(PanelControl::AvoidRoles, owner),
        log_menu_id: control_custom_id(PanelControl::LogChannel, owner),
        admin_button_id: control_custom_id(PanelControl::AdminFilter, owner),
        admin_button_label: admin_button_text(config.reassign_admin_roles),
        admin_button_success: config.reassign_admin_roles,
    }
}

} // verus!
