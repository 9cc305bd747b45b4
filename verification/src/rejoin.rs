//! What the bot does when a member rejoins a server: the decisions, as a
//! state machine that the event handler drives with the outcome of each
//! database read, role assignment and message.

use crate::panel::{joined_mentions, mentions_text};
use crate::role_filter::{
    RoleInfo,
    assignable_roles,
    assignable_subset,
    is_restorable,
    is_assignable,
    restorable_roles,
    restorable_subset,
};
use std::collections::HashMap;
use vstd::prelude::*;

verus! {

/// What the server's cache tells about the bot and the roles.
pub struct RejoinContext {
    /// Roles at or above this position are never handed out.
    pub bot_highest_position: i64,
    /// The server's roles by id.
    pub roles: HashMap<u64, RoleInfo>,
}

/// Where the restoration of a rejoining member's roles stands.
pub enum RejoinState {
    /// Waiting for the roles saved when the member left.
    LookingUpSavedRoles,
    /// Waiting for the server's admin setting.
    LoadingAdminSetting { saved: Vec<u64> },
    /// Waiting for the safe and avoid lists; `fallback` once a first read of
    /// them failed, after which only the lists are applied.
    LoadingFilterLists { saved: Vec<u64>, reassign_admin: bool, fallback: bool },
    /// Waiting for Discord to give the member these roles.
    AssigningRoles { roles: Vec<u64> },
    /// Roles given; waiting for the log channel setting.
    LoadingLogChannel { roles: Vec<u64> },
    /// Waiting for the announcement to be posted.
    SendingLog,
    /// Waiting for the saved roles to be deleted.
    DeletingSavedRoles,
    /// Nothing more to do.
    Done,
}

/// The outcome of the last action.
pub enum RejoinEvent {
    SavedRoles(Option<Vec<u64>>),
    SavedRolesUnreadable,
    AdminSetting(bool),
    AdminSettingUnreadable,
    FilterLists { safe: Vec<u64>, avoid: Vec<u64> },
    FilterListsUnreadable,
    RolesAssigned,
    RoleAssignmentFailed,
    LogChannel(Option<u64>),
    LogChannelUnreadable,
    /// The announcement was posted, or posting it failed.
    LogSendFinished,
    /// The saved roles were deleted, or deleting them failed.
    CleanupFinished,
}

/// What the event handler is to do next.
pub enum RejoinAction {
    LookUpSavedRoles,
    LoadAdminSetting,
    LoadFilterLists,
    AssignRoles(Vec<u64>),
    LoadLogChannel,
    SendLog { channel: u64, text: String },
    DeleteSavedRoles,
    Finish,
}

/// At most how many more steps a run takes from `state`.
pub open spec fn rejoin_rank(state: RejoinState) -> nat {
    match state {
        RejoinState::LookingUpSavedRoles => 8,
        RejoinState::LoadingAdminSetting { .. } => 7,
        RejoinState::LoadingFilterLists { fallback, .. } => if fallback {
            5
        } else {
            6
        },
        RejoinState::AssigningRoles { .. } => 4,
        RejoinState::LoadingLogChannel { .. } => 3,
        RejoinState::SendingLog => 2,
        RejoinState::DeletingSavedRoles => 1,
        RejoinState::Done => 0,
    }
}

/// The roles kept from `saved` with the lists `safe` and `avoid`: by all the
/// rules, or, on the fallback path, by the lists alone.
pub open spec fn kept_roles(
    saved: Seq<u64>,
    reassign_admin: bool,
    fallback: bool,
    safe: Seq<u64>,
    avoid: Seq<u64>,
    ctx: RejoinContext,
) -> Seq<u64> {
    if fallback {
        restorable_subset(saved, safe, avoid)
    } else {
        assignable_subset(saved, safe, avoid, ctx.bot_highest_position, ctx.roles@, reassign_admin)
    }
}

/// One step of the restoration: from `state`, on `event`, to `next`, asking
/// for `action`.
pub open spec fn rejoin_transition(
    state: RejoinState,
    event: RejoinEvent,
    ctx: RejoinContext,
    next: RejoinState,
    action: RejoinAction,
) -> bool {
    let stop = next is Done && action is Finish;
    match state {
        RejoinState::LookingUpSavedRoles => match event {
            RejoinEvent::SavedRoles(Some(saved)) => {
                &&& next matches RejoinState::LoadingAdminSetting { saved: s } && s@ == saved@
                &&& action is LoadAdminSetting
            },
            _ => stop,
        },
        RejoinState::LoadingAdminSetting { saved } => {
            let reassign = match event {
                RejoinEvent::AdminSetting(b) => b,
                _ => true,
            };
            if event is AdminSetting || event is AdminSettingUnreadable {
                &&& next matches RejoinState::LoadingFilterLists { saved: s, reassign_admin: r, fallback: f }
                    && s@ == saved@ && r == reassign && !f
                &&& action is LoadFilterLists
            } else {
                stop
            }
        },
        RejoinState::LoadingFilterLists { saved, reassign_admin, fallback } => match event {
            RejoinEvent::FilterLists { safe, avoid } => {
                let kept = kept_roles(saved@, reassign_admin, fallback, safe@, avoid@, ctx);
                if kept.len() == 0 {
                    stop
                } else {
                    &&& next matches RejoinState::AssigningRoles { roles } && roles@ == kept
                    &&& action matches RejoinAction::AssignRoles(roles) && roles@ == kept
                }
            },
            RejoinEvent::FilterListsUnreadable => if fallback {
                stop
            } else {
                &&& next matches RejoinState::LoadingFilterLists { saved: s, reassign_admin: r, fallback: f }
                    && s@ == saved@ && r == reassign_admin && f
                &&& action is LoadFilterLists
            },
            _ => stop,
        },
        RejoinState::AssigningRoles { roles } => match event {
            RejoinEvent::RolesAssigned => {
                &&& next matches RejoinState::LoadingLogChannel { roles: r } && r@ == roles@
                &&& action is LoadLogChannel
            },
            _ => stop,
        },
        RejoinState::LoadingLogChannel { roles } => match event {
            RejoinEvent::LogChannel(Some(channel)) => {
                &&& next is SendingLog
                &&& action matches RejoinAction::SendLog { channel: c, text } && c == channel
                    && text@ == joined_mentions(roles@, ", "@)
            },
            RejoinEvent::LogChannel(None) | RejoinEvent::LogChannelUnreadable => {
                &&& next is DeletingSavedRoles
                &&& action is DeleteSavedRoles
            },
            _ => stop,
        },
        RejoinState::SendingLog => match event {
            RejoinEvent::LogSendFinished => {
                &&& next is DeletingSavedRoles
                &&& action is DeleteSavedRoles
            },
            _ => stop,
        },
        RejoinState::DeletingSavedRoles => stop,
        RejoinState::Done => stop,
    }
}

/// A run of the restoration: it starts by looking up the saved roles, and
/// each step goes from `states[i]` on `events[i]` to `states[i + 1]`, asking
/// for `actions[i + 1]`.
pub open spec fn is_rejoin_run(
    states: Seq<RejoinState>,
    events: Seq<RejoinEvent>,
    actions: Seq<RejoinAction>,
    ctx: RejoinContext,
) -> bool {
    &&& states.len() == events.len() + 1
    &&& actions.len() == states.len()
    &&& states[0] is LookingUpSavedRoles
    &&& actions[0] is LookUpSavedRoles
    &&& forall|i: int|
        #![trigger events[i]]
        0 <= i < events.len() ==> rejoin_transition(
            states[i],
            events[i],
            ctx,
            states[i + 1],
            actions[i + 1],
        )
}

/// The states in which the member has been given their roles.
pub open spec fn after_assignment(state: RejoinState) -> bool {
    state is LoadingLogChannel || state is SendingLog || state is DeletingSavedRoles
}

proof fn lemma_step_facts(
    state: RejoinState,
    event: RejoinEvent,
    ctx: RejoinContext,
    next: RejoinState,
    action: RejoinAction,
)
    requires
        rejoin_transition(state, event, ctx, next, action),
    ensures
        next is Done <==> action is Finish,
        next is Done || rejoin_rank(next) < rejoin_rank(state),
        action is DeleteSavedRoles ==> after_assignment(state),
        after_assignment(next) ==> after_assignment(state) || (state is AssigningRoles
            && event is RolesAssigned),
{
}

/// In every run the saved roles are deleted only after Discord confirmed that
/// the member was given their roles back.
pub proof fn lemma_saved_roles_deleted_only_after_assignment(
    states: Seq<RejoinState>,
    events: Seq<RejoinEvent>,
    actions: Seq<RejoinAction>,
    ctx: RejoinContext,
    k: int,
)
    requires
        is_rejoin_run(states, events, actions, ctx),
        0 <= k < actions.len(),
        actions[k] is DeleteSavedRoles,
    ensures
        exists|j: int| 0 <= j < k && #[trigger] events[j] is RolesAssigned,
{
    lemma_assigned_before(states, events, actions, ctx, k - 1);
    lemma_step_facts(states[k - 1], events[k - 1], ctx, states[k], actions[k]);
}

proof fn lemma_assigned_before(
    states: Seq<RejoinState>,
    events: Seq<RejoinEvent>,
    actions: Seq<RejoinAction>,
    ctx: RejoinContext,
    i: int,
)
    requires
        is_rejoin_run(states, events, actions, ctx),
        0 <= i < states.len(),
    ensures
        after_assignment(states[i]) ==> exists|j: int| 0 <= j < i && #[trigger] events[j] is RolesAssigned,
    decreases i,
{
    if i > 0 {
        lemma_assigned_before(states, events, actions, ctx, i - 1);
        lemma_step_facts(states[i - 1], events[i - 1], ctx, states[i], actions[i]);
        if after_assignment(states[i]) && !after_assignment(states[i - 1]) {
            assert(events[i - 1] is RolesAssigned);
        }
    }
}

/// Every run finishes: after `n` steps the rank has dropped by `n` unless the
/// run is done, so no run takes more than eight steps.
pub proof fn lemma_runs_finish(
    states: Seq<RejoinState>,
    events: Seq<RejoinEvent>,
    actions: Seq<RejoinAction>,
    ctx: RejoinContext,
    n: int,
)
    requires
        is_rejoin_run(states, events, actions, ctx),
        0 <= n < states.len(),
        forall|i: int| 0 <= i < n ==> !(#[trigger] actions[i] is Finish),
    ensures
        rejoin_rank(states[n]) + n <= 8,
        n <= 8,
    decreases n,
{
    if n > 0 {
        lemma_runs_finish(states, events, actions, ctx, n - 1);
        lemma_step_facts(states[n - 1], events[n - 1], ctx, states[n], actions[n]);
        if states[n - 1] is Done {
            if n - 1 == 0 {
            } else {
                lemma_step_facts(states[n - 2], events[n - 2], ctx, states[n - 1], actions[n - 1]);
                assert(actions[n - 1] is Finish);
            }
        }
    }
}

/// The roles that an action hands out (none unless it assigns roles).
pub open spec fn handed_out(action: RejoinAction) -> Seq<u64> {
    match action {
        RejoinAction::AssignRoles(roles) => roles@,
        _ => Seq::empty(),
    }
}

/// Reading the admin setting as `b` carries `b` into the filtering step
/// unchanged (an unreadable setting counts as enabled), together with the
/// saved roles, on the first (not the fallback) attempt.
pub proof fn lemma_admin_setting_is_carried(
    state: RejoinState,
    event: RejoinEvent,
    ctx: RejoinContext,
    next: RejoinState,
    action: RejoinAction,
    saved: Seq<u64>,
    b: bool,
)
    requires
        rejoin_transition(state, event, ctx, next, action),
        state matches RejoinState::LoadingAdminSetting { saved: s } && s@ == saved,
        event == RejoinEvent::AdminSetting(b) || (event is AdminSettingUnreadable && b),
    ensures
        next matches RejoinState::LoadingFilterLists { saved: s, reassign_admin, fallback }
            && s@ == saved && reassign_admin == b && !fallback,
        action is LoadFilterLists,
{
}

/// On the safe and avoid lists, the first filtering step hands out exactly
/// the saved roles that are not avoided, that are safe when any safe role is
/// configured, that the server places strictly below the bot when it
/// describes them, and that grant Administrator only when the admin setting
/// allows it; when there is no such role it finishes.
pub proof fn lemma_filter_step_hands_out_allowed_roles(
    state: RejoinState,
    event: RejoinEvent,
    ctx: RejoinContext,
    next: RejoinState,
    action: RejoinAction,
    saved: Seq<u64>,
    reassign: bool,
    safe: Seq<u64>,
    avoid: Seq<u64>,
)
    requires
        rejoin_transition(state, event, ctx, next, action),
        state matches RejoinState::LoadingFilterLists { saved: s, reassign_admin, fallback }
            && s@ == saved && reassign_admin == reassign && !fallback,
        event matches RejoinEvent::FilterLists { safe: sf, avoid: av } && sf@ == safe && av@ == avoid,
    ensures
        forall|r: u64|
            (saved.contains(r) && !avoid.contains(r) && (safe.len() == 0 || safe.contains(r)) && (
            ctx.roles@.contains_key(r) ==> ctx.roles@[r].position < ctx.bot_highest_position) && (
            ctx.roles@.contains_key(r) && ctx.roles@[r].has_admin ==> reassign)) <==> (
            #[trigger] handed_out(action).contains(r)),
        action is AssignRoles || action is Finish,
{
    crate::role_filter::lemma_assignable_membership(
        saved,
        safe,
        avoid,
        ctx.bot_highest_position,
        ctx.roles@,
        reassign,
    );
    let kept = assignable_subset(saved, safe, avoid, ctx.bot_highest_position, ctx.roles@, reassign);
    assert(kept_roles(saved, reassign, false, safe, avoid, ctx) == kept);
    assert forall|r: u64|
        saved.contains(r) && !avoid.contains(r) && (safe.len() == 0 || safe.contains(r)) && (
        ctx.roles@.contains_key(r) ==> ctx.roles@[r].position < ctx.bot_highest_position) && (
        ctx.roles@.contains_key(r) && ctx.roles@[r].has_admin ==> reassign) implies #[trigger] handed_out(action).contains(r) by {
        assert(kept.contains(r));
        assert(kept.len() > 0);
    }
}

/// In a run that reads the saved roles `saved`, then the admin setting as
/// `b`, then the safe and avoid lists, the roles handed out are exactly the
/// saved roles that the lists allow, that the server places below the bot
/// when it describes them, and that grant Administrator only if `b`: with
/// the setting enabled, an allowed Administrator role below the bot is given
/// back; with it disabled, none is.
pub proof fn lemma_run_hands_out_by_the_stored_setting(
    states: Seq<RejoinState>,
    events: Seq<RejoinEvent>,
    actions: Seq<RejoinAction>,
    ctx: RejoinContext,
    saved: Seq<u64>,
    b: bool,
    safe: Seq<u64>,
    avoid: Seq<u64>,
)
    requires
        is_rejoin_run(states, events, actions, ctx),
        events.len() >= 3,
        events[0] matches RejoinEvent::SavedRoles(Some(v)) && v@ == saved,
        events[1] == RejoinEvent::AdminSetting(b),
        events[2] matches RejoinEvent::FilterLists { safe: sf, avoid: av } && sf@ == safe && av@
            == avoid,
    ensures
        forall|r: u64|
            (saved.contains(r) && !avoid.contains(r) && (safe.len() == 0 || safe.contains(r)) && (
            ctx.roles@.contains_key(r) ==> ctx.roles@[r].position < ctx.bot_highest_position) && (
            ctx.roles@.contains_key(r) && ctx.roles@[r].has_admin ==> b)) <==> (
            #[trigger] handed_out(actions[3]).contains(r)),
{
    assert(rejoin_transition(states[0], events[0], ctx, states[1], actions[1]));
    assert(rejoin_transition(states[1], events[1], ctx, states[2], actions[2]));
    assert(rejoin_transition(states[2], events[2], ctx, states[3], actions[3]));
    lemma_admin_setting_is_carried(states[1], events[1], ctx, states[2], actions[2], saved, b);
    lemma_filter_step_hands_out_allowed_roles(
        states[2],
        events[2],
        ctx,
        states[3],
        actions[3],
        saved,
        b,
        safe,
        avoid,
    );
}

/// The first state and action of a restoration.
pub fn begin_rejoin() -> (start: (RejoinState, RejoinAction))
    ensures
        start.0 is LookingUpSavedRoles,
        start.1 is LookUpSavedRoles,
{
    (RejoinState::LookingUpSavedRoles, RejoinAction::LookUpSavedRoles)
}

/// Decides the next step of a restoration from the outcome of the last
/// action. Every run ends: each step either finishes or lowers the rank.
/// Roles are handed out only from the saved roles and as the safe and avoid
/// lists allow; the saved roles are deleted only after Discord gave the
/// member their roles.
pub fn rejoin_step(state: RejoinState, event: RejoinEvent, ctx: &RejoinContext) -> (out: (RejoinState, RejoinAction))
    ensures
        rejoin_transition(state, event, *ctx, out.0, out.1),
        out.0 is Done <==> out.1 is Finish,
        out.0 is Done || rejoin_rank(out.0) < rejoin_rank(state),
        out.1 matches RejoinAction::AssignRoles(given) ==> (state matches RejoinState::LoadingFilterLists {
            saved,
            ..
        } && event matches RejoinEvent::FilterLists { safe, avoid } && given@.len() > 0 && forall|r: u64|
            #[trigger] given@.contains(r) ==> saved@.contains(r) && is_restorable(safe@, avoid@, r)),
        out.1 is DeleteSavedRoles ==> (state is LoadingLogChannel || state is SendingLog),
        out.0 is LoadingLogChannel ==> (state is AssigningRoles && event is RolesAssigned),
        out.0 is SendingLog ==> state is LoadingLogChannel,
        out.0 is DeletingSavedRoles ==> (state is LoadingLogChannel || state is SendingLog),
{
    let done = (RejoinState::Done, RejoinAction::Finish);
    match state {
        RejoinState::LookingUpSavedRoles => match event {
            RejoinEvent::SavedRoles(Some(saved)) => (
                RejoinState::LoadingAdminSetting { saved },
                RejoinAction::LoadAdminSetting,
            ),
            _ => done,
        },
        RejoinState::LoadingAdminSetting { saved } => match event {
            RejoinEvent::AdminSetting(reassign_admin) => (
                RejoinState::LoadingFilterLists { saved, reassign_admin, fallback: false },
                RejoinAction::LoadFilterLists,
            ),
            RejoinEvent::AdminSettingUnreadable => (
                RejoinState::LoadingFilterLists { saved, reassign_admin: true, fallback: false },
                RejoinAction::LoadFilterLists,
            ),
            _ => done,
        },
        RejoinState::LoadingFilterLists { saved, reassign_admin, fallback } => match event {
            RejoinEvent::FilterLists { safe, avoid } => {
                let kept = if fallback {
                    restorable_roles(saved.as_slice(), safe.as_slice(), avoid.as_slice())
                } else {
                    let k = assignable_roles(
                        saved.as_slice(),
                        safe.as_slice(),
                        avoid.as_slice(),
                        ctx.bot_highest_position,
                        &ctx.roles,
                        reassign_admin,
                    );
                    proof {
                        assert forall|r: u64| #[trigger] k@.contains(r) implies saved@.contains(r)
                            && is_restorable(safe@, avoid@, r) by {
                            assert(is_assignable(
                                safe@,
                                avoid@,
                                ctx.bot_highest_position,
                                ctx.roles@,
                                reassign_admin,
                                r,
                            ));
                        }
                    }
                    k
                };
                if kept.len() == 0 {
                    done
                } else {
                    let given = kept.clone();
                    (RejoinState::AssigningRoles { roles: kept }, RejoinAction::AssignRoles(given))
                }
            },
            RejoinEvent::FilterListsUnreadable => if fallback {
                done
            } else {
                (
                    RejoinState::LoadingFilterLists { saved, reassign_admin, fallback: true },
                    RejoinAction::LoadFilterLists,
                )
            },
            _ => done,
        },
        RejoinState::AssigningRoles { roles } => match event {
            RejoinEvent::RolesAssigned => (
                RejoinState::LoadingLogChannel { roles },
                RejoinAction::LoadLogChannel,
            ),
            _ => done,
        },
        RejoinState::LoadingLogChannel { roles } => match event {
            RejoinEvent::LogChannel(Some(channel)) => {
                let text = mentions_text(roles.as_slice(), ", ");
                (RejoinState::SendingLog, RejoinAction::SendLog { channel, text })
            },
            RejoinEvent::LogChannel(None) | RejoinEvent::LogChannelUnreadable => (
                RejoinState::DeletingSavedRoles,
                RejoinAction::DeleteSavedRoles,
            ),
            _ => done,
        },
        RejoinState::SendingLog => match event {
            RejoinEvent::LogSendFinished => (
                RejoinState::DeletingSavedRoles,
                RejoinAction::DeleteSavedRoles,
            ),
            _ => done,
        },
        RejoinState::DeletingSavedRoles => done,
        RejoinState::Done => done,
    }
}

} // verus!
