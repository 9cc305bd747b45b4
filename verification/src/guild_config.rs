//! The per-server configuration and the columns it is stored in.

use crate::role_codec::{decode_role_list, json_u64_list, parsed_or_empty, json_array_text};
use crate::role_filter::without;
use vstd::prelude::*;

verus! {

/// The configuration of one server.
pub struct GuildConfig {
    /// Roles that are restored (all roles when empty).
    pub safe_roles: Vec<u64>,
    /// Roles that are never restored.
    pub avoid_roles: Vec<u64>,
    /// Channel where restorations are announced.
    pub log_channel_id: Option<u64>,
    /// Whether roles that grant Administrator may be given back.
    pub reassign_admin_roles: bool,
}

/// The integer column that stores the id `id` (two's complement).
pub open spec fn column_of_id(id: u64) -> i64 {
    if id <= i64::MAX as u64 {
        id as i64
    } else {
        (id - 0x1_0000_0000_0000_0000) as i64
    }
}

/// The id that the integer column `c` stores (two's complement).
pub open spec fn id_of_column(c: i64) -> u64 {
    if c >= 0 {
        c as u64
    } else {
        (c + 0x1_0000_0000_0000_0000) as u64
    }
}

/// The column value for an id, as `id as i64` gives it.
pub fn id_to_column(id: u64) -> (c: i64)
    ensures
        c == column_of_id(id),
{
    proof {
        assert(id > 0x7fff_ffff_ffff_ffff ==> id as i64 == id - 0x1_0000_0000_0000_0000)
            by (bit_vector);
    }
    id as i64
}

/// The id in a column value, as `c as u64` gives it.
pub fn column_to_id(c: i64) -> (id: u64)
    ensures
        id == id_of_column(c),
{
    proof {
        assert(c < 0 ==> c as u64 == c + 0x1_0000_0000_0000_0000) by (bit_vector);
    }
    c as u64
}

/// Storing an id in an integer column and reading it back gives the same id,
/// and every column value is the column of exactly one id.
pub proof fn lemma_id_column_round_trip(id: u64, c: i64)
    ensures
        id_of_column(column_of_id(id)) == id,
        column_of_id(id_of_column(c)) == c,
{
}

/// What a role-list column reads as: no roles for a missing row, else the
/// stored list (no roles if it does not parse).
pub open spec fn stored_roles(column: Option<Seq<char>>) -> Seq<u64> {
    match column {
        None => Seq::empty(),
        Some(text) => parsed_or_empty(json_u64_list(text)),
    }
}

/// The safe or avoid roles of a server from its row's column (`None` when the
/// server has no row).
pub fn roles_of_column(column: Option<String>) -> (ids: Vec<u64>)
    ensures
        ids@ == stored_roles(
            match column {
                Some(t) => Some(t@),
                None => None,
            },
        ),
        forall|saved: Seq<u64>|
            column matches Some(t) && #[trigger] json_array_text(saved) == t@ ==> ids@ == saved,
{
    match column {
        Some(text) => decode_role_list(text.as_str()),
        None => Vec::new(),
    }
}

/// The roles saved for a member from their row (`None` when none were saved).
pub fn saved_roles_of_column(column: Option<String>) -> (saved: Option<Vec<u64>>)
    ensures
        saved is Some <==> column is Some,
        column matches Some(t) ==> saved->Some_0@ == parsed_or_empty(json_u64_list(t@)),
        forall|ids: Seq<u64>|
            column matches Some(t) && #[trigger] json_array_text(ids) == t@ ==> saved->Some_0@
                == ids,
{
    match column {
        Some(text) => Some(decode_role_list(text.as_str())),
        None => None,
    }
}

/// The log channel of a server from its row: `None` for a missing row or an
/// empty column.
pub fn log_channel_of_column(row: Option<Option<i64>>) -> (channel: Option<u64>)
    ensures
        channel == match row {
            Some(Some(c)) => Some(id_of_column(c)),
            _ => None,
        },
{
    match row {
        Some(Some(c)) => Some(column_to_id(c)),
        _ => None,
    }
}

/// The column value that stores a log channel.
pub fn log_channel_column(channel: Option<u64>) -> (column: Option<i64>)
    ensures
        column == match channel {
            Some(id) => Some(column_of_id(id)),
            None => None,
        },
{
    match channel {
        Some(id) => Some(id_to_column(id)),
        None => None,
    }
}

/// Whether admin roles may be re-assigned, from a server's row (`None` when it
/// has no row): any non-zero value enables it, and a server without a row
/// has it enabled.
pub fn reassign_admin_of_column(row: Option<i64>) -> (enabled: bool)
    ensures
        enabled == match row {
            Some(v) => v != 0,
            None => true,
        },
{
    match row {
        Some(v) => v != 0,
        None => true,
    }
}

impl GuildConfig {
    /// The configuration shown for a server from what could be read of it;
    /// a part that could not be read shows as empty, unset, or (for the
    /// admin setting) enabled.
    pub fn from_reads(
        safe_roles: Option<Vec<u64>>,
        avoid_roles: Option<Vec<u64>>,
        log_channel_id: Option<Option<u64>>,
        reassign_admin_roles: Option<bool>,
    ) -> (config: GuildConfig)
        ensures
            config.safe_roles@ == match safe_roles {
                Some(v) => v@,
                None => Seq::<u64>::empty(),
            },
            config.avoid_roles@ == match avoid_roles {
                Some(v) => v@,
                None => Seq::<u64>::empty(),
            },
            config.log_channel_id == match log_channel_id {
                Some(c) => c,
                None => None,
            },
            config.reassign_admin_roles == match reassign_admin_roles {
                Some(b) => b,
                None => true,
            },
    {
        GuildConfig {
            safe_roles: match safe_roles {
                Some(v) => v,
                None => Vec::new(),
            },
            avoid_roles: match avoid_roles {
                Some(v) => v,
                None => Vec::new(),
            },
            log_channel_id: match log_channel_id {
                Some(c) => c,
                None => None,
            },
            reassign_admin_roles: match reassign_admin_roles {
                Some(b) => b,
                None => true,
            },
        }
    }
}

/// The admin setting after the admin button is pressed: the opposite of the
/// current one (a setting that could not be read counts as enabled).
pub fn toggled_admin_setting(current: Option<bool>) -> (next: bool)
    ensures
        next == match current {
            Some(b) => !b,
            None => false,
        },
{
    let current = match current {
        Some(b) => b,
        None => true,
    };
    !current
}

/// Choosing roles in one list takes them off the other: once the safe roles
/// are set to `selected` and the avoid list to `without(avoid, selected)`
/// (or the other way round), no role is in both lists.
pub proof fn lemma_selection_keeps_lists_exclusive(selected: Seq<u64>, other: Seq<u64>)
    ensures
        forall|r: u64|
            #![trigger selected.contains(r), without(other, selected).contains(r)]
            selected.contains(r) ==> !without(other, selected).contains(r),
{
    broadcast use vstd::seq_lib::group_filter_ensures;

    let p = crate::role_filter::outside_pred(selected);
    assert forall|r: u64| selected.contains(r) implies !without(other, selected).contains(r) by {
        if without(other, selected).contains(r) {
            let k = choose|k: int| 0 <= k < other.filter(p).len() && other.filter(p)[k] == r;
            assert(p(other.filter(p)[k]));
        }
    }
}

} // verus!
