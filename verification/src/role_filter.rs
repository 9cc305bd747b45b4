//! Which saved roles a returning member gets back.

use std::collections::HashMap;
use vstd::prelude::*;

verus! {

broadcast use vstd::std_specs::hash::group_hash_axioms;

/// What the restoration rules know of a role of the server.
pub struct RoleInfo {
    pub name: String,
    /// Place of the role in the server's hierarchy (higher is more powerful).
    pub position: i64,
    /// Whether the role grants the Administrator permission.
    pub has_admin: bool,
}

/// Whether the safe and avoid lists of a server let role `r` be restored:
/// it is not an avoid role, and either no safe role is configured or it is
/// one of them.
pub open spec fn is_restorable(safe: Seq<u64>, avoid: Seq<u64>, r: u64) -> bool {
    (safe.len() == 0 || safe.contains(r)) && !avoid.contains(r)
}

/// `is_restorable` as a predicate on roles.
pub open spec fn restorable_pred(safe: Seq<u64>, avoid: Seq<u64>) -> spec_fn(u64) -> bool {
    |r: u64| is_restorable(safe, avoid, r)
}

/// The saved roles, in their order, that the safe and avoid lists allow.
pub open spec fn restorable_subset(saved: Seq<u64>, safe: Seq<u64>, avoid: Seq<u64>) -> Seq<u64> {
    saved.filter(restorable_pred(safe, avoid))
}

/// Whether role `r` may be given back: the safe and avoid lists allow it, it
/// lies below the bot's highest role, and, unless admin roles may be
/// re-assigned, it does not grant the Administrator permission. A role that
/// the server does not describe is judged by the lists alone.
pub open spec fn is_assignable(
    safe: Seq<u64>,
    avoid: Seq<u64>,
    bot_position: i64,
    roles: Map<u64, RoleInfo>,
    reassign_admin: bool,
    r: u64,
) -> bool {
    &&& is_restorable(safe, avoid, r)
    &&& roles.contains_key(r) ==> roles[r].position < bot_position
    &&& (roles.contains_key(r) && !reassign_admin) ==> !roles[r].has_admin
}

/// `is_assignable` as a predicate on roles.
pub open spec fn assignable_pred(
    safe: Seq<u64>,
    avoid: Seq<u64>,
    bot_position: i64,
    roles: Map<u64, RoleInfo>,
    reassign_admin: bool,
) -> spec_fn(u64) -> bool {
    |r: u64| is_assignable(safe, avoid, bot_position, roles, reassign_admin, r)
}

/// The saved roles, in their order, that may be given back.
pub open spec fn assignable_subset(
    saved: Seq<u64>,
    safe: Seq<u64>,
    avoid: Seq<u64>,
    bot_position: i64,
    roles: Map<u64, RoleInfo>,
    reassign_admin: bool,
) -> Seq<u64> {
    saved.filter(assignable_pred(safe, avoid, bot_position, roles, reassign_admin))
}

/// The predicate "not one of `removed`".
pub open spec fn outside_pred(removed: Seq<u64>) -> spec_fn(u64) -> bool {
    |r: u64| !removed.contains(r)
}

/// The roles of `list`, in their order, that are not in `removed`.
pub open spec fn without(list: Seq<u64>, removed: Seq<u64>) -> Seq<u64> {
    list.filter(outside_pred(removed))
}

/// The highest position among the bot's roles that the server describes;
/// `i64::MIN` when it describes none of them.
pub open spec fn highest_position(bot_roles: Seq<u64>, roles: Map<u64, RoleInfo>) -> i64
    decreases bot_roles.len(),
{
    if bot_roles.len() == 0 {
        i64::MIN
    } else {
        let rest = highest_position(bot_roles.drop_last(), roles);
        let r = bot_roles.last();
        if roles.contains_key(r) && roles[r].position > rest {
            roles[r].position
        } else {
            rest
        }
    }
}

/// The position below which the bot may hand out roles: the highest position
/// of its roles, or `i64::MAX` (no limit) when the bot is not known or none
/// of its roles is.
pub open spec fn bot_rank(bot_roles: Option<Seq<u64>>, roles: Map<u64, RoleInfo>) -> i64 {
    match bot_roles {
        None => i64::MAX,
        Some(b) => if highest_position(b, roles) == i64::MIN {
            i64::MAX
        } else {
            highest_position(b, roles)
        },
    }
}

/// The roles to store for a member who left: the roles the departure event
/// carried, else those the cache held, else none.
pub open spec fn departure_roles(member_roles: Option<Seq<u64>>, cached_roles: Option<Seq<u64>>) -> Seq<u64> {
    match member_roles {
        Some(r) => r,
        None => match cached_roles {
            Some(r) => r,
            None => Seq::empty(),
        },
    }
}

/// The lists alone give back exactly the saved roles that are not avoid
/// roles and, when any safe role is configured, are safe roles.
pub proof fn lemma_restorable_membership(saved: Seq<u64>, safe: Seq<u64>, avoid: Seq<u64>)
    ensures
        forall|r: u64| #[trigger]
            restorable_subset(saved, safe, avoid).contains(r) <==> (saved.contains(r) && !avoid.contains(
                r,
            ) && (safe.len() == 0 || safe.contains(r))),
        safe.len() > 0 ==> forall|r: u64| #[trigger]
            restorable_subset(saved, safe, avoid).contains(r) ==> safe.contains(r),
{
    broadcast use vstd::seq_lib::group_filter_ensures;

    let p = restorable_pred(safe, avoid);
    assert forall|r: u64| #[trigger] saved.filter(p).contains(r) implies saved.contains(r)
        && !avoid.contains(r) && (safe.len() == 0 || safe.contains(r)) by {
        let k = choose|k: int| 0 <= k < saved.filter(p).len() && saved.filter(p)[k] == r;
        assert(p(saved.filter(p)[k]));
        saved.lemma_filter_contains_rev(p, r);
    }
    assert forall|r: u64| saved.contains(r) && !avoid.contains(r) && (safe.len() == 0 || safe.contains(r))
        implies #[trigger] saved.filter(p).contains(r) by {
        let k = choose|k: int| 0 <= k < saved.len() && saved[k] == r;
        assert(p(saved[k]));
        assert(saved.filter(p).contains(saved[k]));
    }
}

/// The full rules give back exactly the saved roles that the lists allow
/// (not avoided; safe when any safe role is configured), that lie strictly
/// below the bot's highest position when the server describes them, and that
/// grant Administrator only when admin roles may be re-assigned.
pub proof fn lemma_assignable_membership(
    saved: Seq<u64>,
    safe: Seq<u64>,
    avoid: Seq<u64>,
    bot_position: i64,
    roles: Map<u64, RoleInfo>,
    reassign_admin: bool,
)
    ensures
        forall|r: u64| #[trigger]
            assignable_subset(saved, safe, avoid, bot_position, roles, reassign_admin).contains(r)
                <==> (saved.contains(r) && !avoid.contains(r) && (safe.len() == 0 || safe.contains(r))
                && (roles.contains_key(r) ==> roles[r].position < bot_position) && (
            roles.contains_key(r) && roles[r].has_admin ==> reassign_admin)),
{
    broadcast use vstd::seq_lib::group_filter_ensures;

    let p = assignable_pred(safe, avoid, bot_position, roles, reassign_admin);
    assert forall|r: u64| #[trigger] saved.filter(p).contains(r) implies saved.contains(r)
        && !avoid.contains(r) && (safe.len() == 0 || safe.contains(r)) && (roles.contains_key(r)
        ==> roles[r].position < bot_position) && (roles.contains_key(r) && roles[r].has_admin
        ==> reassign_admin) by {
        let k = choose|k: int| 0 <= k < saved.filter(p).len() && saved.filter(p)[k] == r;
        assert(p(saved.filter(p)[k]));
        saved.lemma_filter_contains_rev(p, r);
    }
    assert forall|r: u64|
        saved.contains(r) && !avoid.contains(r) && (safe.len() == 0 || safe.contains(r)) && (
        roles.contains_key(r) ==> roles[r].position < bot_position) && (roles.contains_key(r)
            && roles[r].has_admin ==> reassign_admin) implies #[trigger] saved.filter(p).contains(
        r,
    ) by {
        let k = choose|k: int| 0 <= k < saved.len() && saved[k] == r;
        assert(p(saved[k]));
        assert(saved.filter(p).contains(saved[k]));
    }
}

proof fn lemma_highest_position_bounds(bot_roles: Seq<u64>, roles: Map<u64, RoleInfo>)
    ensures
        forall|j: int|
            0 <= j < bot_roles.len() && roles.contains_key(#[trigger] bot_roles[j])
                ==> roles[bot_roles[j]].position <= highest_position(bot_roles, roles),
        highest_position(bot_roles, roles) == i64::MIN || exists|j: int|
            0 <= j < bot_roles.len() && roles.contains_key(#[trigger] bot_roles[j])
                && roles[bot_roles[j]].position == highest_position(bot_roles, roles),
    decreases bot_roles.len(),
{
    if bot_roles.len() > 0 {
        let rest = bot_roles.drop_last();
        lemma_highest_position_bounds(rest, roles);
        assert forall|j: int|
            0 <= j < bot_roles.len() && roles.contains_key(#[trigger] bot_roles[j]) implies roles[bot_roles[j]].position
            <= highest_position(bot_roles, roles) by {
            if j < bot_roles.len() - 1 {
                assert(bot_roles[j] == rest[j]);
            }
        }
        if highest_position(bot_roles, roles) != i64::MIN {
            if highest_position(bot_roles, roles) == highest_position(rest, roles) {
                let j = choose|j: int|
                    0 <= j < rest.len() && roles.contains_key(#[trigger] rest[j])
                        && roles[rest[j]].position == highest_position(rest, roles);
                assert(bot_roles[j] == rest[j]);
            } else {
                assert(roles.contains_key(bot_roles[bot_roles.len() - 1]));
            }
        }
    }
}

/// The rank below which the bot hands out roles is the highest position of
/// the bot's roles that the server describes: at least the position of each
/// of them, and the position of one of them; it is unlimited (`i64::MAX`)
/// when the bot is unknown, when the server describes none of its roles, or
/// when the highest of them sits at `i64::MIN`.
pub proof fn lemma_bot_rank_is_highest_position(bot_roles: Option<Seq<u64>>, roles: Map<u64, RoleInfo>)
    ensures
        bot_roles is None ==> bot_rank(bot_roles, roles) == i64::MAX,
        bot_roles matches Some(b) ==> forall|j: int|
            0 <= j < b.len() && roles.contains_key(#[trigger] b[j]) ==> roles[b[j]].position
                <= bot_rank(bot_roles, roles),
        bot_roles matches Some(b) ==> (bot_rank(bot_roles, roles) == i64::MAX || exists|j: int|
            0 <= j < b.len() && roles.contains_key(#[trigger] b[j]) && roles[b[j]].position
                == bot_rank(bot_roles, roles)),
        bot_roles matches Some(b) ==> ((exists|j: int|
            0 <= j < b.len() && roles.contains_key(#[trigger] b[j]) && roles[b[j]].position
                > i64::MIN) ==> exists|j: int|
            0 <= j < b.len() && roles.contains_key(#[trigger] b[j]) && roles[b[j]].position
                == bot_rank(bot_roles, roles)),
{
    if let Some(b) = bot_roles {
        lemma_highest_position_bounds(b, roles);
    }
}

/// Every role that the full rules let through, the safe and avoid lists let
/// through: the filter used on rejoin never gives back more than the lists
/// alone would.
pub proof fn lemma_assignable_within_restorable(
    saved: Seq<u64>,
    safe: Seq<u64>,
    avoid: Seq<u64>,
    bot_position: i64,
    roles: Map<u64, RoleInfo>,
    reassign_admin: bool,
)
    ensures
        forall|r: u64| #[trigger]
            assignable_subset(saved, safe, avoid, bot_position, roles, reassign_admin).contains(r)
                ==> restorable_subset(saved, safe, avoid).contains(r),
{
    broadcast use vstd::seq_lib::group_filter_ensures;

    let pa = assignable_pred(safe, avoid, bot_position, roles, reassign_admin);
    let pr = restorable_pred(safe, avoid);
    assert forall|r: u64| #[trigger] saved.filter(pa).contains(r) implies saved.filter(pr).contains(r) by {
        let k = choose|k: int| 0 <= k < saved.filter(pa).len() && saved.filter(pa)[k] == r;
        assert(pa(saved.filter(pa)[k]));
        saved.lemma_filter_contains_rev(pa, r);
        let j = choose|j: int| 0 <= j < saved.len() && saved[j] == r;
        assert(pr(saved[j]));
    }
}

proof fn lemma_filter_refines(s: Seq<u64>, p: spec_fn(u64) -> bool, q: spec_fn(u64) -> bool)
    requires
        forall|x: u64| #[trigger] p(x) ==> q(x),
    ensures
        s.filter(p) == s.filter(q).filter(p),
    decreases s.len(),
{
    if s.len() > 0 {
        let rest = s.drop_last();
        let last = s.last();
        lemma_filter_refines(rest, p, q);
        assert(s =~= rest.push(last));
        rest.lemma_filter_push(last, p);
        rest.lemma_filter_push(last, q);
        if q(last) {
            rest.filter(q).lemma_filter_push(last, p);
        }
    } else {
        reveal(Seq::filter);
    }
}

proof fn lemma_filter_agrees(s: Seq<u64>, p: spec_fn(u64) -> bool, q: spec_fn(u64) -> bool)
    requires
        forall|x: u64| s.contains(x) ==> p(x) == q(x),
    ensures
        s.filter(p) == s.filter(q),
    decreases s.len(),
{
    if s.len() > 0 {
        let rest = s.drop_last();
        let last = s.last();
        assert(s =~= rest.push(last));
        assert forall|x: u64| rest.contains(x) implies p(x) == q(x) by {
            let k = choose|k: int| 0 <= k < rest.len() && rest[k] == x;
            assert(s[k] == x);
            assert(s.contains(x));
        }
        lemma_filter_agrees(rest, p, q);
        assert(s[s.len() - 1] == last);
        assert(s.contains(last));
        rest.lemma_filter_push(last, p);
        rest.lemma_filter_push(last, q);
    } else {
        reveal(Seq::filter);
    }
}

/// The roles that the full rules give back are the roles that the safe and
/// avoid lists give back, in the same order, less those that the hierarchy
/// or the admin setting holds back: an ordered subsequence of them. When the
/// server describes none of the saved roles, both are the same.
pub proof fn lemma_assignable_is_ordered_part_of_restorable(
    saved: Seq<u64>,
    safe: Seq<u64>,
    avoid: Seq<u64>,
    bot_position: i64,
    roles: Map<u64, RoleInfo>,
    reassign_admin: bool,
)
    ensures
        assignable_subset(saved, safe, avoid, bot_position, roles, reassign_admin)
            == restorable_subset(saved, safe, avoid).filter(
            assignable_pred(safe, avoid, bot_position, roles, reassign_admin),
        ),
        (forall|r: u64| saved.contains(r) ==> !roles.contains_key(r)) ==> assignable_subset(
            saved,
            safe,
            avoid,
            bot_position,
            roles,
            reassign_admin,
        ) == restorable_subset(saved, safe, avoid),
{
    let pa = assignable_pred(safe, avoid, bot_position, roles, reassign_admin);
    let pr = restorable_pred(safe, avoid);
    assert forall|x: u64| #[trigger] pa(x) implies pr(x) by {}
    lemma_filter_refines(saved, pa, pr);
    if forall|r: u64| saved.contains(r) ==> !roles.contains_key(r) {
        assert forall|x: u64| saved.contains(x) implies pa(x) == pr(x) by {}
        lemma_filter_agrees(saved, pa, pr);
    }
}

/// Raising the bot's highest position, or allowing admin roles, never takes
/// a role away: the roles given back under the lower position (or with admin
/// roles held back) are those given back under the higher one (or with admin
/// roles allowed), in the same order, less some.
pub proof fn lemma_more_rank_or_admin_keeps_roles(
    saved: Seq<u64>,
    safe: Seq<u64>,
    avoid: Seq<u64>,
    lower_position: i64,
    higher_position: i64,
    roles: Map<u64, RoleInfo>,
    reassign_before: bool,
    reassign_after: bool,
)
    requires
        lower_position <= higher_position,
        reassign_before ==> reassign_after,
    ensures
        assignable_subset(saved, safe, avoid, lower_position, roles, reassign_before)
            == assignable_subset(saved, safe, avoid, higher_position, roles, reassign_after).filter(
            assignable_pred(safe, avoid, lower_position, roles, reassign_before),
        ),
        forall|r: u64| #[trigger]
            assignable_subset(saved, safe, avoid, lower_position, roles, reassign_before).contains(r)
                ==> assignable_subset(
                saved,
                safe,
                avoid,
                higher_position,
                roles,
                reassign_after,
            ).contains(r),
{
    broadcast use vstd::seq_lib::group_filter_ensures;

    let before = assignable_pred(safe, avoid, lower_position, roles, reassign_before);
    let after = assignable_pred(safe, avoid, higher_position, roles, reassign_after);
    assert forall|x: u64| #[trigger] before(x) implies after(x) by {}
    lemma_filter_refines(saved, before, after);
    assert forall|r: u64| #[trigger] saved.filter(before).contains(r) implies saved.filter(
        after,
    ).contains(r) by {
        saved.filter(after).lemma_filter_contains_rev(before, r);
    }
}

/// Whether `id` occurs in `list`.
pub fn contains_id(list: &[u64], id: u64) -> (found: bool)
    ensures
        found == list@.contains(id),
{
    let mut i: usize = 0;
    while i < list.len()
        invariant
            i <= list.len(),
            forall|j: int| 0 <= j < i ==> list@[j] != id,
        decreases list.len() - i,
    {
        if list[i] == id {
            return true;
        }
        i += 1;
    }
    false
}

/// Keeps the saved roles that the safe and avoid lists allow, in their order.
pub fn restorable_roles(saved: &[u64], safe: &[u64], avoid: &[u64]) -> (kept: Vec<u64>)
    ensures
        kept@ == restorable_subset(saved@, safe@, avoid@),
        forall|r: u64| #[trigger]
            kept@.contains(r) ==> saved@.contains(r) && is_restorable(safe@, avoid@, r),
        forall|r: u64|
            saved@.contains(r) && is_restorable(safe@, avoid@, r) ==> #[trigger] kept@.contains(r),
{
    let mut kept: Vec<u64> = Vec::new();
    let mut i: usize = 0;
    while i < saved.len()
        invariant
            i <= saved.len(),
            kept@ == restorable_subset(saved@.take(i as int), safe@, avoid@),
        decreases saved.len() - i,
    {
        let r = saved[i];
        let is_safe = safe.len() == 0 || contains_id(safe, r);
        let is_not_avoided = !contains_id(avoid, r);
        if is_safe && is_not_avoided {
            kept.push(r);
        }
        proof {
            assert(saved@.take(i + 1) =~= saved@.take(i as int).push(r));
            saved@.take(i as int).lemma_filter_push(r, restorable_pred(safe@, avoid@));
        }
        i += 1;
    }
    assert(saved@.take(saved.len() as int) =~= saved@);
    proof {
        broadcast use vstd::seq_lib::group_filter_ensures;
        let p = restorable_pred(safe@, avoid@);
        assert forall|r: u64| #[trigger] kept@.contains(r) implies saved@.contains(r)
            && is_restorable(safe@, avoid@, r) by {
            let k = choose|k: int| 0 <= k < kept@.len() && kept@[k] == r;
            assert(p(saved@.filter(p)[k]));
            saved@.lemma_filter_contains_rev(p, r);
        }
        assert forall|r: u64| saved@.contains(r) && is_restorable(safe@, avoid@, r) implies #[trigger]
            kept@.contains(r) by {
            let k = choose|k: int| 0 <= k < saved@.len() && saved@[k] == r;
            assert(saved@.filter(p).contains(saved@[k]));
        }
    }
    kept
}


/// Keeps the saved roles that may be given back, in their order: those the
/// safe and avoid lists allow, that lie below `bot_highest_position`, and,
/// unless `reassign_admin_roles`, that do not grant Administrator.
pub fn assignable_roles(
    saved: &[u64],
    safe: &[u64],
    avoid: &[u64],
    bot_highest_position: i64,
    roles: &HashMap<u64, RoleInfo>,
    reassign_admin_roles: bool,
) -> (kept: Vec<u64>)
    ensures
        kept@ == assignable_subset(
            saved@,
            safe@,
            avoid@,
            bot_highest_position,
            roles@,
            reassign_admin_roles,
        ),
        forall|r: u64| #[trigger]
            kept@.contains(r) ==> saved@.contains(r) && is_assignable(
                safe@,
                avoid@,
                bot_highest_position,
                roles@,
                reassign_admin_roles,
                r,
            ),
        forall|r: u64|
            saved@.contains(r) && is_assignable(
                safe@,
                avoid@,
                bot_highest_position,
                roles@,
                reassign_admin_roles,
                r,
            ) ==> #[trigger] kept@.contains(r),
{
    let ghost p = assignable_pred(safe@, avoid@, bot_highest_position, roles@, reassign_admin_roles);
    let mut kept: Vec<u64> = Vec::new();
    let mut i: usize = 0;
    while i < saved.len()
        invariant
            i <= saved.len(),
            p == assignable_pred(safe@, avoid@, bot_highest_position, roles@, reassign_admin_roles),
            kept@ == saved@.take(i as int).filter(p),
        decreases saved.len() - i,
    {
        let r = saved[i];
        let is_safe = safe.len() == 0 || contains_id(safe, r);
        let is_not_avoided = !contains_id(avoid, r);
        let mut keep = is_safe && is_not_avoided;
        if keep {
            match roles.get(&r) {
                Some(info) => {
                    if info.position >= bot_highest_position {
                        keep = false;
                    } else if !reassign_admin_roles && info.has_admin {
                        keep = false;
                    }
                },
                None => {},
            }
        }
        assert(keep == p(r));
        if keep {
            kept.push(r);
        }
        proof {
            assert(saved@.take(i + 1) =~= saved@.take(i as int).push(r));
            saved@.take(i as int).lemma_filter_push(r, p);
        }
        i += 1;
    }
    assert(saved@.take(saved.len() as int) =~= saved@);
    proof {
        broadcast use vstd::seq_lib::group_filter_ensures;

        assert forall|r: u64| #[trigger] kept@.contains(r) implies saved@.contains(r) && p(r) by {
            let k = choose|k: int| 0 <= k < kept@.len() && kept@[k] == r;
            assert(p(saved@.filter(p)[k]));
            saved@.lemma_filter_contains_rev(p, r);
        }
        assert forall|r: u64| saved@.contains(r) && p(r) implies #[trigger] kept@.contains(r) by {
            let k = choose|k: int| 0 <= k < saved@.len() && saved@[k] == r;
            assert(saved@.filter(p).contains(saved@[k]));
        }
    }
    kept
}

/// Removes from `list` every role of `removed`, keeping the order of the rest.
pub fn without_roles(list: &[u64], removed: &[u64]) -> (rest: Vec<u64>)
    ensures
        rest@ == without(list@, removed@),
        forall|r: u64| #[trigger] rest@.contains(r) <==> list@.contains(r) && !removed@.contains(r),
{
    let ghost p = outside_pred(removed@);
    let mut rest: Vec<u64> = Vec::new();
    let mut i: usize = 0;
    while i < list.len()
        invariant
            i <= list.len(),
            p == outside_pred(removed@),
            rest@ == list@.take(i as int).filter(p),
        decreases list.len() - i,
    {
        let r = list[i];
        if !contains_id(removed, r) {
            rest.push(r);
        }
        proof {
            assert(list@.take(i + 1) =~= list@.take(i as int).push(r));
            list@.take(i as int).lemma_filter_push(r, p);
        }
        i += 1;
    }
    assert(list@.take(list.len() as int) =~= list@);
    proof {
        broadcast use vstd::seq_lib::group_filter_ensures;

        assert forall|r: u64| #[trigger] rest@.contains(r) implies list@.contains(r) && p(r) by {
            let k = choose|k: int| 0 <= k < rest@.len() && rest@[k] == r;
            assert(p(list@.filter(p)[k]));
            list@.lemma_filter_contains_rev(p, r);
        }
        assert forall|r: u64| list@.contains(r) && p(r) implies #[trigger] rest@.contains(r) by {
            let k = choose|k: int| 0 <= k < list@.len() && list@[k] == r;
            assert(list@.filter(p).contains(list@[k]));
        }
    }
    rest
}

/// The position below which the bot may hand out roles, from the roles the
/// bot holds (`None` when the bot is not in the server's cache).
pub fn bot_highest_role_position(bot_roles: Option<&[u64]>, roles: &HashMap<u64, RoleInfo>) -> (rank: i64)
    ensures
        rank == bot_rank(
            match bot_roles {
                Some(b) => Some(b@),
                None => None,
            },
            roles@,
        ),
{
    let mut highest: i64 = i64::MIN;
    match bot_roles {
        Some(held) => {
            let mut i: usize = 0;
            while i < held.len()
                invariant
                    i <= held.len(),
                    highest == highest_position(held@.take(i as int), roles@),
                decreases held.len() - i,
            {
                let r = held[i];
                match roles.get(&r) {
                    Some(info) => {
                        if info.position > highest {
                            highest = info.position;
                        }
                    },
                    None => {},
                }
                assert(held@.take(i + 1).drop_last() =~= held@.take(i as int));
                i += 1;
            }
            assert(held@.take(held.len() as int) =~= held@);
        },
        None => {},
    }
    if highest == i64::MIN {
        highest = i64::MAX;
    }
    highest
}

/// The roles to store for a member who left, or `None` when there are none:
/// the roles the departure event carried, else those the cache held.
pub fn roles_to_save(member_roles: Option<Vec<u64>>, cached_roles: Option<Vec<u64>>) -> (to_save: Option<Vec<u64>>)
    ensures
        ({
            let chosen = departure_roles(
                match member_roles {
                    Some(v) => Some(v@),
                    None => None,
                },
                match cached_roles {
                    Some(v) => Some(v@),
                    None => None,
                },
            );
            &&& to_save is Some <==> chosen.len() > 0
            &&& to_save matches Some(v) ==> v@ == chosen
        }),
{
    let roles = match member_roles {
        Some(r) => r,
        None => match cached_roles {
            Some(r) => r,
            None => Vec::new(),
        },
    };
    if roles.len() > 0 {
        Some(roles)
    } else {
        None
    }
}

} // verus!
