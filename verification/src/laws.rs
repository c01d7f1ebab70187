//! The engine's general laws, stated over the same specification functions
//! its contracts use, and proved once and for all.

use vstd::prelude::*;

use crate::identities::Identity;
use crate::player::{Character, Player, PlayerId, Seat};
use crate::roles::Role;
use crate::state::{
    lemma_mark_props, sat_add_u32, spec_actors_for, spec_angel_cleanup, spec_assign,
    spec_charless_upto, spec_check_wincons, spec_clear_seats, spec_count_charless,
    spec_current_actors, spec_free_ids, spec_free_roles, spec_gain, spec_go_rel, spec_go_result,
    spec_held_ids_upto, spec_held_roles_upto, spec_join, spec_kill, spec_mediated, spec_quit,
    spec_redirect, spec_seat_of, spec_seats_with_role, spec_step_rel, spec_validate,
    spec_victor_seats, spec_with_upto, Action, GameError, GameView, IngameInput, Input, MetaInput,
};
use vstd::multiset::Multiset;

verus! {

broadcast use vstd::multiset::group_multiset_axioms, vstd::seq_lib::group_to_multiset_ensures;

/// Law (shield decay): a seat shielded this cycle stays shielded through
/// exactly one more end-of-cycle cleanup, and the second cleanup clears it,
/// when no new veto intervenes.
pub proof fn lemma_shield_decay(s: GameView, seat: Seat)
    requires
        s.shielded == Some(seat),
        s.shield_is_current,
    ensures
        spec_angel_cleanup(s).shielded == Some(seat),
        !spec_angel_cleanup(s).shield_is_current,
        spec_angel_cleanup(spec_angel_cleanup(s)).shielded is None,
{
}

/// In a roster whose seats all lack a character, every prefix counts fully
/// as unassigned and nothing is held.
proof fn lemma_all_unassigned(players: Seq<Player>, n: int)
    requires
        0 <= n <= players.len(),
        forall|i: int| 0 <= i < players.len() ==> (#[trigger] players[i]).character is None,
    ensures
        spec_charless_upto(players, n) == n,
        spec_held_roles_upto(players, n) == Seq::<Role>::empty(),
        spec_held_ids_upto(players, n) == Seq::<Identity>::empty(),
    decreases n,
{
    if n > 0 {
        lemma_all_unassigned(players, n - 1);
    }
}

/// Taking nothing away from a multiset leaves it unchanged.
proof fn lemma_sub_empty<T>(m: Multiset<T>)
    ensures
        m.sub(Multiset::<T>::empty()) == m,
{
    assert(m.sub(Multiset::<T>::empty()) =~= m);
}

/// Law (allocation insufficiency): a lobby of eleven players, none of whom
/// holds a character, cannot start a round — only ten role slots exist, so
/// `Go` is rejected and, by the engine's contract, leaves the state alone.
pub proof fn lemma_allocation_insufficiency(s: GameView)
    requires
        s.phase is None,
        s.players.len() == 11,
        forall|i: int| 0 <= i < s.players.len() ==> (#[trigger] s.players[i]).character is None,
    ensures
        spec_validate(s, Input::Meta(MetaInput::Go)) == Some(GameError::NotEnoughAttributes),
{
    lemma_all_unassigned(s.players, s.players.len() as int);
    assert(Seq::<Role>::empty().to_multiset() =~= Multiset::<Role>::empty());
    assert(Seq::<Identity>::empty().to_multiset() =~= Multiset::<Identity>::empty());
    lemma_sub_empty(Role::spec_pool().to_multiset());
    lemma_sub_empty(Identity::spec_pool().to_multiset());
    assert(spec_free_roles(s.players).len() == 10);
    assert(spec_count_charless(s.players) == 11);
}

/// Every seat of a fully unassigned roster receives exactly the free value
/// of its own rank.
proof fn lemma_assign_all(players: Seq<Player>, roles: Seq<Role>, ids: Seq<Identity>)
    requires
        forall|i: int| 0 <= i < players.len() ==> (#[trigger] players[i]).character is None,
        players.len() <= roles.len(),
        players.len() <= ids.len(),
    ensures
        forall|i: int|
            0 <= i < players.len() ==> #[trigger] spec_assign(players, roles, ids)[i] == (Player {
                id: players[i].id,
                character: Some(Character::spec_new(roles[i], ids[i])),
            }),
{
    assert forall|i: int|
        0 <= i < players.len() implies #[trigger] spec_assign(players, roles, ids)[i] == (Player {
        id: players[i].id,
        character: Some(Character::spec_new(roles[i], ids[i])),
    }) by {
        lemma_all_unassigned(players, i);
    }
}

/// In a roster where seat `i` holds the `i`-th drawn role and identity, the
/// held values are exactly the drawn prefixes.
proof fn lemma_held_of_assigned(post: Seq<Player>, roles: Seq<Role>, ids: Seq<Identity>, n: int)
    requires
        0 <= n <= post.len(),
        post.len() <= roles.len(),
        post.len() <= ids.len(),
        forall|i: int|
            0 <= i < post.len() ==> (#[trigger] post[i]).character == Some(
                Character::spec_new(roles[i], ids[i]),
            ),
    ensures
        spec_held_roles_upto(post, n) == roles.take(n),
        spec_held_ids_upto(post, n) == ids.take(n),
    decreases n,
{
    if n == 0 {
        assert(roles.take(0) =~= Seq::<Role>::empty());
        assert(ids.take(0) =~= Seq::<Identity>::empty());
    } else {
        lemma_held_of_assigned(post, roles, ids, n - 1);
        assert(spec_held_roles_upto(post, n) =~= roles.take(n)) by {
            assert(roles.take(n).drop_last() =~= roles.take(n - 1));
            assert(spec_held_roles_upto(post, n) == roles.take(n - 1).push(roles[n - 1]));
            assert(roles.take(n - 1).push(roles[n - 1]) =~= roles.take(n));
        }
        assert(spec_held_ids_upto(post, n) =~= ids.take(n)) by {
            assert(ids.take(n).drop_last() =~= ids.take(n - 1));
            assert(spec_held_ids_upto(post, n) == ids.take(n - 1).push(ids[n - 1]));
            assert(ids.take(n - 1).push(ids[n - 1]) =~= ids.take(n));
        }
    }
}

/// Law (allocation conservation): after a `Go` on a lobby of exactly ten
/// players, none of whom held a character, every assignable role is in play
/// exactly as often as the pool offers it — `Wolf` three times, everything
/// else once — and no two players share an identity.
pub proof fn lemma_allocation_conservation(pre: GameView, post: GameView)
    requires
        pre.players.len() == 10,
        forall|i: int| 0 <= i < pre.players.len() ==> (#[trigger] pre.players[i]).character is None,
        spec_go_rel(pre, post),
    ensures
        post.players.len() == 10,
        forall|i: int| 0 <= i < post.players.len() ==> (#[trigger] post.players[i]).character is Some,
        spec_held_roles_upto(post.players, post.players.len() as int).to_multiset()
            == Role::spec_pool().to_multiset(),
        forall|i: int, j: int|
            #![trigger post.players[i], post.players[j]]
            0 <= i < j < post.players.len() ==> (post.players[i].character matches Some(ci)
                ==> post.players[j].character matches Some(cj) ==> ci.identity != cj.identity),
{
    let (roles, ids) = choose|roles: Seq<Role>, ids: Seq<Identity>|
        {
            &&& roles.to_multiset() == spec_free_roles(pre.players)
            &&& ids.to_multiset() == spec_free_ids(pre.players)
            &&& post == #[trigger] spec_go_result(pre, roles, ids)
        };
    lemma_all_unassigned(pre.players, pre.players.len() as int);
    assert(Seq::<Role>::empty().to_multiset() =~= Multiset::<Role>::empty());
    assert(Seq::<Identity>::empty().to_multiset() =~= Multiset::<Identity>::empty());
    lemma_sub_empty(Role::spec_pool().to_multiset());
    lemma_sub_empty(Identity::spec_pool().to_multiset());
    assert(roles.to_multiset() == Role::spec_pool().to_multiset());
    assert(ids.to_multiset() == Identity::spec_pool().to_multiset());
    assert(Role::spec_pool().len() == 10);
    assert(Identity::spec_pool().len() == 11);
    assert(roles.to_multiset().len() == roles.len());
    assert(Role::spec_pool().to_multiset().len() == Role::spec_pool().len());
    assert(ids.to_multiset().len() == ids.len());
    assert(Identity::spec_pool().to_multiset().len() == Identity::spec_pool().len());
    assert(roles.len() == 10);
    assert(ids.len() == 11);
    lemma_assign_all(pre.players, roles, ids);
    assert(post.players == spec_assign(pre.players, roles, ids));
    lemma_held_of_assigned(post.players, roles, ids, post.players.len() as int);
    assert(spec_held_roles_upto(post.players, 10).to_multiset() == Role::spec_pool().to_multiset())
        by {
        assert(roles.take(10) =~= roles);
    }
    // Identities: the pool has no duplicates, so the shuffled draw has none.
    assert(Identity::spec_pool().no_duplicates());
    Identity::spec_pool().lemma_multiset_has_no_duplicates();
    ids.lemma_multiset_has_no_duplicates_conv();
    assert forall|i: int, j: int|
        #![trigger post.players[i], post.players[j]]
        0 <= i < j < post.players.len() implies (post.players[i].character matches Some(ci)
            ==> post.players[j].character matches Some(cj) ==> ci.identity != cj.identity) by {
        assert(post.players[i].character == Some(Character::spec_new(roles[i], ids[i])));
        assert(post.players[j].character == Some(Character::spec_new(roles[j], ids[j])));
        assert(ids[i] != ids[j]);
    }
}

/// Nobody outside the victor set who could join it does, so nobody joins.
proof fn lemma_with_upto_none(players: Seq<Player>, victors: Seq<Seat>, n: int)
    requires
        forall|i: int|
            0 <= i < n ==> !(!victors.contains(i as usize) && ((#[trigger] players[i]).character
                matches Some(c) && c.identity.spec_wincon().spec_is_with(players, victors))),
    ensures
        spec_with_upto(players, victors, n) == Seq::<Seat>::empty(),
    decreases n,
{
    if n > 0 {
        lemma_with_upto_none(players, victors, n - 1);
    }
}

/// Law (victory scoring): when the `Static` scan fires for exactly one seat
/// and nobody wins alongside it, that seat alone loses its character, every
/// other seat keeps its state, the round closes, and the victor's score
/// grows by the number of seats then left without a character.
pub proof fn lemma_victory_scoring(s: GameView, v: Seat)
    requires
        v < s.players.len(),
        spec_victor_seats(s) == seq![v],
        forall|i: int|
            0 <= i < s.players.len() && i != v ==> ((#[trigger] s.players[i]).character matches Some(
                c,
            ) ==> !c.identity.spec_wincon().spec_is_with(s.players, seq![v])),
    ensures
        spec_check_wincons(s).phase is None,
        spec_check_wincons(s).players.len() == s.players.len(),
        spec_check_wincons(s).players[v as int].character is None,
        forall|i: int|
            0 <= i < s.players.len() && i != v ==> #[trigger] spec_check_wincons(s).players[i]
                == s.players[i],
        spec_check_wincons(s).points[s.players[v as int].id] == sat_add_u32(
            if s.points.contains_key(s.players[v as int].id) {
                s.points[s.players[v as int].id]
            } else {
                0u32
            },
            spec_gain(spec_check_wincons(s).players),
        ),
{
    let victors = seq![v];
    assert(victors.len() == 1);
    assert forall|i: int|
        0 <= i < s.players.len() implies !(!victors.contains(i as usize) && ((#[trigger]
    s.players[i]).character matches Some(c) && c.identity.spec_wincon().spec_is_with(
        s.players,
        victors,
    ))) by {
        if i == v {
            assert(victors[0] == v);
            assert(victors.contains(i as usize));
        }
    }
    lemma_with_upto_none(s.players, victors, s.players.len() as int);
    let all = victors + spec_with_upto(s.players, victors, s.players.len() as int);
    assert(all =~= seq![v]);
    let emptyseats = Seq::<Seat>::empty();
    assert(all.drop_last() =~= emptyseats);
    assert(spec_clear_seats(s.players, emptyseats) == s.players);
    let cleared = spec_clear_seats(s.players, all);
    assert(cleared == s.players.update(
        v as int,
        Player { id: s.players[v as int].id, character: None },
    ));
    let post = spec_check_wincons(s);
    assert(post == crate::state::spec_victory(s, seq![v]));
    assert(post.players == cleared);
    let gain = spec_gain(cleared);
    let id = s.players[v as int].id;
    assert(cleared[v as int].id == id);
    let base = if s.points.contains_key(id) {
        s.points[id]
    } else {
        0u32
    };
    assert(crate::state::spec_award(s.points, cleared, emptyseats, gain) == s.points);
    assert(post.points == s.points.insert(id, sat_add_u32(base, gain)));
    assert(post.points[id] == sat_add_u32(base, gain));
    assert forall|i: int|
        0 <= i < s.players.len() && i != v implies #[trigger] post.players[i] == s.players[i] by {
        assert(cleared[i] == s.players[i]);
    }
}

/// Law (angel mediation, buffering half): with a living Angel and at least
/// one unshielded actor, an accepted action is only buffered: it becomes
/// the pending action, the actors' tokens are spent, and nothing else
/// changes — every seat keeps its id, its aliveness, its role, its
/// identity and its bite state, and mourning and target are untouched.
pub proof fn lemma_angel_mediation(pre: GameView, post: GameView, action: Action)
    requires
        spec_mediated(pre, spec_actors_for(pre, action)),
        spec_step_rel(pre, Input::Ingame(IngameInput::Action(action)), post),
    ensures
        post.pending_action == Some(action),
        post.phase == pre.phase,
        post.mourning == pre.mourning,
        post.target == pre.target,
        post.shielded == pre.shielded,
        post.points == pre.points,
        post.players.len() == pre.players.len(),
        forall|i: int|
            0 <= i < pre.players.len() ==> {
                let q = #[trigger] post.players[i];
                let p0 = pre.players[i];
                &&& q.id == p0.id
                &&& (q.character is Some <==> p0.character is Some)
                &&& (q.character matches Some(c) ==> p0.character matches Some(c0) ==> c.role
                    == c0.role && c.identity == c0.identity && c.bitten_by == c0.bitten_by
                    && c.props == c0.props)
            },
{
    lemma_mark_props(pre.players, spec_actors_for(pre, action));
}

/// Law (angel mediation, veto half): an accepted veto discards the pending
/// action without applying any of its effect — the state that then enters
/// phase advancement differs from the old one only in having no pending
/// action and the vetoed seat freshly shielded; mourning and target in
/// particular are exactly as they were.
pub proof fn lemma_angel_veto(pre: GameView, post: GameView, seat: Seat)
    requires
        spec_step_rel(pre, Input::Ingame(IngameInput::AngelVeto(seat)), post),
    ensures
        ({
            let mid = GameView {
                pending_action: None,
                shielded: Some(seat),
                shield_is_current: true,
                ..pre
            };
            &&& post == crate::state::spec_advance(mid, crate::roles::CYCLE_LEN as nat)
            &&& mid.mourning == pre.mourning
            &&& mid.target == pre.target
            &&& mid.players == pre.players
        }),
{
}

/// A living holder of a role sits among the role's seats.
proof fn lemma_seats_with_role_contains(players: Seq<Player>, role: Role, i: Seat)
    requires
        i < players.len(),
        players[i as int].character matches Some(c) && c.role == role,
    ensures
        spec_seats_with_role(players, role).contains(i),
    decreases players.len(),
{
    let seats = spec_seats_with_role(players, role);
    if i + 1 == players.len() {
        assert(seats.last() == i);
        assert(seats[seats.len() - 1] == i);
    } else {
        lemma_seats_with_role_contains(players.drop_last(), role, i);
        let prefix = spec_seats_with_role(players.drop_last(), role);
        let k = choose|k: int| 0 <= k < prefix.len() && prefix[k] == i;
        assert(seats[k] == i);
    }
}

/// Law (bite redirection): when the phase of a bitten player's role comes
/// up, the biting vampire stands among the acting seats in their place.
pub proof fn lemma_bite_redirection(players: Seq<Player>, phase: Role, b: Seat, v: Seat)
    requires
        b < players.len(),
        players[b as int].character matches Some(c) && c.role == phase && c.bitten_by == Some(v),
    ensures
        spec_current_actors(players, phase).contains(v),
{
    lemma_seats_with_role_contains(players, phase, b);
    let seats = spec_seats_with_role(players, phase);
    let k = choose|k: int| 0 <= k < seats.len() && seats[k] == b;
    assert(spec_current_actors(players, phase)[k] == spec_redirect(players, b));
    assert(spec_redirect(players, b) == v);
}

/// Law (bite redirection, release on death): when the biting vampire dies,
/// the bitten player's bite reference is cleared, so they act for
/// themselves again.
pub proof fn lemma_bite_cleared_on_death(s: GameView, b: Seat, v: Seat)
    requires
        b < s.players.len(),
        v < s.players.len(),
        b != v,
        s.players[b as int].character matches Some(c) && c.bitten_by == Some(v),
    ensures
        spec_kill(s, v).players[b as int].character matches Some(c2) && c2.bitten_by is None,
{
}

/// Law (bite redirection, release on quit): when the biting vampire leaves
/// the game, the bitten player's bite reference is cleared, wherever their
/// seat lands after the renumbering.
pub proof fn lemma_bite_cleared_on_quit(s: GameView, p: PlayerId, b: Seat)
    requires
        s.players.len() <= usize::MAX,
        0 <= spec_seat_of(s.players, p) < s.players.len(),
        b < s.players.len(),
        b != spec_seat_of(s.players, p),
        s.players[b as int].character matches Some(c) && c.bitten_by == Some(
            spec_seat_of(s.players, p) as usize,
        ),
    ensures
        ({
            let vseat = spec_seat_of(s.players, p);
            let nb = if b < vseat {
                b as int
            } else {
                b - 1
            };
            spec_quit(s, p).players[nb].character matches Some(c2) && c2.bitten_by is None
        }),
{
    let vseat = spec_seat_of(s.players, p);
    let seat = vseat as usize;
    assert(seat as int == vseat);
    s.players.remove_ensures(seat as int);
    let removed = s.players.remove(seat as int);
    let nb = if b < seat {
        b as int
    } else {
        b - 1
    };
    assert(removed[nb] == s.players[b as int]) by {
        if b >= seat {
            assert(removed[b - 1] == s.players[(b - 1) + 1]);
        }
    }
    assert(spec_quit(s, p).players[nb] == crate::state::spec_unbump_bite(removed[nb], seat));
}

/// Law (seat renumbering, join): a join moves every seat at or above the
/// joining position up by one, and every bite reference follows: one at or
/// above the position grows by one, one below it stays.
pub proof fn lemma_join_renumbers(s: GameView, p: PlayerId, seat: Seat, i: Seat, w: Seat)
    requires
        seat <= s.players.len(),
        i < s.players.len(),
        w < s.players.len(),
        s.players[i as int].character matches Some(c) && c.bitten_by == Some(w),
    ensures
        spec_join(s, p, seat).players.len() == s.players.len() + 1,
        ({
            let ni = if i < seat {
                i as int
            } else {
                i + 1
            };
            spec_join(s, p, seat).players[ni].character matches Some(c2) && c2.bitten_by == Some(
                if w >= seat {
                    (w + 1) as usize
                } else {
                    w
                },
            )
        }),
{
    s.players.insert_ensures(seat as int, Player { id: p, character: None });
    if i >= seat {
        assert(s.players.insert(seat as int, Player { id: p, character: None })[(i as int) + 1]
            == s.players[i as int]);
    }
}

/// Law (seat renumbering, quit): a quit moves every seat above the leaving
/// position down by one, and every bite reference follows: one above the
/// position shrinks by one, one below it stays.
pub proof fn lemma_quit_renumbers(s: GameView, p: PlayerId, b: Seat, w: Seat)
    requires
        s.players.len() <= usize::MAX,
        0 <= spec_seat_of(s.players, p) < s.players.len(),
        b < s.players.len(),
        b != spec_seat_of(s.players, p),
        w != spec_seat_of(s.players, p),
        s.players[b as int].character matches Some(c) && c.bitten_by == Some(w),
    ensures
        spec_quit(s, p).players.len() == s.players.len() - 1,
        ({
            let vseat = spec_seat_of(s.players, p);
            let nb = if b < vseat {
                b as int
            } else {
                b - 1
            };
            spec_quit(s, p).players[nb].character matches Some(c2) && c2.bitten_by == Some(
                if w > vseat {
                    (w - 1) as usize
                } else {
                    w
                },
            )
        }),
{
    let vseat = spec_seat_of(s.players, p);
    let seat = vseat as usize;
    assert(seat as int == vseat);
    s.players.remove_ensures(seat as int);
    let removed = s.players.remove(seat as int);
    let nb = if b < seat {
        b as int
    } else {
        b - 1
    };
    assert(removed[nb] == s.players[b as int]) by {
        if b >= seat {
            assert(removed[b - 1] == s.players[(b - 1) + 1]);
        }
    }
    assert(spec_quit(s, p).players[nb] == crate::state::spec_unbump_bite(removed[nb], seat));
}

} // verus!
