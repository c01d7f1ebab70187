use victory::identities::{Identity, Party, SoloIdentity, StateCheck, Wincon};
use victory::player::{Character, Player, Props};
use victory::roles::Role;
use victory::state::{GameError, Input, InputRequest, MetaInput, State};

#[test]
fn cycle_closure_every_role() {
    let roles = [
        Role::Hunter,
        Role::Vampire,
        Role::Jester,
        Role::Seer,
        Role::Wolf,
        Role::Witch,
        Role::Mayor,
        Role::Angel,
    ];
    for r in roles {
        assert_eq!(r.prev().succ(), r);
        assert_eq!(r.succ().prev(), r);
        let mut walked = r;
        for _ in 0..8 {
            walked = walked.succ();
        }
        assert_eq!(walked, r);
    }
}

#[test]
fn cycle_order() {
    assert_eq!(Role::Hunter.succ(), Role::Vampire);
    assert_eq!(Role::Vampire.succ(), Role::Jester);
    assert_eq!(Role::Jester.succ(), Role::Seer);
    assert_eq!(Role::Seer.succ(), Role::Wolf);
    assert_eq!(Role::Wolf.succ(), Role::Witch);
    assert_eq!(Role::Witch.succ(), Role::Mayor);
    assert_eq!(Role::Mayor.succ(), Role::Angel);
    assert_eq!(Role::Angel.succ(), Role::Hunter);
    assert_eq!(Role::default(), Role::Hunter);
}

#[test]
fn role_pool_has_three_wolves() {
    let pool = Role::list();
    assert_eq!(pool.len(), 10);
    assert_eq!(pool.iter().filter(|r| matches!(r, Role::Wolf)).count(), 3);
    for r in [
        Role::Hunter,
        Role::Vampire,
        Role::Jester,
        Role::Seer,
        Role::Witch,
        Role::Mayor,
        Role::Angel,
    ] {
        assert_eq!(pool.iter().filter(|x| **x == r).count(), 1);
    }
}

#[test]
fn identity_pool_is_distinct() {
    let pool = Identity::list();
    assert_eq!(pool.len(), 11);
    for i in 0..pool.len() {
        for j in (i + 1)..pool.len() {
            assert_ne!(pool[i], pool[j]);
        }
    }
}

#[test]
fn party_assignment() {
    assert_eq!(
        Identity::Solo(SoloIdentity::Queen).party(),
        Party::SoloParty(SoloIdentity::Queen)
    );
    assert_eq!(Identity::Romeo.party(), Party::Lovers);
    assert_eq!(Identity::Juliet.party(), Party::Lovers);
    assert_eq!(Identity::Single.party(), Party::Lovers);
    assert_eq!(Identity::Churchill.party(), Party::Masons);
    assert_eq!(Identity::Doyle.party(), Party::Masons);
    assert_eq!(Identity::Mozart.party(), Party::Masons);
}

#[test]
fn queen_wincon_is_static() {
    assert_eq!(
        Identity::Solo(SoloIdentity::Queen).wincon(),
        Wincon::Static(StateCheck::PeacefulCycleEnd)
    );
    match Identity::Churchill.wincon() {
        Wincon::Either(lhs, rhs) => {
            assert_eq!(*lhs, Wincon::With(Party::SoloParty(SoloIdentity::Queen)));
            assert_eq!(*rhs, Wincon::Flips);
        }
        other => panic!("unexpected wincon {:?}", other),
    }
    assert_eq!(Identity::Romeo.wincon(), Wincon::Flips);
}

#[test]
fn queen_check_fires_only_on_peaceful_angel_phase() {
    let w = Identity::Solo(SoloIdentity::Queen).wincon();
    assert!(w.static_eval(Some(Role::Angel), false));
    assert!(!w.static_eval(Some(Role::Angel), true));
    assert!(!w.static_eval(Some(Role::Mayor), false));
    assert!(!w.static_eval(None, false));
}

#[test]
fn witch_gets_potions() {
    assert_eq!(
        Props::for_role(Role::Witch),
        Props::Witch { health_potion: true, poison_potion: true }
    );
    assert_eq!(Props::for_role(Role::Hunter), Props::Bare);
    assert_eq!(Props::for_role(Role::Angel), Props::Bare);
}

#[test]
fn fresh_character_is_ready() {
    let c = Character::new(Role::Wolf, Identity::Mozart);
    assert_eq!(c.role, Role::Wolf);
    assert_eq!(c.identity, Identity::Mozart);
    assert!(c.ready);
    assert!(c.bitten_by.is_none());
    assert_eq!(c.props, Props::Bare);
}

#[test]
fn player_without_character_cannot_act() {
    let p = Player::new(9);
    assert_eq!(p.id, 9);
    assert!(p.character.is_none());
    assert!(!p.can_act());
    let alive = Player { id: 9, character: Some(Character::new(Role::Seer, Identity::Romeo)) };
    assert!(alive.can_act());
    let mut bitten = alive;
    bitten.character.as_mut().unwrap().bitten_by = Some(0);
    assert!(!bitten.can_act());
}

#[test]
fn fresh_state_is_empty_lobby() {
    let st = State::default();
    assert!(st.players().is_empty());
    assert!(st.points().is_empty());
    assert!(st.just_quit().is_empty());
    assert_eq!(st.phase(), None);
    assert!(!st.mourning());
    assert_eq!(st.target(), None);
    assert_eq!(st.shielded(), None);
    assert!(!st.shield_is_current());
    assert!(st.pending_action().is_none());
    assert_eq!(st.next_input(), InputRequest::Meta);
}

#[test]
fn join_quit_rejoin() {
    let mut st = State::default();
    st.advance_game(Input::Meta(MetaInput::Join(1, Some(0)))).unwrap();
    st.advance_game(Input::Meta(MetaInput::Join(2, Some(1)))).unwrap();
    assert_eq!(st.players().len(), 2);
    assert_eq!(
        st.advance_game(Input::Meta(MetaInput::Join(1, Some(0)))),
        Err(GameError::DuplicateJoin)
    );
    assert_eq!(
        st.advance_game(Input::Meta(MetaInput::Join(5, Some(7)))),
        Err(GameError::JoinSeatOutOfRange)
    );
    st.advance_game(Input::Meta(MetaInput::Quit(1))).unwrap();
    assert_eq!(st.players().len(), 1);
    assert!(st.just_quit().contains(&1));
    assert_eq!(
        st.advance_game(Input::Meta(MetaInput::Join(1, Some(0)))),
        Err(GameError::JoinAfterQuit)
    );
    assert_eq!(
        st.advance_game(Input::Meta(MetaInput::Quit(1))),
        Err(GameError::QuitNonMember)
    );
}

#[test]
fn random_seat_joins() {
    let mut st = State::default();
    for id in 0..6 {
        st.advance_game(Input::Meta(MetaInput::Join(id, None))).unwrap();
        assert_eq!(st.players().len(), (id + 1) as usize);
    }
    for id in 0..6 {
        assert_eq!(st.player_by_id(id).id, id);
    }
}

#[test]
fn player_lookup_after_named_joins() {
    let mut st = State::default();
    st.advance_game(Input::Meta(MetaInput::Join(41, Some(0)))).unwrap();
    st.advance_game(Input::Meta(MetaInput::Join(42, Some(0)))).unwrap();
    assert_eq!(st.players()[0].id, 42);
    assert_eq!(st.players()[1].id, 41);
    assert_eq!(st.player_by_id(41).id, 41);
}
