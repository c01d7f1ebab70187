use victory::identities::{Identity, SoloIdentity};
use victory::roles::Role;
use victory::state::{Action, GameError, IngameInput, Input, InputRequest, MetaInput, State};

/// A lobby of `n` players with ids `0..n`, seated in id order.
fn lobby(n: u64) -> State {
    let mut st = State::default();
    for id in 0..n {
        st.advance_game(Input::Meta(MetaInput::Join(id, Some(id as usize)))).unwrap();
    }
    st
}

/// Feeds one harmless input: an empty wolf vote for an action request, a
/// pass for an Angel request. Panics in the lobby.
fn feed_no_op(st: &mut State) {
    match st.next_input() {
        InputRequest::Action(_) => {
            st.advance_game(Input::Ingame(IngameInput::Action(Action::Eat(vec![])))).unwrap();
        }
        InputRequest::Angel(_, _) => {
            st.advance_game(Input::Ingame(IngameInput::AngelPass)).unwrap();
        }
        InputRequest::Meta => panic!("round is over"),
    }
}

/// Feeds an action and, if the Angel buffered it, passes it through.
fn feed_through(st: &mut State, a: Action) {
    st.advance_game(Input::Ingame(IngameInput::Action(a))).unwrap();
    if matches!(st.next_input(), InputRequest::Angel(_, _)) {
        st.advance_game(Input::Ingame(IngameInput::AngelPass)).unwrap();
    }
}

/// Runs no-ops until the engine asks for the given phase's action.
fn run_to_phase(st: &mut State, phase: Role) {
    let mut steps: usize = 0;
    loop {
        steps += 1;
        assert!(steps < 100, "phase never came up");
        match st.next_input() {
            InputRequest::Action(p) if p == phase => return,
            _ => feed_no_op(st),
        }
    }
}

/// The seats whose living character holds the role.
fn seats_of_role(st: &State, role: Role) -> Vec<usize> {
    st.players()
        .iter()
        .enumerate()
        .filter(|(_, p)| p.character.map_or(false, |c| c.role == role))
        .map(|(i, _)| i)
        .collect()
}

/// The seats whose living character holds the identity.
fn seats_of_identity(st: &State, ident: Identity) -> Vec<usize> {
    st.players()
        .iter()
        .enumerate()
        .filter(|(_, p)| p.character.map_or(false, |c| c.identity == ident))
        .map(|(i, _)| i)
        .collect()
}

const QUEEN: Identity = Identity::Solo(SoloIdentity::Queen);

#[test]
fn allocation_conservation_ten_players() {
    let mut st = lobby(10);
    st.advance_game(Input::Meta(MetaInput::Go)).unwrap();
    assert_eq!(st.phase(), Some(Role::Hunter));
    assert!(st.just_quit().is_empty());
    let mut wolves: usize = 0;
    let mut seen_roles: Vec<Role> = Vec::new();
    let mut seen_idents: Vec<Identity> = Vec::new();
    for p in st.players().iter() {
        let c = p.character.expect("everyone got a character");
        assert!(c.ready);
        assert!(c.bitten_by.is_none());
        if c.role == Role::Wolf {
            wolves += 1;
        } else {
            assert!(!seen_roles.contains(&c.role), "role handed out twice");
            seen_roles.push(c.role);
        }
        assert!(!seen_idents.contains(&c.identity), "identity handed out twice");
        seen_idents.push(c.identity);
    }
    assert_eq!(wolves, 3);
    assert_eq!(seen_roles.len(), 7);
}

#[test]
fn allocation_insufficiency_eleven_players() {
    let mut st = lobby(11);
    assert_eq!(
        st.advance_game(Input::Meta(MetaInput::Go)),
        Err(GameError::NotEnoughAttributes)
    );
    assert_eq!(st.phase(), None);
    assert_eq!(st.players().len(), 11);
    assert!(st.players().iter().all(|p| p.character.is_none()));
    // The lobby can still shrink and then start.
    st.advance_game(Input::Meta(MetaInput::Quit(10))).unwrap();
    st.advance_game(Input::Meta(MetaInput::Go)).unwrap();
    assert_eq!(st.phase(), Some(Role::Hunter));
}

#[test]
fn meta_rejected_in_round_and_actions_in_lobby() {
    let mut st = lobby(4);
    assert_eq!(
        st.advance_game(Input::Ingame(IngameInput::AngelPass)),
        Err(GameError::NotInRound)
    );
    st.advance_game(Input::Meta(MetaInput::Go)).unwrap();
    assert_eq!(
        st.advance_game(Input::Meta(MetaInput::Join(9, None))),
        Err(GameError::RoundRunning)
    );
    assert_eq!(
        st.advance_game(Input::Ingame(IngameInput::WinAttempt)),
        Err(GameError::WinAttemptUnsupported)
    );
    assert_eq!(
        st.advance_game(Input::Ingame(IngameInput::AngelPass)),
        Err(GameError::NoPendingAction)
    );
}

#[test]
fn angel_buffers_and_pass_applies() {
    let mut st = lobby(10);
    st.advance_game(Input::Meta(MetaInput::Go)).unwrap();
    assert_eq!(st.next_input(), InputRequest::Action(Role::Hunter));
    // A living Angel exists and the hunter is unshielded: the aim is only
    // buffered.
    st.advance_game(Input::Ingame(IngameInput::Action(Action::Aim(3)))).unwrap();
    assert_eq!(st.pending_action(), &Some(Action::Aim(3)));
    assert_eq!(st.target(), None, "the aim must not land before the Angel rules");
    assert_eq!(st.phase(), Some(Role::Hunter));
    assert_eq!(
        st.next_input(),
        InputRequest::Angel(Role::Hunter, Action::Aim(3))
    );
    assert_eq!(
        st.advance_game(Input::Ingame(IngameInput::Action(Action::Aim(2)))),
        Err(GameError::ActionAlreadyPending)
    );
    st.advance_game(Input::Ingame(IngameInput::AngelPass)).unwrap();
    assert_eq!(st.target(), Some(3));
    assert!(st.pending_action().is_none());
    assert_eq!(st.phase(), Some(Role::Vampire));
}

#[test]
fn angel_veto_discards_and_shields() {
    let mut st = lobby(10);
    st.advance_game(Input::Meta(MetaInput::Go)).unwrap();
    st.advance_game(Input::Ingame(IngameInput::Action(Action::Aim(3)))).unwrap();
    assert_eq!(
        st.advance_game(Input::Ingame(IngameInput::AngelVeto(77))),
        Err(GameError::VetoSeatOutOfRange)
    );
    let hunter = seats_of_role(&st, Role::Hunter)[0];
    st.advance_game(Input::Ingame(IngameInput::AngelVeto(hunter))).unwrap();
    assert_eq!(st.target(), None, "the vetoed aim must leave no trace");
    assert!(!st.mourning());
    assert!(st.pending_action().is_none());
    assert_eq!(st.shielded(), Some(hunter));
    assert!(st.shield_is_current());
    // The hunter's token was spent on the vetoed aim, so the cycle moved on.
    assert_eq!(st.phase(), Some(Role::Vampire));
}

#[test]
fn bite_redirection_wolf_pack() {
    let mut st = lobby(10);
    st.advance_game(Input::Meta(MetaInput::Go)).unwrap();
    let vampire = seats_of_role(&st, Role::Vampire)[0];
    let wolves = seats_of_role(&st, Role::Wolf);
    assert_eq!(wolves.len(), 3);
    let bitten = wolves[0];
    run_to_phase(&mut st, Role::Vampire);
    feed_through(&mut st, Action::Bite(bitten));
    assert_eq!(
        st.players()[bitten].character.unwrap().bitten_by,
        Some(vampire)
    );
    run_to_phase(&mut st, Role::Wolf);
    let actors = st.current_actor_seats();
    assert!(
        actors.contains(&vampire),
        "the vampire acts in the bitten wolf's place"
    );
    assert!(!actors.contains(&bitten));
    assert!(actors.contains(&wolves[1]));
    assert!(actors.contains(&wolves[2]));
}

#[test]
fn bite_cleared_when_vampire_dies() {
    let mut st = lobby(10);
    st.advance_game(Input::Meta(MetaInput::Go)).unwrap();
    let vampire = seats_of_role(&st, Role::Vampire)[0];
    let wolves = seats_of_role(&st, Role::Wolf);
    let bitten = wolves[0];
    run_to_phase(&mut st, Role::Vampire);
    feed_through(&mut st, Action::Bite(bitten));
    assert_eq!(st.players()[bitten].character.unwrap().bitten_by, Some(vampire));
    // Kill the vampire through the day's vote; the bite is released.
    match st.next_input() {
        InputRequest::Action(_) => {}
        other => panic!("expected an action request, got {:?}", other),
    }
    feed_through(&mut st, Action::VoteResult(Some(vampire)));
    assert!(st.players()[vampire].character.is_none());
    assert_eq!(st.players()[bitten].character.unwrap().bitten_by, None);
}

#[test]
fn eat_plurality_kills_most_voted() {
    let mut st = lobby(10);
    st.advance_game(Input::Meta(MetaInput::Go)).unwrap();
    let wolves = seats_of_role(&st, Role::Wolf);
    let prey: Vec<usize> = (0..10).filter(|s| !wolves.contains(s)).collect();
    let (t, u) = (prey[0], prey[1]);
    run_to_phase(&mut st, Role::Wolf);
    feed_through(
        &mut st,
        Action::Eat(vec![(wolves[0], t), (wolves[1], t), (wolves[2], u)]),
    );
    assert!(
        st.players()[t].character.is_none(),
        "the plurality victim dies"
    );
    assert!(st.players()[u].character.is_some());
}

#[test]
fn pending_eat_is_echoed_in_the_request() {
    let mut st = lobby(10);
    st.advance_game(Input::Meta(MetaInput::Go)).unwrap();
    let wolves = seats_of_role(&st, Role::Wolf);
    let prey: Vec<usize> = (0..10).filter(|s| !wolves.contains(s)).collect();
    run_to_phase(&mut st, Role::Wolf);
    let votes = vec![(wolves[0], prey[0]), (wolves[1], prey[1]), (wolves[2], prey[1])];
    st.advance_game(Input::Ingame(IngameInput::Action(Action::Eat(votes.clone())))).unwrap();
    // The request echoes the buffered votes, entry for entry.
    assert_eq!(
        st.next_input(),
        InputRequest::Angel(Role::Wolf, Action::Eat(votes))
    );
    st.advance_game(Input::Ingame(IngameInput::AngelPass)).unwrap();
    assert!(st.players()[prey[1]].character.is_none());
    assert!(st.players()[prey[0]].character.is_some());
}

#[test]
fn eat_rejects_bad_votes() {
    let mut st = lobby(10);
    st.advance_game(Input::Meta(MetaInput::Go)).unwrap();
    let wolves = seats_of_role(&st, Role::Wolf);
    assert_eq!(
        st.advance_game(Input::Ingame(IngameInput::Action(Action::Eat(vec![
            (wolves[0], 1),
            (wolves[0], 2),
        ])))),
        Err(GameError::DuplicateEatVoter)
    );
    assert_eq!(
        st.advance_game(Input::Ingame(IngameInput::Action(Action::Eat(vec![(99, 1)])))),
        Err(GameError::ActorOutOfRange)
    );
    assert!(st.pending_action().is_none());
}

#[test]
fn victory_scoring_six_players() {
    let mut tries: usize = 0;
    loop {
        tries += 1;
        assert!(tries <= 5000, "never drew a lone unpartnered Queen");
        let mut st = lobby(6);
        st.advance_game(Input::Meta(MetaInput::Go)).unwrap();
        let queen_seats = seats_of_identity(&st, QUEEN);
        let churchills = seats_of_identity(&st, Identity::Churchill);
        if queen_seats.len() != 1 || !churchills.is_empty() {
            continue;
        }
        let queen = queen_seats[0];
        let queen_id = st.players()[queen].id;
        let mut steps: usize = 0;
        while !matches!(st.next_input(), InputRequest::Meta) {
            steps += 1;
            assert!(steps < 200, "the Queen never won");
            feed_no_op(&mut st);
        }
        // The Queen won at a peaceful cycle end: her character is cleared,
        // everyone else keeps theirs, and she scores one point — herself
        // being the only seat without a character after the clearing.
        assert!(st.players()[queen].character.is_none());
        for (i, p) in st.players().iter().enumerate() {
            if i != queen {
                assert!(p.character.is_some(), "non-victors keep their characters");
            }
        }
        assert_eq!(st.points().get(&queen_id), Some(&1));
        for (i, p) in st.players().iter().enumerate() {
            if i != queen {
                assert!(st.points().get(&p.id).is_none());
            }
        }
        assert_eq!(st.phase(), None, "victory reopens the lobby");
        assert_eq!(st.target(), None);
        assert_eq!(st.shielded(), None);
        assert!(!st.mourning());
        return;
    }
}

#[test]
fn second_round_reassigns_freed_values() {
    // After a victory the freed role and identity are the only ones left to
    // hand out; a fresh `Go` must restore the full allocation. Repeating
    // the scenario makes a wrong free-value computation practically certain
    // to surface.
    let mut rounds: usize = 0;
    let mut tries: usize = 0;
    while rounds < 12 {
        tries += 1;
        assert!(tries <= 20000, "never drew a lone unpartnered Queen");
        let mut st = lobby(10);
        st.advance_game(Input::Meta(MetaInput::Go)).unwrap();
        let queen_seats = seats_of_identity(&st, QUEEN);
        let churchills = seats_of_identity(&st, Identity::Churchill);
        if queen_seats.len() != 1 || !churchills.is_empty() {
            continue;
        }
        let queen = queen_seats[0];
        let freed_role = st.players()[queen].character.unwrap().role;
        let mut steps: usize = 0;
        while !matches!(st.next_input(), InputRequest::Meta) {
            steps += 1;
            assert!(steps < 200, "the Queen never won");
            feed_no_op(&mut st);
        }
        assert!(st.players()[queen].character.is_none());
        st.advance_game(Input::Meta(MetaInput::Go)).unwrap();
        // Only one role was free, so the Queen's seat got exactly it back.
        assert_eq!(st.players()[queen].character.unwrap().role, freed_role);
        // And the roster carries the full pool again: three wolves, one of
        // everything else, all identities distinct.
        let mut wolves: usize = 0;
        let mut seen_roles: Vec<Role> = Vec::new();
        let mut seen_idents: Vec<Identity> = Vec::new();
        for p in st.players().iter() {
            let c = p.character.expect("everyone is reassigned");
            if c.role == Role::Wolf {
                wolves += 1;
            } else {
                assert!(!seen_roles.contains(&c.role));
                seen_roles.push(c.role);
            }
            assert!(!seen_idents.contains(&c.identity));
            seen_idents.push(c.identity);
        }
        assert_eq!(wolves, 3);
        rounds += 1;
    }
}

#[test]
fn shield_decays_after_one_extra_cycle() {
    let mut st = lobby(3);
    st.advance_game(Input::Meta(MetaInput::Go)).unwrap();
    // Silence the Queen, if she is in play, so no victory interferes; the
    // kill happens at a phase whose actors are all still ready.
    let queen_seats = seats_of_identity(&st, QUEEN);
    if let Some(&q) = queen_seats.first() {
        feed_through(&mut st, Action::VoteResult(Some(q)));
    }
    assert!(st.phase().is_some());
    // Shield seat 1; the veto's own advance may already cross the Angel.
    st.advance_game(Input::Ingame(IngameInput::AngelVeto(1))).unwrap();
    let mut seen_stale = false;
    let mut steps: usize = 0;
    while st.shielded().is_some() {
        steps += 1;
        assert!(steps < 60, "the shield never decayed");
        assert_eq!(st.shielded(), Some(1), "the shield names the vetoed seat");
        if !st.shield_is_current() {
            seen_stale = true;
        }
        feed_no_op(&mut st);
        assert!(st.phase().is_some(), "no victory can happen here");
    }
    assert!(seen_stale, "the shield must survive exactly one cleanup as stale");
    assert!(!st.shield_is_current());
}

#[test]
fn join_renumbers_bite_reference() {
    let mut tries: usize = 0;
    loop {
        tries += 1;
        assert!(tries <= 50000, "never drew the wanted arrangement");
        let mut st = lobby(5);
        st.advance_game(Input::Meta(MetaInput::Go)).unwrap();
        let vampires = seats_of_role(&st, Role::Vampire);
        let queen_seats = seats_of_identity(&st, QUEEN);
        let churchills = seats_of_identity(&st, Identity::Churchill);
        if vampires != vec![3] || queen_seats.len() != 1 || !churchills.is_empty() {
            continue;
        }
        let queen = queen_seats[0];
        if queen == 0 || queen == 3 {
            continue;
        }
        run_to_phase(&mut st, Role::Vampire);
        feed_through(&mut st, Action::Bite(0));
        assert_eq!(st.players()[0].character.unwrap().bitten_by, Some(3));
        let mut steps: usize = 0;
        while !matches!(st.next_input(), InputRequest::Meta) {
            steps += 1;
            assert!(steps < 200, "the Queen never won");
            feed_no_op(&mut st);
        }
        // Back in the lobby; the bite reference into seat 3 survived.
        assert_eq!(st.players()[0].character.unwrap().bitten_by, Some(3));
        // Joining at seat 2 pushes the vampire to seat 4.
        st.advance_game(Input::Meta(MetaInput::Join(100, Some(2)))).unwrap();
        assert_eq!(st.players()[2].id, 100);
        assert_eq!(st.players()[0].character.unwrap().bitten_by, Some(4));
        // Quitting seat 1 pulls the vampire back down to seat 3.
        let leaver = st.players()[1].id;
        st.advance_game(Input::Meta(MetaInput::Quit(leaver))).unwrap();
        assert_eq!(st.players()[0].character.unwrap().bitten_by, Some(3));
        return;
    }
}

#[test]
fn quit_nulls_bite_reference_to_leaver() {
    let mut tries: usize = 0;
    loop {
        tries += 1;
        assert!(tries <= 50000, "never drew the wanted arrangement");
        let mut st = lobby(5);
        st.advance_game(Input::Meta(MetaInput::Go)).unwrap();
        let vampires = seats_of_role(&st, Role::Vampire);
        let queen_seats = seats_of_identity(&st, QUEEN);
        let churchills = seats_of_identity(&st, Identity::Churchill);
        if vampires != vec![1] || queen_seats.len() != 1 || !churchills.is_empty() {
            continue;
        }
        let queen = queen_seats[0];
        if queen == 1 || queen == 2 {
            continue;
        }
        run_to_phase(&mut st, Role::Vampire);
        feed_through(&mut st, Action::Bite(2));
        assert_eq!(st.players()[2].character.unwrap().bitten_by, Some(1));
        let mut steps: usize = 0;
        while !matches!(st.next_input(), InputRequest::Meta) {
            steps += 1;
            assert!(steps < 200, "the Queen never won");
            feed_no_op(&mut st);
        }
        // The vampire leaves; the bitten player's reference is nulled and
        // their seat moves down by one.
        let vampire_id = st.players()[1].id;
        st.advance_game(Input::Meta(MetaInput::Quit(vampire_id))).unwrap();
        assert!(st.just_quit().contains(&vampire_id));
        let moved = &st.players()[1];
        assert_eq!(moved.character.unwrap().bitten_by, None);
        return;
    }
}
