use victory::roles::Role;
use victory::state::{Action, GameError, IngameInput, Input, MetaInput, State};

/// A started two-player game in which neither player holds the Angel (so
/// nothing is buffered) nor the Hunter (so the opening phase has no
/// actors). Draws are random, so this retries until the draw fits.
fn two_player_game_without_angel_or_hunter() -> State {
    let mut tries: usize = 0;
    loop {
        tries += 1;
        assert!(tries <= 5000, "never drew a fitting pair of roles");
        let mut st = State::default();
        st.advance_game(Input::Meta(MetaInput::Join(0, Some(0)))).unwrap();
        st.advance_game(Input::Meta(MetaInput::Join(1, Some(1)))).unwrap();
        st.advance_game(Input::Meta(MetaInput::Go)).unwrap();
        let fits = st.players().iter().all(|p| {
            let role = p.character.unwrap().role;
            role != Role::Angel && role != Role::Hunter
        });
        if fits {
            return st;
        }
    }
}

fn feed(st: &mut State, a: Action) -> Result<(), GameError> {
    st.advance_game(Input::Ingame(IngameInput::Action(a)))
}

#[test]
fn resolution_errors_on_absent_seats() {
    let mut st = two_player_game_without_angel_or_hunter();
    assert_eq!(feed(&mut st, Action::Aim(99)), Err(GameError::AimOutOfRange));
    assert_eq!(feed(&mut st, Action::Bite(99)), Err(GameError::BiteOutOfRange));
    assert_eq!(
        feed(&mut st, Action::VoteResult(Some(99))),
        Err(GameError::LynchOutOfRange)
    );
    assert_eq!(
        feed(&mut st, Action::Eat(vec![(0, 99)])),
        Err(GameError::EatTargetOutOfRange)
    );
    assert_eq!(feed(&mut st, Action::Shoot), Err(GameError::NoTarget));
    // No hunter lives, so the opening phase has no acting seat; a bite
    // cannot name its one biter.
    assert_eq!(feed(&mut st, Action::Bite(0)), Err(GameError::AmbiguousBite));
    // None of the rejected inputs moved the game along.
    assert_eq!(st.phase(), Some(Role::Hunter));
    assert!(st.players().iter().all(|p| p.character.unwrap().ready));
}

#[test]
fn resolution_errors_on_dead_seats() {
    let mut st = two_player_game_without_angel_or_hunter();
    st.advance_game(Input::Ingame(IngameInput::Action(Action::VoteResult(Some(1)))))
        .unwrap();
    assert!(st.players()[1].character.is_none());
    assert!(st.mourning());
    assert_eq!(feed(&mut st, Action::Aim(1)), Err(GameError::AimAtDead));
    assert_eq!(feed(&mut st, Action::Bite(1)), Err(GameError::BiteAtDead));
    assert_eq!(
        feed(&mut st, Action::VoteResult(Some(1))),
        Err(GameError::LynchAtDead)
    );
    assert_eq!(
        feed(&mut st, Action::Eat(vec![(0, 1)])),
        Err(GameError::EatTargetDead)
    );
    // A dead seat cannot vote in an eat either.
    assert_eq!(
        feed(&mut st, Action::Eat(vec![(1, 0)])),
        Err(GameError::ActorNotReady)
    );
    assert!(st.players()[0].character.is_some());
}

#[test]
fn swap_is_a_stub_without_effect() {
    let mut st = two_player_game_without_angel_or_hunter();
    let before: Vec<_> = st.players().iter().map(|p| p.character).collect();
    st.advance_game(Input::Ingame(IngameInput::Action(Action::Swap(0, 1)))).unwrap();
    let after: Vec<_> = st.players().iter().map(|p| p.character).collect();
    assert_eq!(before, after, "swapping is unresolved and changes nobody");
    assert!(!st.mourning());
}
