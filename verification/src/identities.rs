use vstd::prelude::*;

use crate::player::Player;
use crate::roles::Role;

verus! {

/// Identities that win (or lose) on their own.
#[derive(Clone, Copy, Debug, PartialEq, Eq, Hash, Structural)]
pub enum SoloIdentity {
    Sherlock,
    V,
    JackTheRipper,
    Queen,
    Macbeth,
}

/// The secret, win-condition-bearing persona of a player.
#[derive(Clone, Copy, Debug, PartialEq, Eq, Hash, Structural)]
pub enum Identity {
    Solo(SoloIdentity),
    Romeo,
    Juliet,
    Single,
    Churchill,
    Doyle,
    Mozart,
}

/// The grouping of identities that share a team win condition.
#[derive(Clone, Copy, Debug, PartialEq, Eq, Hash, Structural)]
pub enum Party {
    SoloParty(SoloIdentity),
    Lovers,
    Masons,
}

/// The pure state predicates a `Static` win condition can test.
#[derive(Clone, Copy, Debug, PartialEq, Eq, Hash, Structural)]
pub enum StateCheck {
    /// The cycle has stepped onto the `Angel` phase with nobody mourned this
    /// round (the Queen's condition).
    PeacefulCycleEnd,
}

/// A win-condition formula, evaluated against the game state.
#[derive(Debug, PartialEq, Eq)]
pub enum Wincon {
    /// A pure predicate over the game state.
    Static(StateCheck),
    /// A probabilistic or interactive check. Deliberately unresolved: the
    /// engine's per-step victory scan never polls it.
    Flips,
    /// Wins automatically if any declared victor belongs to the party.
    With(Party),
    /// Logical or of the two sub-formulas.
    Either(Box<Wincon>, Box<Wincon>),
    /// No condition of its own.
    Nothing,
}

impl Identity {
    /// Every assignable identity, each exactly once.
    pub open spec fn spec_pool() -> Seq<Identity> {
        seq![
            Identity::Solo(SoloIdentity::Sherlock),
            Identity::Solo(SoloIdentity::V),
            Identity::Solo(SoloIdentity::JackTheRipper),
            Identity::Solo(SoloIdentity::Queen),
            Identity::Solo(SoloIdentity::Macbeth),
            Identity::Romeo,
            Identity::Juliet,
            Identity::Single,
            Identity::Churchill,
            Identity::Doyle,
            Identity::Mozart,
        ]
    }

    /// All assignable identities.
    pub fn list() -> (r: Vec<Identity>)
        ensures
            r@ == Identity::spec_pool(),
    {
        let mut v: Vec<Identity> = Vec::new();
        v.push(Identity::Solo(SoloIdentity::Sherlock));
        v.push(Identity::Solo(SoloIdentity::V));
        v.push(Identity::Solo(SoloIdentity::JackTheRipper));
        v.push(Identity::Solo(SoloIdentity::Queen));
        v.push(Identity::Solo(SoloIdentity::Macbeth));
        v.push(Identity::Romeo);
        v.push(Identity::Juliet);
        v.push(Identity::Single);
        v.push(Identity::Churchill);
        v.push(Identity::Doyle);
        v.push(Identity::Mozart);
        proof {
            assert(v@ =~= Identity::spec_pool());
        }
        v
    }

    /// The party an identity belongs to.
    pub open spec fn spec_party(self) -> Party {
        match self {
            Identity::Solo(solo) => Party::SoloParty(solo),
            Identity::Romeo | Identity::Juliet | Identity::Single => Party::Lovers,
            Identity::Churchill | Identity::Doyle | Identity::Mozart => Party::Masons,
        }
    }

    /// The party an identity belongs to.
    pub fn party(&self) -> (r: Party)
        ensures
            r == self.spec_party(),
    {
        match *self {
            Identity::Solo(solo) => Party::SoloParty(solo),
            Identity::Romeo | Identity::Juliet | Identity::Single => Party::Lovers,
            Identity::Churchill | Identity::Doyle | Identity::Mozart => Party::Masons,
        }
    }

    /// The combined win condition of an identity: its own formula, or-combined
    /// with its party's formula. Conditions not yet pinned down by the game's
    /// design stay `Flips` placeholders.
    pub open spec fn spec_wincon(self) -> Wincon {
        match self {
            Identity::Solo(SoloIdentity::Queen) => Wincon::Static(StateCheck::PeacefulCycleEnd),
            Identity::Solo(_) => Wincon::Flips,
            Identity::Romeo | Identity::Juliet | Identity::Single => Wincon::Flips,
            Identity::Churchill => Wincon::Either(
                Box::new(Wincon::With(Party::SoloParty(SoloIdentity::Queen))),
                Box::new(Wincon::Flips),
            ),
            Identity::Doyle => Wincon::Either(
                Box::new(Wincon::With(Party::SoloParty(SoloIdentity::Sherlock))),
                Box::new(Wincon::Flips),
            ),
            Identity::Mozart => Wincon::Either(
                Box::new(Wincon::With(Party::Lovers)),
                Box::new(Wincon::Flips),
            ),
        }
    }

    /// Builds the combined win condition of the identity.
    pub fn wincon(&self) -> (r: Wincon)
        ensures
            r == self.spec_wincon(),
    {
        let own = match *self {
            Identity::Romeo | Identity::Juliet | Identity::Single => Wincon::Nothing,
            Identity::Churchill => Wincon::With(Party::SoloParty(SoloIdentity::Queen)),
            Identity::Doyle => Wincon::With(Party::SoloParty(SoloIdentity::Sherlock)),
            Identity::Mozart => Wincon::With(Party::Lovers),
            Identity::Solo(SoloIdentity::Queen) => Wincon::Static(StateCheck::PeacefulCycleEnd),
            Identity::Solo(_) => Wincon::Flips,
        };
        own.or(self.party().wincon())
    }
}

impl Party {
    /// The win condition a party grants all of its members; team conditions
    /// are interactive checks that the design leaves unresolved.
    pub open spec fn spec_wincon(self) -> Wincon {
        match self {
            Party::SoloParty(_) => Wincon::Nothing,
            Party::Lovers | Party::Masons => Wincon::Flips,
        }
    }

    /// Builds the party's own win condition.
    pub fn wincon(&self) -> (r: Wincon)
        ensures
            r == self.spec_wincon(),
    {
        match *self {
            Party::SoloParty(_) => Wincon::Nothing,
            Party::Lovers | Party::Masons => Wincon::Flips,
        }
    }
}

impl Wincon {
    /// Or-combination of two formulas; `Nothing` is its identity element.
    pub open spec fn spec_or(self, rhs: Wincon) -> Wincon {
        if rhs is Nothing {
            self
        } else if self is Nothing {
            rhs
        } else {
            Wincon::Either(Box::new(self), Box::new(rhs))
        }
    }

    /// Combines two formulas by logical or, absorbing `Nothing`.
    pub fn or(self, rhs: Wincon) -> (r: Wincon)
        ensures
            r == self.spec_or(rhs),
    {
        match (self, rhs) {
            (w, Wincon::Nothing) => w,
            (Wincon::Nothing, w) => w,
            (lhs, rhs) => Wincon::Either(Box::new(lhs), Box::new(rhs)),
        }
    }

    /// Whether a `Static` branch of the formula holds of the given round
    /// state. `Flips`, `With` and `Nothing` never fire here.
    pub open spec fn spec_static_eval(self, phase: Option<Role>, mourning: bool) -> bool
        decreases self,
    {
        match self {
            Wincon::Static(check) => check.spec_holds(phase, mourning),
            Wincon::Either(lhs, rhs) => lhs.spec_static_eval(phase, mourning)
                || rhs.spec_static_eval(phase, mourning),
            _ => false,
        }
    }

    /// Evaluates the `Static` branches of the formula against the round state.
    pub fn static_eval(&self, phase: Option<Role>, mourning: bool) -> (b: bool)
        ensures
            b == self.spec_static_eval(phase, mourning),
        decreases *self,
    {
        match self {
            Wincon::Static(check) => check.holds(phase, mourning),
            Wincon::Either(lhs, rhs) => lhs.static_eval(phase, mourning)
                || rhs.static_eval(phase, mourning),
            _ => false,
        }
    }

    /// Whether this formula lets its holder win alongside the given victors:
    /// some `With(party)` leaf names a party that some victor with a living
    /// character belongs to.
    pub open spec fn spec_is_with(self, players: Seq<Player>, victors: Seq<usize>) -> bool
        decreases self,
    {
        match self {
            Wincon::With(party) => exists|k: int|
                0 <= k < victors.len() && {
                    let s = #[trigger] victors[k];
                    &&& s < players.len()
                    &&& players[s as int].character matches Some(c)
                        && c.identity.spec_party() == party
                },
            Wincon::Either(lhs, rhs) => lhs.spec_is_with(players, victors)
                || rhs.spec_is_with(players, victors),
            _ => false,
        }
    }

    /// Evaluates `spec_is_with` against the roster and the victor seats.
    #[verifier::loop_isolation(false)]
    pub fn is_with(&self, players: &Vec<Player>, victors: &Vec<usize>) -> (b: bool)
        requires
            forall|k: int| 0 <= k < victors@.len() ==> victors@[k] < players@.len(),
        ensures
            b == self.spec_is_with(players@, victors@),
        decreases *self,
    {
        match self {
            Wincon::With(party) => {
                let mut k: usize = 0;
                while k < victors.len()
                    invariant
                        k <= victors@.len(),
                        forall|j: int| 0 <= j < victors@.len() ==> victors@[j] < players@.len(),
                        forall|j: int|
                            0 <= j < k ==> !{
                                let s = #[trigger] victors@[j];
                                &&& s < players@.len()
                                &&& players@[s as int].character matches Some(c)
                                    && c.identity.spec_party() == *party
                            },
                    decreases victors@.len() - k,
                {
                    let s = victors[k];
                    match &players[s].character {
                        Some(c) => {
                            let p = c.identity.party();
                            if p == *party {
                                proof {
                                    let kk = k as int;
                                    assert(0 <= kk < victors@.len() && {
                                        let s2 = #[trigger] victors@[kk];
                                        &&& s2 < players@.len()
                                        &&& players@[s2 as int].character matches Some(c2)
                                            && c2.identity.spec_party() == *party
                                    });
                                }
                                return true;
                            }
                        }
                        None => {}
                    }
                    k += 1;
                }
                false
            }
            Wincon::Either(lhs, rhs) => lhs.is_with(players, victors)
                || rhs.is_with(players, victors),
            _ => false,
        }
    }
}

impl StateCheck {
    /// Whether the predicate holds of the given round state.
    pub open spec fn spec_holds(self, phase: Option<Role>, mourning: bool) -> bool {
        match self {
            StateCheck::PeacefulCycleEnd => phase == Some(Role::Angel) && !mourning,
        }
    }

    /// Evaluates the predicate against the round state.
    pub fn holds(&self, phase: Option<Role>, mourning: bool) -> (b: bool)
        ensures
            b == self.spec_holds(phase, mourning),
    {
        match self {
            StateCheck::PeacefulCycleEnd => match phase {
                Some(r) => matches!(r, Role::Angel) && !mourning,
                None => false,
            },
        }
    }
}

} // verus!
