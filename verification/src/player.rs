use vstd::prelude::*;

use crate::identities::Identity;
use crate::roles::Role;

verus! {

/// The external identifier of a player. The engine only compares these
/// tokens, so any scheme that hands out distinct numbers will do.
pub type PlayerId = u64;

/// A positional index into the roster; stable only until the roster next
/// grows or shrinks.
pub type Seat = usize;

/// Role-specific consumable resources.
#[derive(Clone, Copy, Debug, PartialEq, Eq, Structural)]
pub enum Props {
    /// No role-specific resources.
    Bare,
    /// The Witch's two single-use potions.
    Witch { health_potion: bool, poison_potion: bool },
}

impl Props {
    /// The starting resources of a role.
    pub open spec fn spec_for_role(role: Role) -> Props {
        if role == Role::Witch {
            Props::Witch { health_potion: true, poison_potion: true }
        } else {
            Props::Bare
        }
    }

    /// Builds the starting resources of a role.
    pub fn for_role(role: Role) -> (r: Props)
        ensures
            r == Props::spec_for_role(role),
    {
        if matches!(role, Role::Witch) {
            Props::Witch { health_potion: true, poison_potion: true }
        } else {
            Props::Bare
        }
    }
}

/// What a living player carries through a round: role, identity, turn
/// readiness, affliction state and resources.
#[derive(Clone, Copy, Debug, PartialEq, Eq)]
pub struct Character {
    pub role: Role,
    pub identity: Identity,
    /// Still holds an unused action token.
    pub ready: bool,
    /// The vampire seat whose bite redirects this player's turn, if any.
    pub bitten_by: Option<Seat>,
    /// Role-specific consumable resources.
    pub props: Props,
}

impl Character {
    /// A freshly assigned character: ready, unbitten, with the role's
    /// starting resources.
    pub open spec fn spec_new(role: Role, identity: Identity) -> Character {
        Character {
            role,
            identity,
            ready: true,
            bitten_by: None,
            props: Props::spec_for_role(role),
        }
    }

    /// Builds a freshly assigned character.
    pub fn new(role: Role, identity: Identity) -> (r: Character)
        ensures
            r == Character::spec_new(role, identity),
    {
        Character { role, identity, ready: true, bitten_by: None, props: Props::for_role(role) }
    }
}

/// A roster entry: an external identifier plus, while the player lives, a
/// character. No character means dead or not yet assigned for this round.
#[derive(Clone, Copy, Debug, PartialEq, Eq)]
pub struct Player {
    pub id: PlayerId,
    pub character: Option<Character>,
}

impl Player {
    /// Builds a roster entry with no character yet.
    pub fn new(id: PlayerId) -> (r: Player)
        ensures
            r.id == id,
            r.character is None,
    {
        Player { id, character: None }
    }

    /// Whether the player can act for their own seat this phase: alive,
    /// holding an action token, and not redirected by a vampire's bite.
    pub open spec fn spec_can_act(self) -> bool {
        self.character matches Some(c) && c.ready && c.bitten_by is None
    }

    /// Evaluates `spec_can_act`.
    pub fn can_act(&self) -> (b: bool)
        ensures
            b == self.spec_can_act(),
    {
        match &self.character {
            Some(c) => c.ready && c.bitten_by.is_none(),
            None => false,
        }
    }
}

} // verus!
