use vstd::prelude::*;

verus! {

/// Roles of the game. They double as the phases of one day/night cycle,
/// in declaration order; `Angel` is the structural end-of-cycle marker.
#[derive(Clone, Copy, Debug, PartialEq, Eq, Hash, Structural)]
pub enum Role {
    /// First phase of the cycle.
    Hunter,
    Vampire,
    Jester,
    Seer,
    Wolf,
    Witch,
    Mayor,
    /// Phase used for end-of-cycle cleanup; never presented as actionable.
    Angel,
}

/// Number of phases in one full cycle.
pub const CYCLE_LEN: u8 = 8;

impl Role {
    /// The role whose phase follows `self`, wrapping after `Angel`.
    pub open spec fn spec_succ(self) -> Role {
        match self {
            Role::Hunter => Role::Vampire,
            Role::Vampire => Role::Jester,
            Role::Jester => Role::Seer,
            Role::Seer => Role::Wolf,
            Role::Wolf => Role::Witch,
            Role::Witch => Role::Mayor,
            Role::Mayor => Role::Angel,
            Role::Angel => Role::Hunter,
        }
    }

    /// The role whose phase precedes `self`, wrapping before `Hunter`.
    pub open spec fn spec_prev(self) -> Role {
        match self {
            Role::Hunter => Role::Angel,
            Role::Vampire => Role::Hunter,
            Role::Jester => Role::Vampire,
            Role::Seer => Role::Jester,
            Role::Wolf => Role::Seer,
            Role::Witch => Role::Wolf,
            Role::Mayor => Role::Witch,
            Role::Angel => Role::Mayor,
        }
    }

    /// Returns the element of the cycle that comes after `self`.
    pub fn succ(self) -> (r: Role)
        ensures
            r == self.spec_succ(),
    {
        match self {
            Role::Hunter => Role::Vampire,
            Role::Vampire => Role::Jester,
            Role::Jester => Role::Seer,
            Role::Seer => Role::Wolf,
            Role::Wolf => Role::Witch,
            Role::Witch => Role::Mayor,
            Role::Mayor => Role::Angel,
            Role::Angel => Role::Hunter,
        }
    }

    /// Returns the element of the cycle that comes before `self`.
    pub fn prev(self) -> (r: Role)
        ensures
            r == self.spec_prev(),
    {
        match self {
            Role::Hunter => Role::Angel,
            Role::Vampire => Role::Hunter,
            Role::Jester => Role::Vampire,
            Role::Seer => Role::Jester,
            Role::Wolf => Role::Seer,
            Role::Witch => Role::Wolf,
            Role::Mayor => Role::Witch,
            Role::Angel => Role::Mayor,
        }
    }

    /// The assignment pool: every role once, except `Wolf` three times.
    pub open spec fn spec_pool() -> Seq<Role> {
        seq![
            Role::Hunter,
            Role::Vampire,
            Role::Jester,
            Role::Seer,
            Role::Wolf,
            Role::Wolf,
            Role::Wolf,
            Role::Witch,
            Role::Mayor,
            Role::Angel,
        ]
    }

    /// All assignable roles, with multiplicity (`Wolf` can be held by three
    /// players at once; everything else by one).
    pub fn list() -> (r: Vec<Role>)
        ensures
            r@ == Role::spec_pool(),
    {
        let mut v: Vec<Role> = Vec::new();
        v.push(Role::Hunter);
        v.push(Role::Vampire);
        v.push(Role::Jester);
        v.push(Role::Seer);
        v.push(Role::Wolf);
        v.push(Role::Wolf);
        v.push(Role::Wolf);
        v.push(Role::Witch);
        v.push(Role::Mayor);
        v.push(Role::Angel);
        proof {
            assert(v@ =~= Role::spec_pool());
        }
        v
    }
}

impl Default for Role {
    /// The phase a fresh round opens in.
    fn default() -> (r: Role)
        ensures
            r == Role::Hunter,
    {
        Role::Hunter
    }
}

/// `r` advanced `n` phase steps.
pub open spec fn role_plus(r: Role, n: nat) -> Role
    decreases n,
{
    if n == 0 {
        r
    } else {
        role_plus(r, (n - 1) as nat).spec_succ()
    }
}

/// Law: `succ` and `prev` are inverses, so the phase order is a cycle.
pub proof fn lemma_cycle_closure(r: Role)
    ensures
        r.spec_prev().spec_succ() == r,
        r.spec_succ().spec_prev() == r,
{
}

/// Law: advancing a role by one full cycle returns it to itself.
pub proof fn lemma_cycle_period(r: Role)
    ensures
        role_plus(r, CYCLE_LEN as nat) == r,
{
    reveal_with_fuel(role_plus, 9);
}

} // verus!
