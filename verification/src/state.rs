use vstd::prelude::*;

use std::collections::HashMap;
use std::collections::HashSet;

use crate::identities::Identity;
use crate::player::{Character, Player};
pub use crate::player::{PlayerId, Seat};
use crate::roles::Role;
use vstd::multiset::Multiset;

verus! {

broadcast use vstd::std_specs::hash::group_hash_axioms, vstd::seq_lib::group_to_multiset_ensures;

/// One concrete act of the current phase's role.
#[derive(Clone, Debug, PartialEq, Eq)]
#[verifier::ext_equal]
pub enum Action {
    /// Outcome of the day's vote: the seat to eliminate, if any. Collecting
    /// the individual votes is the frontend's business.
    VoteResult(Option<Seat>),
    /// The Hunter fires at the currently aimed target.
    Shoot,
    /// The Hunter aims at a seat.
    Aim(Seat),
    /// The Vampire bites a seat, redirecting that player's turns.
    Bite(Seat),
    /// Unresolved stub: takes no effect.
    Swap(Seat, Seat),
    /// The Wolves' votes, one entry per voting seat: `(voter, victim)`.
    /// Stands in for a map, so the voter seats must be pairwise distinct.
    Eat(Vec<(Seat, Seat)>),
}

/// An input legal only in the lobby, while no round runs.
#[derive(Clone, Debug, PartialEq, Eq)]
pub enum MetaInput {
    /// Join at the given seat, or at a random one.
    Join(PlayerId, Option<Seat>),
    Quit(PlayerId),
    /// Assign characters to everyone lacking one and open the round.
    Go,
}

/// An input legal only while a round runs.
#[derive(Clone, Debug, PartialEq, Eq)]
pub enum IngameInput {
    Action(Action),
    /// The Angel lets the pending action resolve.
    AngelPass,
    /// The Angel discards the pending action and shields a seat.
    AngelVeto(Seat),
    /// Reserved; its rules are not part of the current design.
    WinAttempt,
}

/// Everything the engine can be fed.
#[derive(Clone, Debug, PartialEq, Eq)]
pub enum Input {
    Meta(MetaInput),
    Ingame(IngameInput),
}

/// What kind of input the engine is ready to accept.
#[derive(Debug, PartialEq, Eq)]
pub enum InputRequest {
    /// Accepting all [`Input::Meta`].
    Meta,
    /// Accepting actions for the given phase.
    Action(Role),
    /// Accepting the Angel's disposition of the pending action.
    Angel(Role, Action),
}

/// Every way an input can be rejected. The state is left untouched when any
/// of these comes back.
#[derive(Clone, Copy, Debug, PartialEq, Eq, Structural)]
pub enum GameError {
    /// An `Ingame` input arrived while the game sits in the lobby.
    NotInRound,
    /// A `Meta` input arrived while a round runs.
    RoundRunning,
    /// The joining id is already seated.
    DuplicateJoin,
    /// The joining id left since the last round started.
    JoinAfterQuit,
    /// An explicit join seat lies beyond the end of the roster.
    JoinSeatOutOfRange,
    /// The quitting id is not seated.
    QuitNonMember,
    /// More unassigned players than free roles or identities.
    NotEnoughAttributes,
    /// A new action arrived while one awaits the Angel.
    ActionAlreadyPending,
    /// An acting seat lies beyond the end of the roster.
    ActorOutOfRange,
    /// An acting seat is dead, spent, or redirected by a bite.
    ActorNotReady,
    /// Two Eat votes name the same voting seat.
    DuplicateEatVoter,
    /// `AngelPass` with nothing pending.
    NoPendingAction,
    /// `AngelVeto` names a seat beyond the end of the roster.
    VetoSeatOutOfRange,
    /// `Shoot` with no target aimed.
    NoTarget,
    /// `Shoot` at a target that is no longer alive.
    DeadTarget,
    /// `Aim` beyond the end of the roster.
    AimOutOfRange,
    /// `Aim` at a dead seat.
    AimAtDead,
    /// `Bite` beyond the end of the roster.
    BiteOutOfRange,
    /// `Bite` at a dead seat.
    BiteAtDead,
    /// `Bite` with more or fewer than exactly one acting seat.
    AmbiguousBite,
    /// A vote result names a seat beyond the end of the roster.
    LynchOutOfRange,
    /// A vote result names a dead seat.
    LynchAtDead,
    /// An Eat vote names a victim beyond the end of the roster.
    EatTargetOutOfRange,
    /// An Eat vote names a dead victim.
    EatTargetDead,
    /// `WinAttempt` is reserved and not part of the current design.
    WinAttemptUnsupported,
}

/// The mathematical model of a [`State`].
#[verifier::ext_equal]
pub struct GameView {
    pub players: Seq<Player>,
    pub points: Map<PlayerId, u32>,
    pub just_quit: Set<PlayerId>,
    pub phase: Option<Role>,
    pub mourning: bool,
    pub target: Option<Seat>,
    pub shielded: Option<Seat>,
    pub shield_is_current: bool,
    pub pending_action: Option<Action>,
}

impl GameView {
    /// The state a fresh game starts in: empty lobby, nothing scored.
    pub open spec fn init() -> GameView {
        GameView {
            players: Seq::empty(),
            points: Map::empty(),
            just_quit: Set::empty(),
            phase: None,
            mourning: false,
            target: None,
            shielded: None,
            shield_is_current: false,
            pending_action: None,
        }
    }

    /// No two seats carry the same player id.
    pub open spec fn ids_distinct(self) -> bool {
        forall|i: int, j: int|
            #![trigger self.players[i].id, self.players[j].id]
            0 <= i < j < self.players.len() ==> self.players[i].id != self.players[j].id
    }

    /// Every bite reference names a seat of the roster.
    pub open spec fn bite_refs_in_range(self) -> bool {
        forall|i: int|
            0 <= i < self.players.len() ==> ((#[trigger] self.players[i]).character matches Some(c)
                ==> c.bitten_by matches Some(v) ==> v < self.players.len())
    }

    /// The Hunter's target and the Angel's shield name seats of the roster.
    pub open spec fn seat_flags_in_range(self) -> bool {
        &&& (self.target matches Some(t) ==> t < self.players.len())
        &&& (self.shielded matches Some(s) ==> s < self.players.len())
    }

    /// In the lobby no round-scoped state survives.
    pub open spec fn lobby_clean(self) -> bool {
        self.phase is None ==> {
            &&& self.target is None
            &&& self.shielded is None
            &&& !self.shield_is_current
            &&& self.pending_action is None
            &&& !self.mourning
        }
    }

    /// Everything `wf` asks except the resting-phase rule; holds also of the
    /// intermediate states phase advancement walks through.
    pub open spec fn wf0(self) -> bool {
        &&& self.ids_distinct()
        &&& self.bite_refs_in_range()
        &&& self.seat_flags_in_range()
        &&& self.lobby_clean()
    }

    /// The state invariant: well-formed references, and the engine never
    /// rests on the structural `Angel` phase.
    pub open spec fn wf(self) -> bool {
        &&& self.wf0()
        &&& self.phase != Some(Role::Angel)
    }
}

/// The engine: roster, score, phase position and round-scoped flags. One
/// instance is one game, driven by one serialized stream of inputs.
#[derive(Debug)]
pub struct State {
    points: HashMap<PlayerId, u32>,
    players: Vec<Player>,
    just_quit: HashSet<PlayerId>,
    /// `None` means lobby: players may join and leave.
    phase: Option<Role>,
    /// Whether somebody died this round (read by the Queen's condition).
    mourning: bool,
    /// The seat the Hunter aims at.
    target: Option<Seat>,
    /// The seat shielded from being vetoed again by the Angel.
    shielded: Option<Seat>,
    /// Whether the shield stems from this cycle (`false`: from the last).
    shield_is_current: bool,
    /// An action buffered while it awaits the Angel's disposition.
    pending_action: Option<Action>,
}

impl View for State {
    type V = GameView;

    closed spec fn view(&self) -> GameView {
        GameView {
            players: self.players@,
            points: self.points@,
            just_quit: self.just_quit@,
            phase: self.phase,
            mourning: self.mourning,
            target: self.target,
            shielded: self.shielded,
            shield_is_current: self.shield_is_current,
            pending_action: self.pending_action,
        }
    }
}

impl State {
    /// Builds an empty game in the lobby.
    pub fn new() -> (r: State)
        ensures
            r@ == GameView::init(),
            r@.wf(),
    {
        let r = State {
            points: HashMap::new(),
            players: Vec::new(),
            just_quit: HashSet::new(),
            phase: None,
            mourning: false,
            target: None,
            shielded: None,
            shield_is_current: false,
            pending_action: None,
        };
        proof {
            assert(r@ =~= GameView::init());
        }
        r
    }

    /// Cumulative score by player id.
    pub fn points(&self) -> (r: &HashMap<PlayerId, u32>)
        ensures
            r@ == self@.points,
    {
        &self.points
    }

    /// The ordered roster.
    pub fn players(&self) -> (r: &Vec<Player>)
        ensures
            r@ == self@.players,
    {
        &self.players
    }

    /// Ids that left since the last round started.
    pub fn just_quit(&self) -> (r: &HashSet<PlayerId>)
        ensures
            r@ == self@.just_quit,
    {
        &self.just_quit
    }

    /// The phase whose role may act; `None` in the lobby.
    pub fn phase(&self) -> (r: Option<Role>)
        ensures
            r == self@.phase,
    {
        self.phase
    }

    /// Whether somebody died this round.
    pub fn mourning(&self) -> (r: bool)
        ensures
            r == self@.mourning,
    {
        self.mourning
    }

    /// The seat the Hunter aims at.
    pub fn target(&self) -> (r: Option<Seat>)
        ensures
            r == self@.target,
    {
        self.target
    }

    /// The seat the Angel shields from another veto.
    pub fn shielded(&self) -> (r: Option<Seat>)
        ensures
            r == self@.shielded,
    {
        self.shielded
    }

    /// Whether the shield stems from the present cycle.
    pub fn shield_is_current(&self) -> (r: bool)
        ensures
            r == self@.shield_is_current,
    {
        self.shield_is_current
    }

    /// The action awaiting the Angel, if any.
    pub fn pending_action(&self) -> (r: &Option<Action>)
        ensures
            *r == self@.pending_action,
    {
        &self.pending_action
    }

    /// The kind of input the engine is ready to accept.
    pub fn next_input(&self) -> (r: InputRequest)
        ensures
            request_matches(self@, r),
    {
        match self.phase {
            Some(phase) => match &self.pending_action {
                Some(a) => InputRequest::Angel(phase, clone_action(a)),
                None => InputRequest::Action(phase),
            },
            None => InputRequest::Meta,
        }
    }

    /// Seats of living players holding the given role, in seat order.
    #[verifier::loop_isolation(false)]
    fn living_players_with_role(&self, role: Role) -> (r: Vec<Seat>)
        ensures
            r@ == spec_seats_with_role(self@.players, role),
            forall|k: int|
                0 <= k < r@.len() ==> (#[trigger] r@[k]) < self@.players.len() && (
                self@.players[r@[k] as int].character matches Some(c) && c.role == role),
    {
        let mut r: Vec<Seat> = Vec::new();
        let mut i: usize = 0;
        while i < self.players.len()
            invariant
                i <= self@.players.len(),
                r@ == spec_seats_with_role(self@.players.take(i as int), role),
                forall|k: int|
                    0 <= k < r@.len() ==> (#[trigger] r@[k]) < i && (
                    self@.players[r@[k] as int].character matches Some(c) && c.role == role),
            decreases self@.players.len() - i,
        {
            proof {
                assert(self@.players.take(i + 1).drop_last() =~= self@.players.take(i as int));
                assert(self@.players.take(i + 1).last() == self@.players[i as int]);
            }
            let keep = match &self.players[i].character {
                Some(c) => matches_role(c.role, role),
                None => false,
            };
            if keep {
                r.push(i);
            }
            i += 1;
        }
        proof {
            assert(self@.players.take(self@.players.len() as int) =~= self@.players);
        }
        r
    }

    /// The seats that act for the current phase: living holders of the
    /// phase's role, bitten ones redirected to the biting vampire.
    #[verifier::loop_isolation(false)]
    pub fn current_actor_seats(&self) -> (r: Vec<Seat>)
        requires
            self@.phase is Some,
            self@.bite_refs_in_range(),
        ensures
            r@ == spec_current_actors(self@.players, self@.phase->0),
            forall|k: int| 0 <= k < r@.len() ==> (#[trigger] r@[k]) < self@.players.len(),
    {
        let phase = match self.phase {
            Some(p) => p,
            None => Role::Hunter,
        };
        let seats = self.living_players_with_role(phase);
        let mut r: Vec<Seat> = Vec::new();
        let mut k: usize = 0;
        while k < seats.len()
            invariant
                k <= seats@.len(),
                r@ == seats@.take(k as int).map_values(
                    |s: Seat| spec_redirect(self@.players, s),
                ),
                forall|j: int| 0 <= j < r@.len() ==> (#[trigger] r@[j]) < self@.players.len(),
            decreases seats@.len() - k,
        {
            let s = seats[k];
            let actor = match &self.players[s].character {
                Some(c) => match c.bitten_by {
                    Some(v) => v,
                    None => s,
                },
                None => s,
            };
            r.push(actor);
            proof {
                assert(seats@.take(k + 1).drop_last() =~= seats@.take(k as int));
                assert(r@ =~= seats@.take(k + 1).map_values(
                    |s2: Seat| spec_redirect(self@.players, s2),
                ));
            }
            k += 1;
        }
        proof {
            assert(seats@.take(seats@.len() as int) =~= seats@);
        }
        r
    }

    /// Whether some living holder of the role can still act for their own
    /// seat; this is what stops the phase cycle's advancement.
    #[verifier::loop_isolation(false)]
    fn has_ready_holder(&self, role: Role) -> (b: bool)
        ensures
            b == spec_has_ready_holder(self@.players, role),
    {
        let mut i: usize = 0;
        while i < self.players.len()
            invariant
                i <= self@.players.len(),
                forall|j: int|
                    0 <= j < i ==> !{
                        let p = #[trigger] self@.players[j];
                        p.character matches Some(c) && c.role == role && p.spec_can_act()
                    },
            decreases self@.players.len() - i,
        {
            let matches_phase = match &self.players[i].character {
                Some(c) => matches_role(c.role, role),
                None => false,
            };
            if matches_phase && self.players[i].can_act() {
                proof {
                    let w = i as int;
                    assert(0 <= w < self@.players.len() && {
                        let p = #[trigger] self@.players[w];
                        p.character matches Some(c) && c.role == role && p.spec_can_act()
                    });
                }
                return true;
            }
            i += 1;
        }
        false
    }

    /// Clears every bite reference to a seat whose player died or left.
    #[verifier::loop_isolation(false)]
    fn cleanup_player_references(&mut self, seat: Seat)
        ensures
            final(self)@ == (GameView { players: spec_clear_bites(old(self)@.players, seat), ..old(self)@ }),
    {
        let n = self.players.len();
        let mut i: usize = 0;
        while i < n
            invariant
                i <= n,
                n == self@.players.len(),
                self@.players.len() == old(self)@.players.len(),
                forall|j: int|
                    0 <= j < i ==> self@.players[j] == spec_clear_bite(
                        #[trigger] old(self)@.players[j],
                        seat,
                    ),
                forall|j: int| i <= j < n ==> self@.players[j] == old(self)@.players[j],
                self@.points == old(self)@.points,
                self@.just_quit == old(self)@.just_quit,
                self@.phase == old(self)@.phase,
                self@.mourning == old(self)@.mourning,
                self@.target == old(self)@.target,
                self@.shielded == old(self)@.shielded,
                self@.shield_is_current == old(self)@.shield_is_current,
                self@.pending_action == old(self)@.pending_action,
            decreases n - i,
        {
            let p = self.players[i];
            match p.character {
                Some(c) => match c.bitten_by {
                    Some(v) => if v == seat {
                        self.players.set(
                            i,
                            Player { id: p.id, character: Some(Character { bitten_by: None, ..c }) },
                        );
                    },
                    None => {}
                },
                None => {}
            }
            i += 1;
        }
        proof {
            assert(self@.players =~= spec_clear_bites(old(self)@.players, seat));
            assert(self@ =~= (GameView {
                players: spec_clear_bites(old(self)@.players, seat),
                ..old(self)@
            }));
        }
    }

    /// Kills a living seat.
    fn kill(&mut self, seat: Seat)
        requires
            seat < old(self)@.players.len(),
            old(self)@.players[seat as int].character is Some,
        ensures
            final(self)@ == spec_kill(old(self)@, seat),
    {
        let id = self.players[seat].id;
        self.players.set(seat, Player { id, character: None });
        self.mourning = true;
        let drop_target = match self.target {
            Some(t) => t == seat,
            None => false,
        };
        if drop_target {
            self.target = None;
        }
        self.cleanup_player_references(seat);
        proof {
            assert(self@ =~= spec_kill(old(self)@, seat));
        }
    }

    /// Runs a victory event for the given primary victor seats.
    #[verifier::loop_isolation(false)]
    fn victory(&mut self, victors: Vec<Seat>)
        requires
            forall|k: int| 0 <= k < victors@.len() ==> (#[trigger] victors@[k])
                < old(self)@.players.len(),
        ensures
            final(self)@ == spec_victory(old(self)@, victors@),
    {
        let n = self.players.len();
        // Everyone else who wins alongside the victors.
        let mut with: Vec<Seat> = Vec::new();
        let mut i: usize = 0;
        while i < n
            invariant
                i <= n,
                n == self@.players.len(),
                with@ == spec_with_upto(self@.players, victors@, i as int),
                forall|k: int| 0 <= k < with@.len() ==> (#[trigger] with@[k]) < i,
            decreases n - i,
        {
            let mut joins = false;
            if !seat_in(&victors, i) {
                match &self.players[i].character {
                    Some(c) => {
                        let w = c.identity.wincon();
                        joins = w.is_with(&self.players, &victors);
                    }
                    None => {}
                }
            }
            if joins {
                with.push(i);
            }
            i += 1;
        }
        let ghost pre = self@;
        let mut all = victors;
        let ghost primaries = all@;
        let mut k: usize = 0;
        while k < with.len()
            invariant
                k <= with@.len(),
                all@ == primaries + with@.take(k as int),
            decreases with@.len() - k,
        {
            all.push(with[k]);
            proof {
                assert(all@ =~= primaries + with@.take(k + 1));
            }
            k += 1;
        }
        proof {
            assert(with@.take(with@.len() as int) =~= with@);
            assert(all@ == primaries + with@);
        }
        // Clear every victor's character.
        let ghost roster0 = self@.players;
        let mut k2: usize = 0;
        while k2 < all.len()
            invariant
                k2 <= all@.len(),
                self@.players == spec_clear_seats(roster0, all@.take(k2 as int)),
                self@.players.len() == roster0.len(),
                self@.points == pre.points,
                self@.just_quit == pre.just_quit,
                self@.phase == pre.phase,
                self@.mourning == pre.mourning,
                self@.target == pre.target,
                self@.shielded == pre.shielded,
                self@.shield_is_current == pre.shield_is_current,
                self@.pending_action == pre.pending_action,
            decreases all@.len() - k2,
        {
            proof {
                assert(all@.take(k2 + 1).drop_last() =~= all@.take(k2 as int));
            }
            let s = all[k2];
            if s < self.players.len() {
                let id = self.players[s].id;
                self.players.set(s, Player { id, character: None });
            }
            k2 += 1;
        }
        proof {
            assert(all@.take(all@.len() as int) =~= all@);
        }
        // Count the seats now left without a character; they are the gain.
        let mut count: usize = 0;
        let mut k3: usize = 0;
        while k3 < self.players.len()
            invariant
                k3 <= self@.players.len(),
                count <= k3,
                count == spec_charless_upto(self@.players, k3 as int),
            decreases self@.players.len() - k3,
        {
            if self.players[k3].character.is_none() {
                count += 1;
            }
            k3 += 1;
        }
        let gain: u32 = if count >= u32::MAX as usize {
            u32::MAX
        } else {
            count as u32
        };
        // Credit every victor.
        let ghost points0 = self@.points;
        let ghost cleared = self@.players;
        let mut k4: usize = 0;
        while k4 < all.len()
            invariant
                k4 <= all@.len(),
                self@.points == spec_award(points0, cleared, all@.take(k4 as int), gain),
                self@.players == cleared,
                self@.just_quit == pre.just_quit,
                self@.phase == pre.phase,
                self@.mourning == pre.mourning,
                self@.target == pre.target,
                self@.shielded == pre.shielded,
                self@.shield_is_current == pre.shield_is_current,
                self@.pending_action == pre.pending_action,
            decreases all@.len() - k4,
        {
            proof {
                assert(all@.take(k4 + 1).drop_last() =~= all@.take(k4 as int));
            }
            let s = all[k4];
            if s < self.players.len() {
                let id = self.players[s].id;
                let cur = match self.points.get(&id) {
                    Some(v) => *v,
                    None => 0,
                };
                let credited = sat_add(cur, gain);
                self.points.insert(id, credited);
            }
            k4 += 1;
        }
        proof {
            assert(all@.take(all@.len() as int) =~= all@);
        }
        // Back to the lobby, with all round-scoped state cleared.
        self.just_quit.clear();
        self.phase = None;
        self.mourning = false;
        self.target = None;
        self.shielded = None;
        self.shield_is_current = false;
        self.pending_action = None;
        proof {
            assert(self@.just_quit =~= Set::<PlayerId>::empty());
            assert(spec_with_upto(pre.players, victors@, pre.players.len() as int)
                == spec_with_seats(pre.players, victors@));
            assert(self@ =~= spec_victory(pre, victors@));
        }
    }

    /// Scans every living player's win condition and, if any `Static`
    /// branch fires, runs the victory event for the firing seats.
    #[verifier::loop_isolation(false)]
    fn check_wincons(&mut self)
        ensures
            final(self)@ == spec_check_wincons(old(self)@),
    {
        let n = self.players.len();
        let mut vs: Vec<Seat> = Vec::new();
        let mut i: usize = 0;
        while i < n
            invariant
                i <= n,
                n == self@.players.len(),
                vs@ == spec_victors_upto(self@.players, self@.phase, self@.mourning, i as int),
                forall|k: int| 0 <= k < vs@.len() ==> (#[trigger] vs@[k]) < i,
            decreases n - i,
        {
            match &self.players[i].character {
                Some(c) => {
                    let w = c.identity.wincon();
                    if w.static_eval(self.phase, self.mourning) {
                        vs.push(i);
                    }
                }
                None => {}
            }
            i += 1;
        }
        if vs.len() > 0 {
            self.victory(vs);
        }
    }

    /// Handles a `Join`: validates, then inserts the player at the chosen
    /// or a randomly drawn seat, shifting bite references up with their
    /// owners.
    #[verifier::loop_isolation(false)]
    #[verifier::rlimit(60)]
    fn meta_join(&mut self, p: PlayerId, opt_seat: Option<Seat>) -> (r: Result<(), GameError>)
        requires
            old(self)@.wf(),
            old(self)@.phase is None,
        ensures
            final(self)@.wf(),
            match spec_validate_meta(old(self)@, MetaInput::Join(p, opt_seat)) {
                Some(e) => r == Err::<(), GameError>(e) && final(self)@ == old(self)@,
                None => r == Ok::<(), GameError>(()) && match opt_seat {
                    Some(st) => final(self)@ == spec_join(old(self)@, p, st),
                    None => exists|st: Seat|
                        {
                            &&& st <= old(self)@.players.len()
                            &&& old(self)@.players.len() > 0 ==> st < old(self)@.players.len()
                            &&& final(self)@ == #[trigger] spec_join(old(self)@, p, st)
                        },
                },
            },
    {
        let n = self.players.len();
        let mut i: usize = 0;
        while i < n
            invariant
                i <= n,
                n == self@.players.len(),
                forall|j: int| 0 <= j < i ==> (#[trigger] self@.players[j]).id != p,
            decreases n - i,
        {
            if self.players[i].id == p {
                return Err(GameError::DuplicateJoin);
            }
            i += 1;
        }
        proof {
            assert(!spec_has_id(self@.players, p));
        }
        if self.just_quit.contains(&p) {
            return Err(GameError::JoinAfterQuit);
        }
        let seat: Seat = match opt_seat {
            Some(st) => {
                if st > n {
                    return Err(GameError::JoinSeatOutOfRange);
                }
                st
            }
            None => if n == 0 {
                0
            } else {
                crate::rng::random_index(n)
            },
        };
        let newcomer = Player::new(p);
        proof {
            assert(newcomer == Player { id: p, character: None::<Character> });
            old(self)@.players.insert_ensures(seat as int, newcomer);
        }
        self.players.insert(seat, newcomer);
        let ghost ins = self@.players;
        proof {
            assert forall|j: int|
                0 <= j < ins.len() implies ((#[trigger] ins[j]).character matches Some(c)
                    ==> c.bitten_by matches Some(v) ==> v < old(self)@.players.len()) by {
                if j < seat {
                    assert(ins[j] == old(self)@.players[j]);
                } else if j == seat {
                    assert(ins[j] == newcomer);
                } else {
                    assert(ins[(j - 1) + 1] == old(self)@.players[j - 1]);
                    assert(ins[j] == old(self)@.players[j - 1]);
                }
            }
        }
        let m = self.players.len();
        let mut k: usize = 0;
        while k < m
            invariant
                k <= m,
                m == self@.players.len(),
                m == ins.len(),
                forall|j: int|
                    0 <= j < k ==> self@.players[j] == spec_bump_bite(#[trigger] ins[j], seat),
                forall|j: int| k <= j < m ==> self@.players[j] == #[trigger] ins[j],
                forall|j: int|
                    0 <= j < ins.len() ==> ((#[trigger] ins[j]).character matches Some(c)
                        ==> c.bitten_by matches Some(v) ==> v < m - 1),
                self@.points == old(self)@.points,
                self@.just_quit == old(self)@.just_quit,
                self@.phase == old(self)@.phase,
                self@.mourning == old(self)@.mourning,
                self@.target == old(self)@.target,
                self@.shielded == old(self)@.shielded,
                self@.shield_is_current == old(self)@.shield_is_current,
                self@.pending_action == old(self)@.pending_action,
            decreases m - k,
        {
            let q = self.players[k];
            proof {
                assert(q == ins[k as int]);
            }
            match q.character {
                Some(c) => match c.bitten_by {
                    Some(v) => if v >= seat {
                        self.players.set(
                            k,
                            Player {
                                id: q.id,
                                character: Some(Character { bitten_by: Some(v + 1), ..c }),
                            },
                        );
                    },
                    None => {}
                },
                None => {}
            }
            k += 1;
        }
        proof {
            assert(self@.players =~= spec_join_players(old(self)@.players, p, seat));
            assert(self@ =~= spec_join(old(self)@, p, seat));
        }
        Ok(())
    }

    /// Handles a `Quit`: validates, removes the seat, remembers the id,
    /// clears bite references to the seat and shifts those above it down.
    #[verifier::loop_isolation(false)]
    fn meta_quit(&mut self, p: PlayerId) -> (r: Result<(), GameError>)
        requires
            old(self)@.wf(),
            old(self)@.phase is None,
        ensures
            final(self)@.wf(),
            match spec_validate_meta(old(self)@, MetaInput::Quit(p)) {
                Some(e) => r == Err::<(), GameError>(e) && final(self)@ == old(self)@,
                None => r == Ok::<(), GameError>(()) && final(self)@ == spec_quit(old(self)@, p),
            },
    {
        let n = self.players.len();
        let mut seat: usize = 0;
        let mut found = false;
        let mut i: usize = 0;
        while i < n
            invariant
                i <= n,
                n == self@.players.len(),
                !found ==> forall|j: int| 0 <= j < i ==> (#[trigger] self@.players[j]).id != p,
                found ==> {
                    &&& seat < i
                    &&& self@.players[seat as int].id == p
                    &&& spec_seat_of(self@.players, p) == seat
                },
            decreases n - i,
        {
            if !found {
                if self.players[i].id == p {
                    seat = i;
                    found = true;
                    proof {
                        lemma_seat_of(self@.players, p, i as int);
                    }
                }
            }
            i += 1;
        }
        if !found {
            proof {
                assert(!spec_has_id(self@.players, p));
            }
            return Err(GameError::QuitNonMember);
        }
        proof {
            assert(spec_has_id(self@.players, p));
        }
        let ghost pre = self@;
        self.players.remove(seat);
        let ghost removed = self@.players;
        self.just_quit.insert(p);
        self.cleanup_player_references(seat);
        proof {
            assert(forall|j: int|
                0 <= j < removed.len() ==> self@.players[j] == spec_clear_bite(
                    #[trigger] removed[j],
                    seat,
                ));
        }
        let m = self.players.len();
        let mut k: usize = 0;
        while k < m
            invariant
                k <= m,
                m == self@.players.len(),
                m == removed.len(),
                forall|j: int|
                    0 <= j < k ==> self@.players[j] == spec_unbump_bite(#[trigger] removed[j], seat),
                forall|j: int|
                    k <= j < m ==> self@.players[j] == spec_clear_bite(#[trigger] removed[j], seat),
                self@.points == pre.points,
                self@.just_quit == pre.just_quit.insert(p),
                self@.phase == pre.phase,
                self@.mourning == pre.mourning,
                self@.target == pre.target,
                self@.shielded == pre.shielded,
                self@.shield_is_current == pre.shield_is_current,
                self@.pending_action == pre.pending_action,
            decreases m - k,
        {
            let q = self.players[k];
            match q.character {
                Some(c) => match c.bitten_by {
                    Some(v) => if v > seat {
                        self.players.set(
                            k,
                            Player {
                                id: q.id,
                                character: Some(Character { bitten_by: Some(v - 1), ..c }),
                            },
                        );
                    },
                    None => {}
                },
                None => {}
            }
            k += 1;
        }
        proof {
            assert(self@.players =~= pre.players.remove(seat as int).map_values(
                |q: Player| spec_unbump_bite(q, seat),
            ));
            assert(self@ =~= spec_quit(pre, p));
        }
        Ok(())
    }

    /// Handles a `Go`: validates that the free roles and identities cover
    /// the unassigned seats, shuffles both free pools, assigns them to the
    /// unassigned seats in order, and opens the round.
    #[verifier::loop_isolation(false)]
    fn meta_go(&mut self) -> (r: Result<(), GameError>)
        requires
            old(self)@.wf(),
            old(self)@.phase is None,
        ensures
            final(self)@.wf(),
            match spec_validate_meta(old(self)@, MetaInput::Go) {
                Some(e) => r == Err::<(), GameError>(e) && final(self)@ == old(self)@,
                None => r == Ok::<(), GameError>(()) && spec_go_rel(old(self)@, final(self)@),
            },
    {
        let n = self.players.len();
        let mut held_roles: Vec<Role> = Vec::new();
        let mut held_ids: Vec<Identity> = Vec::new();
        let mut unassigned: usize = 0;
        let mut i: usize = 0;
        while i < n
            invariant
                i <= n,
                n == self@.players.len(),
                held_roles@ == spec_held_roles_upto(self@.players, i as int),
                held_ids@ == spec_held_ids_upto(self@.players, i as int),
                unassigned == spec_charless_upto(self@.players, i as int),
                unassigned <= i,
            decreases n - i,
        {
            match &self.players[i].character {
                Some(c) => {
                    held_roles.push(c.role);
                    held_ids.push(c.identity);
                }
                None => {
                    unassigned += 1;
                }
            }
            i += 1;
        }
        let pool_roles = Role::list();
        let pool_ids = Identity::list();
        let mut free_roles = crate::bags::free_values(&pool_roles, &held_roles);
        let mut free_ids = crate::bags::free_values(&pool_ids, &held_ids);
        proof {
            assert(free_roles@.to_multiset() == spec_free_roles(self@.players));
            assert(free_ids@.to_multiset() == spec_free_ids(self@.players));
            assert(free_roles@.len() == free_roles@.to_multiset().len());
            assert(free_ids@.len() == free_ids@.to_multiset().len());
        }
        if unassigned > free_roles.len() || unassigned > free_ids.len() {
            return Err(GameError::NotEnoughAttributes);
        }
        crate::rng::shuffle_values(&mut free_roles);
        crate::rng::shuffle_values(&mut free_ids);
        proof {
            assert(free_roles@.len() == free_roles@.to_multiset().len());
            assert(free_ids@.len() == free_ids@.to_multiset().len());
        }
        self.just_quit.clear();
        let ghost pre = old(self)@;
        let mut j: usize = 0;
        let mut k: usize = 0;
        while k < n
            invariant
                k <= n,
                n == self@.players.len(),
                self@.players.len() == pre.players.len(),
                j == spec_charless_upto(pre.players, k as int),
                j <= unassigned,
                unassigned == spec_count_charless(pre.players),
                unassigned <= free_roles@.len(),
                unassigned <= free_ids@.len(),
                forall|w: int|
                    0 <= w < k ==> self@.players[w] == spec_assign(
                        pre.players,
                        free_roles@,
                        free_ids@,
                    )[w],
                forall|w: int| k <= w < n ==> self@.players[w] == #[trigger] pre.players[w],
                self@.points == pre.points,
                self@.just_quit =~= Set::<PlayerId>::empty(),
                self@.phase == pre.phase,
                self@.mourning == pre.mourning,
                self@.target == pre.target,
                self@.shielded == pre.shielded,
                self@.shield_is_current == pre.shield_is_current,
                self@.pending_action == pre.pending_action,
            decreases n - k,
        {
            proof {
                lemma_charless_upto_mono(pre.players, k + 1, n as int);
            }
            let charless = self.players[k].character.is_none();
            if charless {
                let role = free_roles[j];
                let ident = free_ids[j];
                let id = self.players[k].id;
                self.players.set(k, Player { id, character: Some(Character::new(role, ident)) });
                j += 1;
            }
            k += 1;
        }
        self.phase = Some(Role::default());
        proof {
            assert(self@.players =~= spec_assign(pre.players, free_roles@, free_ids@));
            assert(self@.just_quit =~= Set::<PlayerId>::empty());
            assert(self@ =~= spec_go_result(pre, free_roles@, free_ids@));
            assert(spec_go_rel(pre, self@));
        }
        Ok(())
    }

    /// Checks an action's resolution against the current state, without
    /// touching anything.
    #[verifier::loop_isolation(false)]
    fn validate_action(&self, actors: &Vec<Seat>, action: &Action) -> (e: Option<GameError>)
        ensures
            e == spec_validate_action(self@, actors@, *action),
    {
        match action {
            Action::Shoot => match self.target {
                Some(t) => if t < self.players.len() && self.players[t].character.is_some() {
                    None
                } else {
                    Some(GameError::DeadTarget)
                },
                None => Some(GameError::NoTarget),
            },
            Action::Aim(t) => if *t >= self.players.len() {
                Some(GameError::AimOutOfRange)
            } else if self.players[*t].character.is_none() {
                Some(GameError::AimAtDead)
            } else {
                None
            },
            Action::Bite(t) => if *t >= self.players.len() {
                Some(GameError::BiteOutOfRange)
            } else if self.players[*t].character.is_none() {
                Some(GameError::BiteAtDead)
            } else if actors.len() != 1 {
                Some(GameError::AmbiguousBite)
            } else {
                None
            },
            Action::Swap(_, _) => None,
            Action::VoteResult(o) => match o {
                Some(t) => if *t >= self.players.len() {
                    Some(GameError::LynchOutOfRange)
                } else if self.players[*t].character.is_none() {
                    Some(GameError::LynchAtDead)
                } else {
                    None
                },
                None => None,
            },
            Action::Eat(votes) => {
                let mut k: usize = 0;
                while k < votes.len()
                    invariant
                        k <= votes@.len(),
                        spec_validate_eat_targets(self@.players, votes@, k as int) is None,
                    decreases votes@.len() - k,
                {
                    let t = votes[k].1;
                    if t >= self.players.len() {
                        proof {
                            lemma_validate_eat_extend(
                                self@.players,
                                votes@,
                                k + 1,
                                votes@.len() as int,
                            );
                        }
                        return Some(GameError::EatTargetOutOfRange);
                    }
                    if self.players[t].character.is_none() {
                        proof {
                            lemma_validate_eat_extend(
                                self@.players,
                                votes@,
                                k + 1,
                                votes@.len() as int,
                            );
                        }
                        return Some(GameError::EatTargetDead);
                    }
                    k += 1;
                }
                None
            }
        }
    }

    /// Spends the acting seats' tokens.
    #[verifier::loop_isolation(false)]
    fn mark_unready(&mut self, actors: &Vec<Seat>)
        ensures
            final(self)@ == (GameView {
                players: spec_mark_unready(old(self)@.players, actors@),
                ..old(self)@
            }),
    {
        let mut k: usize = 0;
        while k < actors.len()
            invariant
                k <= actors@.len(),
                self@.players == spec_mark_unready(old(self)@.players, actors@.take(k as int)),
                self@.points == old(self)@.points,
                self@.just_quit == old(self)@.just_quit,
                self@.phase == old(self)@.phase,
                self@.mourning == old(self)@.mourning,
                self@.target == old(self)@.target,
                self@.shielded == old(self)@.shielded,
                self@.shield_is_current == old(self)@.shield_is_current,
                self@.pending_action == old(self)@.pending_action,
            decreases actors@.len() - k,
        {
            proof {
                assert(actors@.take(k + 1).drop_last() =~= actors@.take(k as int));
            }
            let s = actors[k];
            if s < self.players.len() {
                let q = self.players[s];
                match q.character {
                    Some(c) => {
                        self.players.set(
                            s,
                            Player { id: q.id, character: Some(Character { ready: false, ..c }) },
                        );
                    }
                    None => {}
                }
            }
            k += 1;
        }
        proof {
            assert(actors@.take(actors@.len() as int) =~= actors@);
            assert(final(self)@ =~= (GameView {
                players: spec_mark_unready(old(self)@.players, actors@),
                ..old(self)@
            }));
        }
    }

    /// Applies an applicable action's effect and advances the phase cycle.
    #[verifier::loop_isolation(false)]
    fn resolve_action(&mut self, actors: Vec<Seat>, action: Action)
        requires
            old(self)@.wf0(),
            old(self)@.phase is Some,
            old(self)@.phase != Some(Role::Angel),
            spec_action_applicable(old(self)@, actors@, action),
            forall|k: int| 0 <= k < actors@.len() ==> (#[trigger] actors@[k])
                < old(self)@.players.len(),
        ensures
            final(self)@.wf(),
            spec_resolved(old(self)@, actors@, action, final(self)@),
    {
        let ghost pre = self@;
        match action {
            Action::Shoot => {
                let t = match self.target {
                    Some(t) => t,
                    None => 0,
                };
                self.kill(t);
                proof {
                    lemma_kill_wf0(pre, t);
                }
            }
            Action::Aim(t) => {
                self.target = Some(t);
                proof {
                    assert(self@ =~= (GameView { target: Some(t), ..pre }));
                }
            }
            Action::Bite(t) => {
                let v = actors[0];
                let q = self.players[t];
                match q.character {
                    Some(c) => {
                        self.players.set(
                            t,
                            Player {
                                id: q.id,
                                character: Some(Character { bitten_by: Some(v), ..c }),
                            },
                        );
                    }
                    None => {}
                }
                proof {
                    assert(self@.players =~= spec_set_bite(pre, t, v).players);
                    assert(self@ =~= spec_set_bite(pre, t, v));
                    lemma_set_bite_wf0(pre, t, v);
                }
            }
            Action::Swap(_, _) => {}
            Action::VoteResult(o) => match o {
                Some(t) => {
                    self.kill(t);
                    proof {
                        lemma_kill_wf0(pre, t);
                    }
                }
                None => {}
            },
            Action::Eat(votes) => {
                if votes.len() > 0 {
                    let mut targets: Vec<Seat> = Vec::new();
                    let mut i: usize = 0;
                    while i < votes.len()
                        invariant
                            i <= votes@.len(),
                            targets@ == spec_eat_targets(votes@.take(i as int)),
                        decreases votes@.len() - i,
                    {
                        targets.push(votes[i].1);
                        proof {
                            assert(votes@.take(i + 1).drop_last() =~= votes@.take(i as int));
                            assert(targets@ =~= spec_eat_targets(votes@.take(i + 1)));
                        }
                        i += 1;
                    }
                    proof {
                        assert(votes@.take(votes@.len() as int) =~= votes@);
                        assert(targets@ =~= spec_eat_targets(votes@));
                        assert(targets@[0] == votes@[0].1);
                    }
                    let entries = crate::bags::tally(&targets);
                    proof {
                        assert(targets@.to_multiset().count(targets@[0]) > 0);
                        assert(entries@.len() > 0);
                    }
                    let mut best_seat: Seat = entries[0].0;
                    let mut best_count: usize = entries[0].1;
                    let mut k: usize = 1;
                    while k < entries.len()
                        invariant
                            1 <= k <= entries@.len(),
                            exists|x: int|
                                0 <= x < k && #[trigger] entries@[x] == (best_seat, best_count),
                            forall|x: int| 0 <= x < k ==> (#[trigger] entries@[x]).1 <= best_count,
                        decreases entries@.len() - k,
                    {
                        if entries[k].1 > best_count {
                            best_seat = entries[k].0;
                            best_count = entries[k].1;
                            proof {
                                assert(entries@[k as int] == (best_seat, best_count));
                            }
                        }
                        k += 1;
                    }
                    proof {
                        let tm = targets@.to_multiset();
                        assert(best_count == tm.count(best_seat));
                        assert forall|t: Seat| tm.count(t) <= tm.count(best_seat) by {
                            if tm.count(t) > 0 {
                                assert(targets@.contains(t));
                                let j = choose|j: int|
                                    0 <= j < targets@.len() && targets@[j] == t;
                                assert(exists|x: int|
                                    0 <= x < entries@.len() && (#[trigger] entries@[x]).0
                                        == targets@[j]);
                            }
                        }
                        assert(tm.count(best_seat) >= 1) by {
                            assert(tm.count(targets@[0]) > 0);
                            assert(tm.count(targets@[0]) <= tm.count(best_seat));
                        }
                        assert(spec_plurality(spec_eat_targets(votes@), best_seat));
                        assert(targets@.contains(best_seat));
                        let j2 = choose|j2: int|
                            0 <= j2 < targets@.len() && targets@[j2] == best_seat;
                        assert((votes@[j2]).1 == best_seat);
                    }
                    self.kill(best_seat);
                    proof {
                        lemma_kill_wf0(pre, best_seat);
                    }
                }
            }
        }
        let ghost mid = self@;
        self.set_next_phase();
        proof {
            lemma_advance_wf0(mid, crate::roles::CYCLE_LEN as nat);
            assert(mid.phase == pre.phase);
            assert(dist_to_angel(mid.phase->0) < 8);
            lemma_advance_open(mid, crate::roles::CYCLE_LEN as nat);
        }
    }

    /// Handles an `Action` input: validates it, spends the actors' tokens,
    /// and either buffers the action for the Angel or resolves it at once.
    #[verifier::loop_isolation(false)]
    #[verifier::rlimit(60)]
    fn ingame_action(&mut self, action: Action) -> (r: Result<(), GameError>)
        requires
            old(self)@.wf(),
            old(self)@.phase is Some,
        ensures
            final(self)@.wf(),
            match spec_validate_ingame(old(self)@, IngameInput::Action(action)) {
                Some(e) => r == Err::<(), GameError>(e) && final(self)@ == old(self)@,
                None => r == Ok::<(), GameError>(()) && spec_step_rel(
                    old(self)@,
                    Input::Ingame(IngameInput::Action(action)),
                    final(self)@,
                ),
            },
    {
        if self.pending_action.is_some() {
            return Err(GameError::ActionAlreadyPending);
        }
        let actors: Vec<Seat> = match &action {
            Action::Eat(votes) => {
                let n = votes.len();
                let mut i: usize = 0;
                while i < n
                    invariant
                        i <= n,
                        n == votes@.len(),
                        forall|a: int, b: int|
                            #![trigger votes@[a], votes@[b]]
                            0 <= a < b < votes@.len() && a < i ==> votes@[a].0 != votes@[b].0,
                    decreases n - i,
                {
                    let mut j: usize = i + 1;
                    while j < n
                        invariant
                            i < j <= n,
                            n == votes@.len(),
                            forall|b: int|
                                i < b < j ==> (#[trigger] votes@[b]).0 != votes@[i as int].0,
                        decreases n - j,
                    {
                        if votes[i].0 == votes[j].0 {
                            proof {
                                assert(votes@[i as int].0 == votes@[j as int].0);
                            }
                            return Err(GameError::DuplicateEatVoter);
                        }
                        j += 1;
                    }
                    i += 1;
                }
                proof {
                    assert(!spec_dup_voter(votes@));
                }
                let mut keys: Vec<Seat> = Vec::new();
                let mut k: usize = 0;
                while k < votes.len()
                    invariant
                        k <= votes@.len(),
                        keys@ == votes@.take(k as int).map_values(|p: (Seat, Seat)| p.0),
                    decreases votes@.len() - k,
                {
                    keys.push(votes[k].0);
                    proof {
                        assert(votes@.take(k + 1).drop_last() =~= votes@.take(k as int));
                        assert(keys@ =~= votes@.take(k + 1).map_values(|p: (Seat, Seat)| p.0));
                    }
                    k += 1;
                }
                proof {
                    assert(votes@.take(votes@.len() as int) =~= votes@);
                    assert(keys@ =~= votes@.map_values(|p: (Seat, Seat)| p.0));
                }
                keys
            }
            _ => self.current_actor_seats(),
        };
        proof {
            assert(actors@ == spec_actors_for(self@, action));
        }
        let mut k: usize = 0;
        while k < actors.len()
            invariant
                k <= actors@.len(),
                spec_validate_actors(self@.players, actors@, k as int) is None,
            decreases actors@.len() - k,
        {
            let a = actors[k];
            if a >= self.players.len() {
                proof {
                    lemma_validate_actors_extend(
                        self@.players,
                        actors@,
                        k + 1,
                        actors@.len() as int,
                    );
                }
                return Err(GameError::ActorOutOfRange);
            }
            if !self.players[a].can_act() {
                proof {
                    lemma_validate_actors_extend(
                        self@.players,
                        actors@,
                        k + 1,
                        actors@.len() as int,
                    );
                }
                return Err(GameError::ActorNotReady);
            }
            k += 1;
        }
        proof {
            lemma_validate_actors_ok(self@.players, actors@, actors@.len() as int);
        }
        let angels = self.living_players_with_role(Role::Angel);
        let angel_alive = angels.len() > 0;
        let unshielded: bool = match self.shielded {
            None => actors.len() > 0,
            Some(sh) => {
                let mut found = false;
                let mut w: usize = 0;
                while w < actors.len()
                    invariant
                        w <= actors@.len(),
                        !found ==> forall|x: int| 0 <= x < w ==> (#[trigger] actors@[x]) == sh,
                        found ==> exists|x: int| 0 <= x < w && (#[trigger] actors@[x]) != sh,
                    decreases actors@.len() - w,
                {
                    if actors[w] != sh {
                        proof {
                            assert(actors@[w as int] != sh);
                        }
                        found = true;
                    }
                    w += 1;
                }
                found
            }
        };
        proof {
            assert((angel_alive && unshielded) == spec_mediated(self@, actors@));
        }
        let ghost pre = self@;
        if angel_alive && unshielded {
            self.mark_unready(&actors);
            self.pending_action = Some(action);
            proof {
                lemma_mark_props(pre.players, actors@);
                assert(self@ =~= (GameView {
                    pending_action: Some(action),
                    players: spec_mark_unready(pre.players, actors@),
                    ..pre
                }));
                assert(self@.wf());
            }
            Ok(())
        } else {
            match self.validate_action(&actors, &action) {
                Some(e) => return Err(e),
                None => {}
            }
            proof {
                lemma_validate_applicable(pre, actors@, action);
            }
            self.mark_unready(&actors);
            proof {
                lemma_mark_props(pre.players, actors@);
                assert(self@.wf0());
                lemma_mark_applicable(pre, actors@, actors@, action);
                assert(self@ == (GameView {
                    players: spec_mark_unready(pre.players, actors@),
                    ..pre
                }));
            }
            self.resolve_action(actors, action);
            Ok(())
        }
    }

    /// Handles an `AngelPass`: the buffered action resolves, with the acting
    /// seats recomputed for the current phase.
    fn ingame_pass(&mut self) -> (r: Result<(), GameError>)
        requires
            old(self)@.wf(),
            old(self)@.phase is Some,
        ensures
            final(self)@.wf(),
            match spec_validate_ingame(old(self)@, IngameInput::AngelPass) {
                Some(e) => r == Err::<(), GameError>(e) && final(self)@ == old(self)@,
                None => r == Ok::<(), GameError>(()) && spec_step_rel(
                    old(self)@,
                    Input::Ingame(IngameInput::AngelPass),
                    final(self)@,
                ),
            },
    {
        if self.pending_action.is_none() {
            return Err(GameError::NoPendingAction);
        }
        let actors = self.current_actor_seats();
        let verdict = match &self.pending_action {
            Some(a) => self.validate_action(&actors, a),
            None => None,
        };
        match verdict {
            Some(e) => return Err(e),
            None => {}
        }
        let ghost pre = self@;
        let taken = self.pending_action.take();
        let action = match taken {
            Some(a) => a,
            None => Action::Shoot,
        };
        proof {
            assert(self@ =~= (GameView { pending_action: None, ..pre }));
            lemma_validate_applicable(pre, actors@, action);
            assert(spec_action_applicable(self@, actors@, action));
        }
        self.resolve_action(actors, action);
        Ok(())
    }

    /// Handles an `AngelVeto`: the buffered action is discarded, the seat
    /// is shielded for this cycle, and the phase cycle advances.
    fn ingame_veto(&mut self, seat: Seat) -> (r: Result<(), GameError>)
        requires
            old(self)@.wf(),
            old(self)@.phase is Some,
        ensures
            final(self)@.wf(),
            match spec_validate_ingame(old(self)@, IngameInput::AngelVeto(seat)) {
                Some(e) => r == Err::<(), GameError>(e) && final(self)@ == old(self)@,
                None => r == Ok::<(), GameError>(()) && spec_step_rel(
                    old(self)@,
                    Input::Ingame(IngameInput::AngelVeto(seat)),
                    final(self)@,
                ),
            },
    {
        if seat >= self.players.len() {
            return Err(GameError::VetoSeatOutOfRange);
        }
        let ghost pre = self@;
        self.pending_action = None;
        self.shielded = Some(seat);
        self.shield_is_current = true;
        let ghost mid = self@;
        proof {
            assert(mid =~= (GameView {
                pending_action: None,
                shielded: Some(seat),
                shield_is_current: true,
                ..pre
            }));
            assert(mid.wf0());
        }
        self.set_next_phase();
        proof {
            lemma_advance_wf0(mid, crate::roles::CYCLE_LEN as nat);
            assert(dist_to_angel(mid.phase->0) < 8);
            lemma_advance_open(mid, crate::roles::CYCLE_LEN as nat);
        }
        Ok(())
    }

    /// Feeds one input into the state machine. On success the state steps
    /// as `spec_step_rel` describes; on any rejection the state is left
    /// exactly as it was, and `spec_validate` says which error comes back
    /// for which input.
    pub fn advance_game(&mut self, input: Input) -> (r: Result<(), GameError>)
        requires
            old(self)@.wf(),
        ensures
            final(self)@.wf(),
            match spec_validate(old(self)@, input) {
                Some(e) => r == Err::<(), GameError>(e) && final(self)@ == old(self)@,
                None => r == Ok::<(), GameError>(()) && spec_step_rel(
                    old(self)@,
                    input,
                    final(self)@,
                ),
            },
    {
        match input {
            Input::Meta(m) => {
                if self.phase.is_some() {
                    return Err(GameError::RoundRunning);
                }
                match m {
                    MetaInput::Join(p, opt_seat) => self.meta_join(p, opt_seat),
                    MetaInput::Quit(p) => self.meta_quit(p),
                    MetaInput::Go => self.meta_go(),
                }
            }
            Input::Ingame(ig) => {
                if self.phase.is_none() {
                    return Err(GameError::NotInRound);
                }
                match ig {
                    IngameInput::Action(action) => self.ingame_action(action),
                    IngameInput::AngelPass => self.ingame_pass(),
                    IngameInput::AngelVeto(seat) => self.ingame_veto(seat),
                    IngameInput::WinAttempt => Err(GameError::WinAttemptUnsupported),
                }
            }
        }
    }

    /// Advances the phase cycle as `spec_advance` describes, for one full
    /// cycle of fuel.
    #[verifier::loop_isolation(false)]
    fn set_next_phase(&mut self)
        requires
            old(self)@.phase is Some,
        ensures
            final(self)@ == spec_advance(old(self)@, crate::roles::CYCLE_LEN as nat),
    {
        let ghost orig = self@;
        let mut fuel: u8 = crate::roles::CYCLE_LEN;
        loop
            invariant
                self@.phase is Some,
                1 <= fuel <= crate::roles::CYCLE_LEN,
                spec_advance(orig, crate::roles::CYCLE_LEN as nat) == spec_advance(
                    self@,
                    fuel as nat,
                ),
            decreases fuel,
        {
            let ghost s_head = self@;
            let cur = match self.phase {
                Some(r) => r,
                None => Role::Hunter,
            };
            let next = cur.succ();
            self.phase = Some(next);
            self.check_wincons();
            let ghost s2 = self@;
            proof {
                assert(s2 == spec_check_wincons(GameView { phase: Some(next), ..s_head }));
            }
            if self.phase.is_none() {
                proof {
                    assert(spec_advance(s_head, fuel as nat) == s2);
                }
                break;
            }
            if matches_role(next, Role::Angel) {
                if self.shield_is_current {
                    self.shield_is_current = false;
                } else {
                    self.shielded = None;
                }
                self.mourning = false;
                self.target = None;
                proof {
                    assert(self@ =~= spec_angel_cleanup(s2));
                    assert(spec_advance(s_head, fuel as nat) == spec_advance(
                        spec_angel_cleanup(s2),
                        (fuel - 1) as nat,
                    ));
                }
                fuel -= 1;
                if fuel == 0 {
                    break;
                }
            } else {
                if fuel == 1 || self.has_ready_holder(next) {
                    proof {
                        assert(spec_advance(s_head, fuel as nat) == s2);
                    }
                    break;
                }
                proof {
                    assert(spec_advance(s_head, fuel as nat) == spec_advance(
                        s2,
                        (fuel - 1) as nat,
                    ));
                }
                fuel -= 1;
            }
        }
    }

    /// The roster entry of a player id; the id must be seated.
    pub fn player_by_id(&self, pid: PlayerId) -> (r: &Player)
        requires
            exists|i: int| 0 <= i < self@.players.len() && self@.players[i].id == pid,
        ensures
            r.id == pid,
            self@.players.contains(*r),
    {
        let mut i: usize = 0;
        #[verifier::loop_isolation(false)]
        loop
            invariant
                i <= self.players.len(),
                forall|j: int| 0 <= j < i ==> self@.players[j].id != pid,
            decreases self.players.len() - i,
        {
            if i < self.players.len() {
                if self.players[i].id == pid {
                    return &self.players[i];
                }
                i += 1;
            } else {
                proof {
                    let w = choose|w: int| 0 <= w < self@.players.len() && self@.players[w].id
                        == pid;
                    assert(false);
                }
                i = 0;
            }
        }
    }
}

impl Default for State {
    /// An empty game in the lobby.
    fn default() -> (r: State)
        ensures
            r@ == GameView::init(),
            r@.wf(),
    {
        State::new()
    }
}

// ---------------------------------------------------------------------
// Roster queries
// ---------------------------------------------------------------------
/// Seats of living players holding the given role, in seat order.
pub open spec fn spec_seats_with_role(players: Seq<Player>, role: Role) -> Seq<Seat>
    decreases players.len(),
{
    if players.len() == 0 {
        Seq::empty()
    } else {
        let prefix = spec_seats_with_role(players.drop_last(), role);
        if players.last().character matches Some(c) && c.role == role {
            prefix.push((players.len() - 1) as usize)
        } else {
            prefix
        }
    }
}

/// The seat that actually acts for a seat: the biting vampire if the seat
/// is bitten, the seat itself otherwise.
pub open spec fn spec_redirect(players: Seq<Player>, s: Seat) -> Seat {
    match players[s as int].character {
        Some(c) => match c.bitten_by {
            Some(v) => v,
            None => s,
        },
        None => s,
    }
}

/// The seats that act for a phase: every living holder of the phase's role,
/// each redirected through a vampire's bite if it carries one.
pub open spec fn spec_current_actors(players: Seq<Player>, phase: Role) -> Seq<Seat> {
    spec_seats_with_role(players, phase).map_values(|s: Seat| spec_redirect(players, s))
}

/// Whether some living holder of the role can still act for their own seat.
pub open spec fn spec_has_ready_holder(players: Seq<Player>, role: Role) -> bool {
    exists|i: int|
        0 <= i < players.len() && {
            let p = #[trigger] players[i];
            p.character matches Some(c) && c.role == role && p.spec_can_act()
        }
}

// ---------------------------------------------------------------------
// Death and victory
// ---------------------------------------------------------------------
/// A player, with a bite reference to the given seat cleared.
pub open spec fn spec_clear_bite(p: Player, seat: Seat) -> Player {
    match p.character {
        Some(c) => if c.bitten_by == Some(seat) {
            Player { id: p.id, character: Some(Character { bitten_by: None, ..c }) }
        } else {
            p
        },
        None => p,
    }
}

/// The roster with every bite reference to the given seat cleared.
pub open spec fn spec_clear_bites(players: Seq<Player>, seat: Seat) -> Seq<Player> {
    players.map_values(|p: Player| spec_clear_bite(p, seat))
}

/// Death of a living seat: the character is cleared (the seat itself
/// stays), mourning is raised, a target aimed at the seat is dropped, and
/// bite references to the seat are cleared.
pub open spec fn spec_kill(s: GameView, seat: Seat) -> GameView {
    GameView {
        players: spec_clear_bites(
            s.players.update(seat as int, Player { id: s.players[seat as int].id, character: None }),
            seat,
        ),
        mourning: true,
        target: if s.target == Some(seat) {
            None
        } else {
            s.target
        },
        ..s
    }
}

/// Seats, among the first `n`, of living players whose win condition's
/// `Static` branch holds of the given round state, in seat order.
pub open spec fn spec_victors_upto(
    players: Seq<Player>,
    phase: Option<Role>,
    mourning: bool,
    n: int,
) -> Seq<Seat>
    decreases n,
{
    if n <= 0 {
        Seq::empty()
    } else {
        let prefix = spec_victors_upto(players, phase, mourning, n - 1);
        if players[n - 1].character matches Some(c)
            && c.identity.spec_wincon().spec_static_eval(phase, mourning) {
            prefix.push((n - 1) as usize)
        } else {
            prefix
        }
    }
}

/// The primary victors of a state: every living seat whose `Static` branch
/// currently fires.
pub open spec fn spec_victor_seats(s: GameView) -> Seq<Seat> {
    spec_victors_upto(s.players, s.phase, s.mourning, s.players.len() as int)
}

/// Seats, among the first `n`, of living players outside the victor set
/// whose win condition lets them win alongside the victors, in seat order.
pub open spec fn spec_with_upto(players: Seq<Player>, victors: Seq<Seat>, n: int) -> Seq<Seat>
    decreases n,
{
    if n <= 0 {
        Seq::empty()
    } else {
        let prefix = spec_with_upto(players, victors, n - 1);
        if !victors.contains((n - 1) as usize) && (players[n - 1].character matches Some(c)
            && c.identity.spec_wincon().spec_is_with(players, victors)) {
            prefix.push((n - 1) as usize)
        } else {
            prefix
        }
    }
}

/// Every other living player who wins alongside the victors.
pub open spec fn spec_with_seats(players: Seq<Player>, victors: Seq<Seat>) -> Seq<Seat> {
    spec_with_upto(players, victors, players.len() as int)
}

/// The roster with the characters of the listed seats cleared, in order.
pub open spec fn spec_clear_seats(players: Seq<Player>, seats: Seq<Seat>) -> Seq<Player>
    decreases seats.len(),
{
    if seats.len() == 0 {
        players
    } else {
        let prev = spec_clear_seats(players, seats.drop_last());
        let s = seats.last();
        if s < prev.len() {
            prev.update(s as int, Player { id: prev[s as int].id, character: None })
        } else {
            prev
        }
    }
}

/// How many of the first `n` seats carry no character.
pub open spec fn spec_charless_upto(players: Seq<Player>, n: int) -> nat
    decreases n,
{
    if n <= 0 {
        0
    } else {
        spec_charless_upto(players, n - 1) + if players[n - 1].character is None {
            1nat
        } else {
            0nat
        }
    }
}

/// How many seats of the roster carry no character.
pub open spec fn spec_count_charless(players: Seq<Player>) -> nat {
    spec_charless_upto(players, players.len() as int)
}

/// Addition on scores, saturating at the top of the score type.
pub open spec fn sat_add_u32(a: u32, b: u32) -> u32 {
    if a + b > u32::MAX {
        u32::MAX
    } else {
        (a + b) as u32
    }
}

/// The score gain of a victory event, clipped into the score type.
pub open spec fn spec_gain(cleared: Seq<Player>) -> u32 {
    if spec_count_charless(cleared) > u32::MAX {
        u32::MAX
    } else {
        spec_count_charless(cleared) as u32
    }
}

/// The scores after the listed seats are each credited the gain.
pub open spec fn spec_award(
    points: Map<PlayerId, u32>,
    players: Seq<Player>,
    seats: Seq<Seat>,
    gain: u32,
) -> Map<PlayerId, u32>
    decreases seats.len(),
{
    if seats.len() == 0 {
        points
    } else {
        let prev = spec_award(points, players, seats.drop_last(), gain);
        let s = seats.last();
        if s < players.len() {
            let id = players[s as int].id;
            let cur = if prev.contains_key(id) {
                prev[id]
            } else {
                0u32
            };
            prev.insert(id, sat_add_u32(cur, gain))
        } else {
            prev
        }
    }
}

/// A victory event: the victors and everyone winning alongside them lose
/// their characters (to be re-assigned next round), each victor's score
/// grows by the number of seats then left without a character, and the game
/// returns to the lobby with all round-scoped state cleared.
pub open spec fn spec_victory(s: GameView, victors: Seq<Seat>) -> GameView {
    let all = victors + spec_with_seats(s.players, victors);
    let cleared = spec_clear_seats(s.players, all);
    let gain = spec_gain(cleared);
    GameView {
        players: cleared,
        points: spec_award(s.points, cleared, all, gain),
        just_quit: Set::empty(),
        phase: None,
        mourning: false,
        target: None,
        shielded: None,
        shield_is_current: false,
        pending_action: None,
    }
}

/// One win-condition scan: if any living seat's `Static` branch fires, the
/// victory event runs; otherwise nothing changes.
pub open spec fn spec_check_wincons(s: GameView) -> GameView {
    let v = spec_victor_seats(s);
    if v.len() == 0 {
        s
    } else {
        spec_victory(s, v)
    }
}

// ---------------------------------------------------------------------
// Phase advancement
// ---------------------------------------------------------------------
/// End-of-cycle cleanup, run in passing over the `Angel` phase: a shield
/// from this cycle goes stale, a stale one is dropped, and the mourning
/// flag and the Hunter's target reset.
pub open spec fn spec_angel_cleanup(s: GameView) -> GameView {
    GameView {
        shielded: if s.shield_is_current {
            s.shielded
        } else {
            None
        },
        shield_is_current: false,
        mourning: false,
        target: None,
        ..s
    }
}

/// Phase advancement: step the phase, scan win conditions, run the Angel
/// cleanup in passing, and stop at the first phase one of whose living
/// holders can act — or wherever the fuel runs out, which bounds the walk
/// to one full cycle per call. A victory (phase back to `None`) stops the
/// walk at once.
pub open spec fn spec_advance(s: GameView, fuel: nat) -> GameView
    decreases fuel,
{
    if fuel == 0 || s.phase is None {
        s
    } else {
        let next = s.phase->0.spec_succ();
        let s2 = spec_check_wincons(GameView { phase: Some(next), ..s });
        if s2.phase is None {
            s2
        } else if next == Role::Angel {
            spec_advance(spec_angel_cleanup(s2), (fuel - 1) as nat)
        } else if spec_has_ready_holder(s2.players, next) || fuel == 1 {
            s2
        } else {
            spec_advance(s2, (fuel - 1) as nat)
        }
    }
}

// ---------------------------------------------------------------------
// Lobby inputs: join, quit, go
// ---------------------------------------------------------------------
/// A player, with a bite reference at or above the joining seat bumped up
/// by one.
pub open spec fn spec_bump_bite(p: Player, seat: Seat) -> Player {
    match p.character {
        Some(c) => match c.bitten_by {
            Some(v) => if v >= seat {
                Player { id: p.id, character: Some(Character { bitten_by: Some((v + 1) as usize), ..c }) }
            } else {
                p
            },
            None => p,
        },
        None => p,
    }
}

/// The roster after a join at the given seat: the new player is inserted
/// and every bite reference at or above the seat moves up with its owner.
pub open spec fn spec_join_players(players: Seq<Player>, p: PlayerId, seat: Seat) -> Seq<Player> {
    players.insert(seat as int, Player { id: p, character: None }).map_values(
        |q: Player| spec_bump_bite(q, seat),
    )
}

/// A join at the given seat.
pub open spec fn spec_join(s: GameView, p: PlayerId, seat: Seat) -> GameView {
    GameView { players: spec_join_players(s.players, p, seat), ..s }
}

/// A player, with a bite reference fixed up after the given seat left the
/// roster: a reference to the seat is cleared, one above it moves down.
pub open spec fn spec_unbump_bite(p: Player, seat: Seat) -> Player {
    match p.character {
        Some(c) => match c.bitten_by {
            Some(v) => if v == seat {
                Player { id: p.id, character: Some(Character { bitten_by: None, ..c }) }
            } else if v > seat {
                Player { id: p.id, character: Some(Character { bitten_by: Some((v - 1) as usize), ..c }) }
            } else {
                p
            },
            None => p,
        },
        None => p,
    }
}

/// Whether some seat carries the given id.
pub open spec fn spec_has_id(players: Seq<Player>, p: PlayerId) -> bool {
    exists|i: int| 0 <= i < players.len() && (#[trigger] players[i]).id == p
}

/// The first seat carrying the given id.
pub open spec fn spec_seat_of(players: Seq<Player>, p: PlayerId) -> int
    decreases players.len(),
{
    if players.len() == 0 {
        0
    } else if players.first().id == p {
        0
    } else {
        1 + spec_seat_of(players.drop_first(), p)
    }
}

/// A quit of the given (seated) id: the seat is removed, the id is
/// remembered in `just_quit`, references to the seat are cleared and
/// references above it move down.
pub open spec fn spec_quit(s: GameView, p: PlayerId) -> GameView {
    let seat = spec_seat_of(s.players, p) as usize;
    GameView {
        players: s.players.remove(seat as int).map_values(|q: Player| spec_unbump_bite(q, seat)),
        just_quit: s.just_quit.insert(p),
        ..s
    }
}

/// The roles held by living players, in seat order.
pub open spec fn spec_held_roles_upto(players: Seq<Player>, n: int) -> Seq<Role>
    decreases n,
{
    if n <= 0 {
        Seq::empty()
    } else {
        let prefix = spec_held_roles_upto(players, n - 1);
        match players[n - 1].character {
            Some(c) => prefix.push(c.role),
            None => prefix,
        }
    }
}

/// The identities held by living players, in seat order.
pub open spec fn spec_held_ids_upto(players: Seq<Player>, n: int) -> Seq<Identity>
    decreases n,
{
    if n <= 0 {
        Seq::empty()
    } else {
        let prefix = spec_held_ids_upto(players, n - 1);
        match players[n - 1].character {
            Some(c) => prefix.push(c.identity),
            None => prefix,
        }
    }
}

/// The multiset of roles still free to hand out: the assignment pool minus
/// what living players hold.
pub open spec fn spec_free_roles(players: Seq<Player>) -> Multiset<Role> {
    Role::spec_pool().to_multiset().sub(
        spec_held_roles_upto(players, players.len() as int).to_multiset(),
    )
}

/// The multiset of identities still free to hand out.
pub open spec fn spec_free_ids(players: Seq<Player>) -> Multiset<Identity> {
    Identity::spec_pool().to_multiset().sub(
        spec_held_ids_upto(players, players.len() as int).to_multiset(),
    )
}

/// The roster after assignment: each seat without a character receives a
/// fresh one, pairing the free values with the unassigned seats in order.
pub open spec fn spec_assign(players: Seq<Player>, roles: Seq<Role>, ids: Seq<Identity>) -> Seq<
    Player,
> {
    Seq::new(
        players.len(),
        |i: int|
            match players[i].character {
                Some(_) => players[i],
                None => Player {
                    id: players[i].id,
                    character: Some(
                        Character::spec_new(
                            roles[spec_charless_upto(players, i) as int],
                            ids[spec_charless_upto(players, i) as int],
                        ),
                    ),
                },
            },
    )
}

/// The state after a `Go` that drew the given shuffled free values.
pub open spec fn spec_go_result(pre: GameView, roles: Seq<Role>, ids: Seq<Identity>) -> GameView {
    GameView {
        players: spec_assign(pre.players, roles, ids),
        just_quit: Set::empty(),
        phase: Some(Role::Hunter),
        ..pre
    }
}

/// How `Go` relates the old and the new state: some uniformly shuffled
/// orders of the free roles and of the free identities were drawn, and the
/// unassigned seats received them in seat order; the round opens on the
/// first phase.
pub open spec fn spec_go_rel(pre: GameView, post: GameView) -> bool {
    exists|roles: Seq<Role>, ids: Seq<Identity>|
        {
            &&& roles.to_multiset() == spec_free_roles(pre.players)
            &&& ids.to_multiset() == spec_free_ids(pre.players)
            &&& post == #[trigger] spec_go_result(pre, roles, ids)
        }
}

/// Validation of a lobby input, given that the game is in the lobby. The
/// first failing check decides the error.
pub open spec fn spec_validate_meta(s: GameView, m: MetaInput) -> Option<GameError> {
    match m {
        MetaInput::Join(p, oseat) => if spec_has_id(s.players, p) {
            Some(GameError::DuplicateJoin)
        } else if s.just_quit.contains(p) {
            Some(GameError::JoinAfterQuit)
        } else {
            match oseat {
                Some(st) => if st > s.players.len() {
                    Some(GameError::JoinSeatOutOfRange)
                } else {
                    None
                },
                None => None,
            }
        },
        MetaInput::Quit(p) => if !spec_has_id(s.players, p) {
            Some(GameError::QuitNonMember)
        } else {
            None
        },
        MetaInput::Go => if spec_count_charless(s.players) > spec_free_roles(s.players).len()
            || spec_count_charless(s.players) > spec_free_ids(s.players).len() {
            Some(GameError::NotEnoughAttributes)
        } else {
            None
        },
    }
}

// ---------------------------------------------------------------------
// In-round inputs: actions and the Angel's disposition
// ---------------------------------------------------------------------
/// The seats an action is performed by: the vote's keys for `Eat`, the
/// current phase's (redirected) actors for everything else.
pub open spec fn spec_actors_for(s: GameView, action: Action) -> Seq<Seat> {
    match action {
        Action::Eat(votes) => votes@.map_values(|p: (Seat, Seat)| p.0),
        _ => spec_current_actors(s.players, s.phase->0),
    }
}

/// The roster with the action token of each listed (living) seat spent, in
/// order.
pub open spec fn spec_mark_unready(players: Seq<Player>, actors: Seq<Seat>) -> Seq<Player>
    decreases actors.len(),
{
    if actors.len() == 0 {
        players
    } else {
        let prev = spec_mark_unready(players, actors.drop_last());
        let s = actors.last();
        if s < prev.len() {
            match prev[s as int].character {
                Some(c) => prev.update(
                    s as int,
                    Player { id: prev[s as int].id, character: Some(Character { ready: false, ..c }) },
                ),
                None => prev,
            }
        } else {
            prev
        }
    }
}

/// Whether the Angel steps in: a living Angel exists and at least one
/// acting seat is not the shielded one.
pub open spec fn spec_mediated(s: GameView, actors: Seq<Seat>) -> bool {
    &&& spec_seats_with_role(s.players, Role::Angel).len() > 0
    &&& exists|k: int|
        0 <= k < actors.len() && (match s.shielded {
            Some(sh) => #[trigger] actors[k] != sh,
            None => true,
        })
}

/// The first failure among the first `n` acting seats: each must sit in
/// the roster and be able to act.
pub open spec fn spec_validate_actors(players: Seq<Player>, actors: Seq<Seat>, n: int) -> Option<
    GameError,
>
    decreases n,
{
    if n <= 0 {
        None
    } else {
        let prev = spec_validate_actors(players, actors, n - 1);
        if prev is Some {
            prev
        } else {
            let a = actors[n - 1];
            if a >= players.len() {
                Some(GameError::ActorOutOfRange)
            } else if !players[a as int].spec_can_act() {
                Some(GameError::ActorNotReady)
            } else {
                None
            }
        }
    }
}

/// Whether two Eat votes name the same voting seat.
pub open spec fn spec_dup_voter(votes: Seq<(Seat, Seat)>) -> bool {
    exists|i: int, j: int|
        #![trigger votes[i], votes[j]]
        0 <= i < j < votes.len() && votes[i].0 == votes[j].0
}

/// The victims named by the Eat votes, in vote order.
pub open spec fn spec_eat_targets(votes: Seq<(Seat, Seat)>) -> Seq<Seat> {
    votes.map_values(|p: (Seat, Seat)| p.1)
}

/// The first failure among the first `n` Eat victims: each must sit in the
/// roster and be alive.
pub open spec fn spec_validate_eat_targets(
    players: Seq<Player>,
    votes: Seq<(Seat, Seat)>,
    n: int,
) -> Option<GameError>
    decreases n,
{
    if n <= 0 {
        None
    } else {
        let prev = spec_validate_eat_targets(players, votes, n - 1);
        if prev is Some {
            prev
        } else {
            let t = votes[n - 1].1;
            if t >= players.len() {
                Some(GameError::EatTargetOutOfRange)
            } else if players[t as int].character is None {
                Some(GameError::EatTargetDead)
            } else {
                None
            }
        }
    }
}

/// Validation of the resolution of an action against the given state: the
/// first failing check decides the error.
pub open spec fn spec_validate_action(s: GameView, actors: Seq<Seat>, action: Action) -> Option<
    GameError,
> {
    match action {
        Action::Shoot => match s.target {
            Some(t) => if t < s.players.len() && s.players[t as int].character is Some {
                None
            } else {
                Some(GameError::DeadTarget)
            },
            None => Some(GameError::NoTarget),
        },
        Action::Aim(t) => if t >= s.players.len() {
            Some(GameError::AimOutOfRange)
        } else if s.players[t as int].character is None {
            Some(GameError::AimAtDead)
        } else {
            None
        },
        Action::Bite(t) => if t >= s.players.len() {
            Some(GameError::BiteOutOfRange)
        } else if s.players[t as int].character is None {
            Some(GameError::BiteAtDead)
        } else if actors.len() != 1 {
            Some(GameError::AmbiguousBite)
        } else {
            None
        },
        Action::Swap(_, _) => None,
        Action::VoteResult(o) => match o {
            Some(t) => if t >= s.players.len() {
                Some(GameError::LynchOutOfRange)
            } else if s.players[t as int].character is None {
                Some(GameError::LynchAtDead)
            } else {
                None
            },
            None => None,
        },
        Action::Eat(votes) => spec_validate_eat_targets(s.players, votes@, votes@.len() as int),
    }
}

/// What a passed validation guarantees: every seat the action's resolution
/// touches sits in the roster and is alive.
pub open spec fn spec_action_applicable(s: GameView, actors: Seq<Seat>, action: Action) -> bool {
    match action {
        Action::Shoot => s.target matches Some(t) && t < s.players.len()
            && s.players[t as int].character is Some,
        Action::Aim(t) => t < s.players.len() && s.players[t as int].character is Some,
        Action::Bite(t) => t < s.players.len() && s.players[t as int].character is Some
            && actors.len() == 1,
        Action::Swap(_, _) => true,
        Action::VoteResult(o) => match o {
            Some(t) => t < s.players.len() && s.players[t as int].character is Some,
            None => true,
        },
        Action::Eat(votes) => forall|j: int|
            0 <= j < votes@.len() ==> (#[trigger] votes@[j]).1 < s.players.len()
                && s.players[votes@[j].1 as int].character is Some,
    }
}

/// The state after a bite: the victim's turns are redirected to the biter.
pub open spec fn spec_set_bite(s: GameView, t: Seat, v: Seat) -> GameView {
    match s.players[t as int].character {
        Some(c) => GameView {
            players: s.players.update(
                t as int,
                Player {
                    id: s.players[t as int].id,
                    character: Some(Character { bitten_by: Some(v), ..c }),
                },
            ),
            ..s
        },
        None => s,
    }
}

/// Whether a seat draws the strictest plurality of the given victims.
pub open spec fn spec_plurality(targets: Seq<Seat>, w: Seat) -> bool {
    &&& targets.to_multiset().count(w) >= 1
    &&& forall|t: Seat| targets.to_multiset().count(t) <= targets.to_multiset().count(w)
}

/// How an action's resolution relates the state it resolves against to the
/// state after the phase cycle then advances. Only `Eat` is relational:
/// which of several tied plurality victims dies is left open.
pub open spec fn spec_resolved(s: GameView, actors: Seq<Seat>, action: Action, post: GameView) -> bool {
    match action {
        Action::Shoot => post == spec_advance(
            spec_kill(s, s.target->0),
            crate::roles::CYCLE_LEN as nat,
        ),
        Action::Aim(t) => post == spec_advance(
            GameView { target: Some(t), ..s },
            crate::roles::CYCLE_LEN as nat,
        ),
        Action::Bite(t) => post == spec_advance(
            spec_set_bite(s, t, actors[0]),
            crate::roles::CYCLE_LEN as nat,
        ),
        Action::Swap(_, _) => post == spec_advance(s, crate::roles::CYCLE_LEN as nat),
        Action::VoteResult(o) => match o {
            Some(t) => post == spec_advance(spec_kill(s, t), crate::roles::CYCLE_LEN as nat),
            None => post == spec_advance(s, crate::roles::CYCLE_LEN as nat),
        },
        Action::Eat(votes) => if votes@.len() == 0 {
            post == spec_advance(s, crate::roles::CYCLE_LEN as nat)
        } else {
            exists|w: Seat|
                spec_plurality(spec_eat_targets(votes@), w) && post == spec_advance(
                    #[trigger] spec_kill(s, w),
                    crate::roles::CYCLE_LEN as nat,
                )
        },
    }
}

/// Validation of an in-round input, given that a round runs. The first
/// failing check decides the error.
pub open spec fn spec_validate_ingame(s: GameView, ig: IngameInput) -> Option<GameError> {
    match ig {
        IngameInput::Action(action) => if s.pending_action is Some {
            Some(GameError::ActionAlreadyPending)
        } else if (match action {
            Action::Eat(votes) => spec_dup_voter(votes@),
            _ => false,
        }) {
            Some(GameError::DuplicateEatVoter)
        } else {
            let actors = spec_actors_for(s, action);
            let ae = spec_validate_actors(s.players, actors, actors.len() as int);
            if ae is Some {
                ae
            } else if spec_mediated(s, actors) {
                None
            } else {
                spec_validate_action(s, actors, action)
            }
        },
        IngameInput::AngelPass => match s.pending_action {
            Some(a) => spec_validate_action(
                s,
                spec_current_actors(s.players, s.phase->0),
                a,
            ),
            None => Some(GameError::NoPendingAction),
        },
        IngameInput::AngelVeto(seat) => if seat >= s.players.len() {
            Some(GameError::VetoSeatOutOfRange)
        } else {
            None
        },
        IngameInput::WinAttempt => Some(GameError::WinAttemptUnsupported),
    }
}

/// Validation of any input against the current state; `None` promises that
/// the input will be accepted and acted on.
pub open spec fn spec_validate(s: GameView, input: Input) -> Option<GameError> {
    match input {
        Input::Meta(m) => if s.phase is Some {
            Some(GameError::RoundRunning)
        } else {
            spec_validate_meta(s, m)
        },
        Input::Ingame(ig) => if s.phase is None {
            Some(GameError::NotInRound)
        } else {
            spec_validate_ingame(s, ig)
        },
    }
}

/// How an accepted input relates the state before it to the state after
/// it. Deterministic except for the drawn join seat, the shuffles of `Go`,
/// and `Eat`'s tie-break.
pub open spec fn spec_step_rel(pre: GameView, input: Input, post: GameView) -> bool {
    match input {
        Input::Meta(m) => match m {
            MetaInput::Join(p, oseat) => match oseat {
                Some(st) => post == spec_join(pre, p, st),
                None => exists|st: Seat|
                    {
                        &&& st <= pre.players.len()
                        &&& pre.players.len() > 0 ==> st < pre.players.len()
                        &&& post == #[trigger] spec_join(pre, p, st)
                    },
            },
            MetaInput::Quit(p) => post == spec_quit(pre, p),
            MetaInput::Go => spec_go_rel(pre, post),
        },
        Input::Ingame(ig) => match ig {
            IngameInput::Action(action) => {
                let actors = spec_actors_for(pre, action);
                let marked = GameView { players: spec_mark_unready(pre.players, actors), ..pre };
                if spec_mediated(pre, actors) {
                    post == GameView { pending_action: Some(action), ..marked }
                } else {
                    spec_resolved(marked, actors, action, post)
                }
            },
            IngameInput::AngelPass => {
                let actors = spec_current_actors(pre.players, pre.phase->0);
                spec_resolved(
                    GameView { pending_action: None, ..pre },
                    actors,
                    pre.pending_action->0,
                    post,
                )
            },
            IngameInput::AngelVeto(seat) => post == spec_advance(
                GameView {
                    pending_action: None,
                    shielded: Some(seat),
                    shield_is_current: true,
                    ..pre
                },
                crate::roles::CYCLE_LEN as nat,
            ),
            IngameInput::WinAttempt => false,
        },
    }
}

/// Counting seats without a character grows with the prefix length.
proof fn lemma_charless_upto_mono(players: Seq<Player>, i: int, j: int)
    requires
        i <= j,
    ensures
        spec_charless_upto(players, i) <= spec_charless_upto(players, j),
    decreases j - i,
{
    if i < j {
        lemma_charless_upto_mono(players, i, j - 1);
    }
}

/// Clearing seats keeps the roster's length and every id, and only ever
/// removes characters.
proof fn lemma_clear_seats_props(players: Seq<Player>, seats: Seq<Seat>)
    ensures
        spec_clear_seats(players, seats).len() == players.len(),
        forall|i: int|
            0 <= i < players.len() ==> {
                let q = #[trigger] spec_clear_seats(players, seats)[i];
                q.id == players[i].id && (q == players[i] || q.character is None)
            },
    decreases seats.len(),
{
    if seats.len() > 0 {
        lemma_clear_seats_props(players, seats.drop_last());
    }
}

/// Spending action tokens keeps the roster's length and every id, and only
/// ever flips `ready` off.
pub proof fn lemma_mark_props(players: Seq<Player>, actors: Seq<Seat>)
    ensures
        spec_mark_unready(players, actors).len() == players.len(),
        forall|i: int|
            0 <= i < players.len() ==> {
                let q = #[trigger] spec_mark_unready(players, actors)[i];
                &&& q.id == players[i].id
                &&& q == players[i] || (players[i].character matches Some(c) && q == Player {
                    id: players[i].id,
                    character: Some(Character { ready: false, ..c }),
                })
            },
    decreases actors.len(),
{
    if actors.len() > 0 {
        lemma_mark_props(players, actors.drop_last());
    }
}

/// The win-condition scan preserves everything `wf` asks short of the
/// resting-phase rule, keeps the roster's length, and either keeps the
/// phase or ends the round.
proof fn lemma_check_wf0(s: GameView)
    requires
        s.wf0(),
    ensures
        spec_check_wincons(s).wf0(),
        spec_check_wincons(s).players.len() == s.players.len(),
        spec_check_wincons(s).phase == s.phase || spec_check_wincons(s).phase is None,
    decreases 0nat,
{
    let v = spec_victor_seats(s);
    if v.len() > 0 {
        let all = v + spec_with_seats(s.players, v);
        lemma_clear_seats_props(s.players, all);
        let post = spec_victory(s, v);
        assert(post.ids_distinct());
        assert(post.bite_refs_in_range());
    }
}

/// A kill preserves everything `wf` asks short of the resting-phase rule.
proof fn lemma_kill_wf0(s: GameView, seat: Seat)
    requires
        s.wf0(),
        s.phase is Some,
        seat < s.players.len(),
    ensures
        spec_kill(s, seat).wf0(),
        spec_kill(s, seat).players.len() == s.players.len(),
        spec_kill(s, seat).phase == s.phase,
        spec_kill(s, seat).pending_action == s.pending_action,
{
    let post = spec_kill(s, seat);
    assert(post.ids_distinct());
    assert(post.bite_refs_in_range());
    assert(post.seat_flags_in_range());
}

/// A bite preserves everything `wf` asks short of the resting-phase rule.
proof fn lemma_set_bite_wf0(s: GameView, t: Seat, v: Seat)
    requires
        s.wf0(),
        s.phase is Some,
        t < s.players.len(),
        v < s.players.len(),
    ensures
        spec_set_bite(s, t, v).wf0(),
        spec_set_bite(s, t, v).players.len() == s.players.len(),
        spec_set_bite(s, t, v).phase == s.phase,
        spec_set_bite(s, t, v).pending_action == s.pending_action,
{
    let post = spec_set_bite(s, t, v);
    assert(post.ids_distinct());
    assert(post.bite_refs_in_range());
}

/// Phase advancement preserves everything `wf` asks short of the
/// resting-phase rule.
proof fn lemma_advance_wf0(s: GameView, fuel: nat)
    requires
        s.wf0(),
    ensures
        spec_advance(s, fuel).wf0(),
    decreases fuel,
{
    if fuel == 0 || s.phase is None {
    } else {
        let next = s.phase->0.spec_succ();
        let s1 = GameView { phase: Some(next), ..s };
        assert(s1.wf0());
        lemma_check_wf0(s1);
        let s2 = spec_check_wincons(s1);
        if s2.phase is None {
        } else if next == Role::Angel {
            assert(spec_angel_cleanup(s2).wf0());
            lemma_advance_wf0(spec_angel_cleanup(s2), (fuel - 1) as nat);
        } else if spec_has_ready_holder(s2.players, next) || fuel == 1 {
        } else {
            lemma_advance_wf0(s2, (fuel - 1) as nat);
        }
    }
}

/// How many phase steps lie between a role and the `Angel` phase.
spec fn dist_to_angel(r: Role) -> nat {
    match r {
        Role::Mayor => 1,
        Role::Witch => 2,
        Role::Wolf => 3,
        Role::Seer => 4,
        Role::Jester => 5,
        Role::Vampire => 6,
        Role::Hunter => 7,
        Role::Angel => 8,
    }
}

/// Phase advancement never rests on the `Angel` phase, as long as the fuel
/// does not run out exactly there — which one full cycle of fuel from any
/// other phase never does.
proof fn lemma_advance_open(s: GameView, fuel: nat)
    requires
        s.phase is Some,
        1 <= fuel <= 8,
        fuel != dist_to_angel(s.phase->0),
    ensures
        spec_advance(s, fuel).phase != Some(Role::Angel),
    decreases fuel,
{
    let r = s.phase->0;
    let next = r.spec_succ();
    let s2 = spec_check_wincons(GameView { phase: Some(next), ..s });
    assert(s2.phase == Some(next) || s2.phase is None);
    if s2.phase is None {
    } else if next == Role::Angel {
        lemma_advance_open(spec_angel_cleanup(s2), (fuel - 1) as nat);
    } else if spec_has_ready_holder(s2.players, next) || fuel == 1 {
    } else {
        lemma_advance_open(s2, (fuel - 1) as nat);
    }
}

/// A failed actor check stays failed as the scan extends.
proof fn lemma_validate_actors_extend(players: Seq<Player>, actors: Seq<Seat>, n: int, m: int)
    requires
        0 <= n <= m,
        spec_validate_actors(players, actors, n) is Some,
    ensures
        spec_validate_actors(players, actors, m) == spec_validate_actors(players, actors, n),
    decreases m - n,
{
    if n < m {
        lemma_validate_actors_extend(players, actors, n, m - 1);
    }
}

/// A passed actor check passed for every scanned seat.
proof fn lemma_validate_actors_ok(players: Seq<Player>, actors: Seq<Seat>, n: int)
    requires
        spec_validate_actors(players, actors, n) is None,
    ensures
        forall|k: int|
            0 <= k < n ==> (#[trigger] actors[k]) < players.len() && players[actors[k] as int]
                .spec_can_act(),
    decreases n,
{
    if n > 0 {
        assert(spec_validate_actors(players, actors, n - 1) is None);
        lemma_validate_actors_ok(players, actors, n - 1);
    }
}

/// A failed Eat victim check stays failed as the scan extends.
proof fn lemma_validate_eat_extend(players: Seq<Player>, votes: Seq<(Seat, Seat)>, n: int, m: int)
    requires
        0 <= n <= m,
        spec_validate_eat_targets(players, votes, n) is Some,
    ensures
        spec_validate_eat_targets(players, votes, m) == spec_validate_eat_targets(
            players,
            votes,
            n,
        ),
    decreases m - n,
{
    if n < m {
        lemma_validate_eat_extend(players, votes, n, m - 1);
    }
}

/// A passed Eat victim check passed for every scanned vote.
proof fn lemma_validate_eat_ok(players: Seq<Player>, votes: Seq<(Seat, Seat)>, n: int)
    requires
        spec_validate_eat_targets(players, votes, n) is None,
    ensures
        forall|k: int|
            0 <= k < n ==> (#[trigger] votes[k]).1 < players.len() && players[votes[k].1 as int]
                .character is Some,
    decreases n,
{
    if n > 0 {
        assert(spec_validate_eat_targets(players, votes, n - 1) is None);
        lemma_validate_eat_ok(players, votes, n - 1);
    }
}

/// A passed resolution validation means the action is applicable.
proof fn lemma_validate_applicable(s: GameView, actors: Seq<Seat>, action: Action)
    requires
        spec_validate_action(s, actors, action) is None,
    ensures
        spec_action_applicable(s, actors, action),
{
    match action {
        Action::Eat(votes) => {
            lemma_validate_eat_ok(s.players, votes@, votes@.len() as int);
        }
        _ => {}
    }
}

/// Spending action tokens does not change which actions are applicable.
proof fn lemma_mark_applicable(s: GameView, actors: Seq<Seat>, marked: Seq<Seat>, action: Action)
    requires
        spec_action_applicable(s, actors, action),
    ensures
        spec_action_applicable(
            GameView { players: spec_mark_unready(s.players, marked), ..s },
            actors,
            action,
        ),
{
    lemma_mark_props(s.players, marked);
}

/// The first seat found by a left-to-right scan is `spec_seat_of`.
proof fn lemma_seat_of(players: Seq<Player>, p: PlayerId, i: int)
    requires
        0 <= i < players.len(),
        players[i].id == p,
        forall|j: int| 0 <= j < i ==> (#[trigger] players[j]).id != p,
    ensures
        spec_seat_of(players, p) == i,
    decreases i,
{
    if i == 0 {
    } else {
        assert(players[0].id != p);
        assert(forall|j: int|
            0 <= j < i - 1 ==> (#[trigger] players.drop_first()[j]).id != p) by {
            assert(forall|j: int|
                0 <= j < i - 1 ==> players.drop_first()[j] == #[trigger] players[j + 1]);
        }
        lemma_seat_of(players.drop_first(), p, i - 1);
    }
}

/// Equality of actions up to the contents of their vote lists. Two vote
/// lists holding the same entries in the same order count as the same
/// action, wherever they are allocated.
pub open spec fn action_eq(x: Action, y: Action) -> bool {
    match (x, y) {
        (Action::Eat(v1), Action::Eat(v2)) => v1@ == v2@,
        _ => x == y,
    }
}

/// What `next_input` answers, as a function of the state: the lobby accepts
/// `Meta`, a running round accepts actions, and a buffered action asks for
/// the Angel's disposition of (a copy of) that action.
pub open spec fn request_matches(s: GameView, r: InputRequest) -> bool {
    match s.phase {
        Some(ph) => match s.pending_action {
            Some(a) => r matches InputRequest::Angel(ph2, a2) && ph2 == ph && action_eq(a2, a),
            None => r == InputRequest::Action(ph),
        },
        None => r == InputRequest::Meta,
    }
}

/// Whether two roles are the same.
fn matches_role(a: Role, b: Role) -> (r: bool)
    ensures
        r == (a == b),
{
    a == b
}

/// Whether a seat occurs in a seat list.
#[verifier::loop_isolation(false)]
fn seat_in(seats: &Vec<Seat>, s: Seat) -> (b: bool)
    ensures
        b == seats@.contains(s),
{
    let mut i: usize = 0;
    while i < seats.len()
        invariant
            i <= seats@.len(),
            forall|j: int| 0 <= j < i ==> seats@[j] != s,
        decreases seats@.len() - i,
    {
        if seats[i] == s {
            proof {
                assert(seats@[i as int] == s);
            }
            return true;
        }
        i += 1;
    }
    proof {
        assert(!seats@.contains(s));
    }
    false
}

/// Score addition, saturating at the top of the score type.
fn sat_add(a: u32, b: u32) -> (r: u32)
    ensures
        r == sat_add_u32(a, b),
{
    let wide: u64 = a as u64 + b as u64;
    if wide > u32::MAX as u64 {
        u32::MAX
    } else {
        wide as u32
    }
}

/// A copy of an action, equal to the original up to `action_eq`.
pub fn clone_action(a: &Action) -> (r: Action)
    ensures
        action_eq(r, *a),
{
    match a {
        Action::VoteResult(o) => Action::VoteResult(
            match o {
                Some(s) => Some(*s),
                None => None,
            },
        ),
        Action::Shoot => Action::Shoot,
        Action::Aim(s) => Action::Aim(*s),
        Action::Bite(s) => Action::Bite(*s),
        Action::Swap(s0, s1) => Action::Swap(*s0, *s1),
        Action::Eat(votes) => {
            let mut v: Vec<(Seat, Seat)> = Vec::new();
            let mut i: usize = 0;
            #[verifier::loop_isolation(false)]
            while i < votes.len()
                invariant
                    i <= votes@.len(),
                    v@ == votes@.take(i as int),
                decreases votes@.len() - i,
            {
                let pair = votes[i];
                v.push(pair);
                proof {
                    assert(v@ =~= votes@.take(i + 1));
                }
                i += 1;
            }
            proof {
                assert(v@ =~= votes@);
            }
            Action::Eat(v)
        }
    }
}

} // verus!
