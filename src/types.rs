use vstd::prelude::*;

verus! {

/// Number of seats at every table.
pub const MAX_PLAYERS: usize = 9;

pub const SMALL_BLIND_DEFAULT: u64 = 10;

pub const BIG_BLIND_DEFAULT: u64 = 20;

pub const MIN_BUY_IN_DEFAULT: u64 = 1000;

pub const MAX_BUY_IN_DEFAULT: u64 = 10000;

/// A 32-byte account identifier, as the ledger names players, tables and
/// card computations.
#[derive(Clone, Copy, Debug)]
pub struct PublicKey {
    pub bytes: [u8; 32],
}

impl PublicKey {
    pub fn new(bytes: [u8; 32]) -> (r: PublicKey)
        ensures
            r.bytes == bytes,
    {
        PublicKey { bytes }
    }

    /// The all-zero key, standing for "no account".
    pub fn zero() -> (r: PublicKey)
        ensures
            forall|i: int| 0 <= i < 32 ==> r.bytes@[i] == 0,
    {
        PublicKey { bytes: [0u8; 32] }
    }

    /// Equality of keys as a spec-level fact (`==` in contracts).
    pub fn same(&self, other: &PublicKey) -> (r: bool)
        ensures
            r == (*self == *other),
    {
        let r = *self == *other;
        proof {
            if r {
                vstd::array::axiom_array_ext_equal(self.bytes, other.bytes);
            }
        }
        r
    }
}

impl PartialEq for PublicKey {
    fn eq(&self, other: &PublicKey) -> (r: bool)
        ensures
            r == (self.bytes@ == other.bytes@),
    {
        let mut i: usize = 0;
        while i < 32
            invariant
                0 <= i <= 32,
                forall|j: int| 0 <= j < i ==> self.bytes@[j] == other.bytes@[j],
            decreases 32 - i,
        {
            if self.bytes[i] != other.bytes[i] {
                return false;
            }
            i = i + 1;
        }
        assert(self.bytes@ =~= other.bytes@);
        true
    }
}

impl Eq for PublicKey {}

impl vstd::std_specs::cmp::PartialEqSpecImpl for PublicKey {
    open spec fn obeys_eq_spec() -> bool {
        true
    }

    open spec fn eq_spec(&self, other: &PublicKey) -> bool {
        self.bytes@ == other.bytes@
    }
}

#[derive(Clone, Copy, Debug, PartialEq, Eq, Structural)]
pub enum GameState {
    WaitingForPlayers,
    PreFlop,
    Flop,
    Turn,
    River,
    Showdown,
    HandComplete,
}

#[derive(Clone, Copy, Debug, PartialEq, Eq, Structural)]
pub enum PlayerStatus {
    Active,
    Folded,
    AllIn,
}

#[derive(Clone, Copy, Debug, PartialEq, Eq, Structural)]
pub enum PlayerActionType {
    Fold,
    Check,
    Call,
    Raise,
}

#[derive(Clone, Copy, Debug, PartialEq, Eq, Structural)]
pub enum PokerError {
    TableFull,
    GameInProgress,
    InvalidBuyIn,
    InvalidPosition,
    SeatTaken,
    NotAtTable,
    CannotLeaveNow,
    NotEnoughPlayers,
    WrongGameState,
    NotBlindPosition,
    InsufficientFunds,
    PlayerNotActive,
    NotYourTurn,
    CannotCheck,
    RaiseTooSmall,
    InvalidWinner,
    NoActivePlayersRemaining,
    AlreadyPostedBlind,
    BettingRoundNotComplete,
}

impl PokerError {
    /// The human-readable message of each error.
    pub fn message(&self) -> (r: &'static str) {
        match self {
            PokerError::TableFull => "Table is full",
            PokerError::GameInProgress => "Game is already in progress",
            PokerError::InvalidBuyIn => "Invalid buy-in amount",
            PokerError::InvalidPosition => "Invalid position",
            PokerError::SeatTaken => "Seat is already taken",
            PokerError::NotAtTable => "Player is not at table",
            PokerError::CannotLeaveNow => "Cannot leave table during active hand",
            PokerError::NotEnoughPlayers => "Not enough players to start",
            PokerError::WrongGameState => "Wrong game state",
            PokerError::NotBlindPosition => "Not in blind position",
            PokerError::InsufficientFunds => "Insufficient funds",
            PokerError::PlayerNotActive => "Player is not active",
            PokerError::NotYourTurn => "Not your turn",
            PokerError::CannotCheck => "Cannot check - must call or raise",
            PokerError::RaiseTooSmall => "Raise amount is too small",
            PokerError::InvalidWinner => "Invalid winner",
            PokerError::NoActivePlayersRemaining => "No active players remaining",
            PokerError::AlreadyPostedBlind => "Player has already posted blind this hand",
            PokerError::BettingRoundNotComplete => "Betting round is not complete",
        }
    }
}

/// One seated player's record, alive for as long as the player sits at the table.
#[derive(Clone, Copy, Debug)]
pub struct PlayerState {
    pub player: PublicKey,
    pub table: PublicKey,
    /// Chips the player holds.
    pub stack: u64,
    /// Chips committed on the current street.
    pub current_bet: u64,
    /// Seat index, fixed once seated.
    pub position: u8,
    pub status: PlayerStatus,
    pub hole_cards_computation: PublicKey,
    pub has_acted_this_street: bool,
}

/// The table aggregate: configuration, seats, and the working state of the hand.
pub struct PokerTable {
    pub table_id: u64,
    pub creator: PublicKey,
    pub player_count: u8,
    /// One slot per seat; `None` is an empty seat.
    pub players: Vec<Option<PublicKey>>,
    pub button_position: u8,
    pub current_player_index: u8,
    pub pot: u64,
    pub current_bet: u64,
    pub game_state: GameState,
    pub small_blind: u64,
    pub big_blind: u64,
    pub min_buy_in: u64,
    pub max_buy_in: u64,
    pub hand_number: u64,
    pub deck_computation: PublicKey,
    pub community_cards: [u8; 5],
    /// Number of raises on this street.
    pub street_bet_count: u8,
    /// Bit `n` is set once the player in seat `n` has posted a blind this hand.
    pub blinds_posted: u16,
    /// Size of the last raise on this street, 0 if none.
    pub last_raise_amount: u64,
    /// Seat of the last player who raised.
    pub last_aggressor_index: u8,
}

/// The mathematical value of a `PokerTable`.
pub struct TableView {
    pub table_id: u64,
    pub creator: PublicKey,
    pub player_count: u8,
    pub players: Seq<Option<PublicKey>>,
    pub button_position: u8,
    pub current_player_index: u8,
    pub pot: u64,
    pub current_bet: u64,
    pub game_state: GameState,
    pub small_blind: u64,
    pub big_blind: u64,
    pub min_buy_in: u64,
    pub max_buy_in: u64,
    pub hand_number: u64,
    pub deck_computation: PublicKey,
    pub community_cards: Seq<u8>,
    pub street_bet_count: u8,
    pub blinds_posted: u16,
    pub last_raise_amount: u64,
    pub last_aggressor_index: u8,
}

impl View for PokerTable {
    type V = TableView;

    open spec fn view(&self) -> TableView {
        TableView {
            table_id: self.table_id,
            creator: self.creator,
            player_count: self.player_count,
            players: self.players@,
            button_position: self.button_position,
            current_player_index: self.current_player_index,
            pot: self.pot,
            current_bet: self.current_bet,
            game_state: self.game_state,
            small_blind: self.small_blind,
            big_blind: self.big_blind,
            min_buy_in: self.min_buy_in,
            max_buy_in: self.max_buy_in,
            hand_number: self.hand_number,
            deck_computation: self.deck_computation,
            community_cards: self.community_cards@,
            street_bet_count: self.street_bet_count,
            blinds_posted: self.blinds_posted,
            last_raise_amount: self.last_raise_amount,
            last_aggressor_index: self.last_aggressor_index,
        }
    }
}

/// Number of occupied seats.
pub open spec fn occupied_count(seats: Seq<Option<PublicKey>>) -> nat
    decreases seats.len(),
{
    if seats.len() == 0 {
        0
    } else {
        occupied_count(seats.drop_last()) + if seats.last() is Some {
            1nat
        } else {
            0nat
        }
    }
}

/// A hand is being played: seats are locked and the turn is meaningful.
pub open spec fn in_hand(s: GameState) -> bool {
    s == GameState::PreFlop || s == GameState::Flop || s == GameState::Turn || s
        == GameState::River || s == GameState::Showdown
}

/// Seats may be vacated, and a new hand may start, only between hands.
pub open spec fn between_hands(s: GameState) -> bool {
    s == GameState::WaitingForPlayers || s == GameState::HandComplete
}

impl TableView {
    /// The table's invariant.
    pub open spec fn wf(self) -> bool {
        &&& self.players.len() == MAX_PLAYERS
        &&& self.player_count == occupied_count(self.players)
        &&& self.button_position < MAX_PLAYERS
        &&& self.current_player_index < MAX_PLAYERS
        &&& self.last_aggressor_index < MAX_PLAYERS
        &&& self.community_cards.len() == 5
        &&& in_hand(self.game_state) ==> {
            &&& self.player_count >= 2
            &&& self.players[self.button_position as int] is Some
            &&& self.players[self.current_player_index as int] is Some
        }
    }
}

impl PokerTable {
    pub open spec fn wf(&self) -> bool {
        self@.wf()
    }

    /// Whether the table satisfies its invariant; a table read from storage
    /// is checked with this before any operation is applied to it.
    pub fn is_well_formed(&self) -> (r: bool)
        ensures
            r == self.wf(),
    {
        if self.players.len() != MAX_PLAYERS {
            return false;
        }
        let mut count: usize = 0;
        let mut i: usize = 0;
        while i < self.players.len()
            invariant
                0 <= i <= self.players@.len(),
                self.players@.len() == MAX_PLAYERS,
                count <= i,
                count == occupied_count(self.players@.subrange(0, i as int)),
            decreases self.players@.len() - i,
        {
            assert(self.players@.subrange(0, i + 1).drop_last() =~= self.players@.subrange(
                0,
                i as int,
            ));
            if self.players[i].is_some() {
                count = count + 1;
            }
            i = i + 1;
        }
        assert(self.players@.subrange(0, MAX_PLAYERS as int) =~= self.players@);
        if count != self.player_count as usize {
            return false;
        }
        if self.button_position >= MAX_PLAYERS as u8 || self.current_player_index
            >= MAX_PLAYERS as u8 || self.last_aggressor_index >= MAX_PLAYERS as u8 {
            return false;
        }
        let playing = match self.game_state {
            GameState::PreFlop | GameState::Flop | GameState::Turn | GameState::River
            | GameState::Showdown => true,
            _ => false,
        };
        if playing {
            self.player_count >= 2 && self.players[self.button_position as usize].is_some()
                && self.players[self.current_player_index as usize].is_some()
        } else {
            true
        }
    }
}

/// Whether the pot and all the stacks add up to at most `u64::MAX`.
pub fn chips_fit(table: &PokerTable, players: &Vec<PlayerState>) -> (r: bool)
    ensures
        r == (chips(table@, players@) <= u64::MAX),
{
    let mut total: u64 = table.pot;
    let mut i: usize = 0;
    while i < players.len()
        invariant
            0 <= i <= players@.len(),
            total == table.pot + stacks_total(players@.subrange(0, i as int)),
        decreases players@.len() - i,
    {
        assert(players@.subrange(0, i + 1).drop_last() =~= players@.subrange(0, i as int));
        if total > u64::MAX - players[i].stack {
            proof {
                lemma_prefix_total(players@, i + 1);
            }
            return false;
        }
        total = total + players[i].stack;
        i = i + 1;
    }
    assert(players@.subrange(0, players@.len() as int) =~= players@);
    true
}

/// A prefix of the records holds at most all the chips.
pub proof fn lemma_prefix_total(ps: Seq<PlayerState>, j: int)
    requires
        0 <= j <= ps.len(),
    ensures
        stacks_total(ps.subrange(0, j)) <= stacks_total(ps),
    decreases ps.len(),
{
    if j == ps.len() {
        assert(ps.subrange(0, j) =~= ps);
    } else {
        assert(ps.drop_last().subrange(0, j) =~= ps.subrange(0, j));
        lemma_prefix_total(ps.drop_last(), j);
    }
}

/// Every record sits at a seat of the table, at most one record per seat.
pub open spec fn records_wf(ps: Seq<PlayerState>) -> bool {
    &&& forall|i: int| 0 <= i < ps.len() ==> ps[i].position < MAX_PLAYERS
    &&& forall|i: int, j: int|
        0 <= i < ps.len() && 0 <= j < ps.len() && i != j ==> ps[i].position != ps[j].position
}

/// Sum of the players' stacks.
pub open spec fn stacks_total(ps: Seq<PlayerState>) -> int
    decreases ps.len(),
{
    if ps.len() == 0 {
        0
    } else {
        stacks_total(ps.drop_last()) + ps.last().stack
    }
}

/// All chips in play: the pot and every stack.
pub open spec fn chips(t: TableView, ps: Seq<PlayerState>) -> int {
    t.pot + stacks_total(ps)
}

pub proof fn lemma_occupied_count_update(seats: Seq<Option<PublicKey>>, i: int, v: Option<PublicKey>)
    requires
        0 <= i < seats.len(),
    ensures
        occupied_count(seats.update(i, v)) + (if seats[i] is Some {
            1int
        } else {
            0int
        }) == occupied_count(seats) + (if v is Some {
            1int
        } else {
            0int
        }),
    decreases seats.len(),
{
    let s2 = seats.update(i, v);
    if i == seats.len() - 1 {
        assert(s2.drop_last() =~= seats.drop_last());
    } else {
        assert(s2.drop_last() =~= seats.drop_last().update(i, v));
        lemma_occupied_count_update(seats.drop_last(), i, v);
    }
}

/// An occupied seat exists wherever the count is positive.
pub proof fn lemma_occupied_witness(seats: Seq<Option<PublicKey>>) -> (p: int)
    requires
        occupied_count(seats) > 0,
    ensures
        0 <= p < seats.len(),
        seats[p] is Some,
    decreases seats.len(),
{
    if seats.last() is Some {
        seats.len() - 1
    } else {
        lemma_occupied_witness(seats.drop_last())
    }
}

/// The count never exceeds the number of seats.
pub proof fn lemma_occupied_count_bound(seats: Seq<Option<PublicKey>>)
    ensures
        occupied_count(seats) <= seats.len(),
    decreases seats.len(),
{
    if seats.len() > 0 {
        lemma_occupied_count_bound(seats.drop_last());
    }
}

pub proof fn lemma_stacks_total_update(ps: Seq<PlayerState>, i: int, v: PlayerState)
    requires
        0 <= i < ps.len(),
    ensures
        stacks_total(ps.update(i, v)) == stacks_total(ps) - ps[i].stack + v.stack,
    decreases ps.len(),
{
    let s2 = ps.update(i, v);
    if i == ps.len() - 1 {
        assert(s2.drop_last() =~= ps.drop_last());
    } else {
        assert(s2.drop_last() =~= ps.drop_last().update(i, v));
        lemma_stacks_total_update(ps.drop_last(), i, v);
    }
}

/// Each stack is part of the total.
pub proof fn lemma_stack_within_total(ps: Seq<PlayerState>, i: int)
    requires
        0 <= i < ps.len(),
    ensures
        ps[i].stack <= stacks_total(ps),
    decreases ps.len(),
{
    lemma_stacks_total_nonneg(ps.drop_last());
    if i < ps.len() - 1 {
        lemma_stack_within_total(ps.drop_last(), i);
    }
}

pub proof fn lemma_stacks_total_nonneg(ps: Seq<PlayerState>)
    ensures
        stacks_total(ps) >= 0,
    decreases ps.len(),
{
    if ps.len() > 0 {
        lemma_stacks_total_nonneg(ps.drop_last());
    }
}

} // verus!
