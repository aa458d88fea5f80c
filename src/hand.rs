//! The course of a hand: start, streets, and who takes the pot.
use vstd::prelude::*;

use crate::betting::{is_betting_round_complete, reset_player_states_for_street, round_complete, street_reset};
use crate::seat_ring::{
    find_next_active_player, lemma_next_occupied, next_occupied, next_occupied_seat, next_to_act,
    ring_seat,
};
use crate::types::{
    between_hands, chips, lemma_occupied_witness, lemma_stack_within_total, lemma_stacks_total_nonneg,
    lemma_stacks_total_update, GameState, MAX_PLAYERS, PlayerState, PlayerStatus, PokerError, PokerTable,
    TableView,
};

verus! {

/// A player's record at the start of a hand.
pub open spec fn hand_reset(p: PlayerState) -> PlayerState {
    PlayerState { current_bet: 0, has_acted_this_street: false, status: PlayerStatus::Active, ..p }
}

/// The street that follows `s`, for the four betting streets.
pub open spec fn next_street(s: GameState) -> Option<GameState> {
    match s {
        GameState::PreFlop => Some(GameState::Flop),
        GameState::Flop => Some(GameState::Turn),
        GameState::Turn => Some(GameState::River),
        GameState::River => Some(GameState::Showdown),
        _ => None,
    }
}

/// Why a hand cannot start, if it cannot; checked in this order.
pub open spec fn start_error(t: TableView) -> Option<PokerError> {
    if t.player_count < 2 {
        Some(PokerError::NotEnoughPlayers)
    } else if !between_hands(t.game_state) {
        Some(PokerError::GameInProgress)
    } else {
        None
    }
}

/// The table when a hand starts: the button moves to the next occupied seat,
/// and the first to act sits at the first occupied seat from three past it.
pub open spec fn started_table(t: TableView) -> TableView {
    let button = next_occupied(t.players, ring_seat(t.button_position as int, 1));
    TableView {
        hand_number: (t.hand_number + 1) as u64,
        game_state: GameState::PreFlop,
        pot: 0,
        current_bet: t.big_blind,
        street_bet_count: 0,
        community_cards: seq![0u8, 0u8, 0u8, 0u8, 0u8],
        blinds_posted: 0,
        last_raise_amount: 0,
        last_aggressor_index: 0,
        button_position: button as u8,
        current_player_index: next_occupied(t.players, ring_seat(button, 3)) as u8,
        ..t
    }
}

/// The table on a new street, with `first` to act.
pub open spec fn street_table(t: TableView, first: int) -> TableView {
    TableView {
        game_state: next_street(t.game_state)->0,
        current_bet: 0,
        street_bet_count: 0,
        last_raise_amount: 0,
        current_player_index: first as u8,
        ..t
    }
}

/// The table once the pot has been awarded.
pub open spec fn settled_table(t: TableView) -> TableView {
    TableView { pot: 0, game_state: GameState::HandComplete, ..t }
}

/// The winner's record after taking a pot of `pot`.
pub open spec fn paid_player(p: PlayerState, pot: u64) -> PlayerState {
    PlayerState { stack: (p.stack + pot) as u64, ..p }
}

/// `ps[i]` is the one active player left.
pub open spec fn sole_active(ps: Seq<PlayerState>, i: int) -> bool {
    &&& 0 <= i < ps.len()
    &&& ps[i].status == PlayerStatus::Active
    &&& forall|j: int| 0 <= j < ps.len() && j != i ==> ps[j].status != PlayerStatus::Active
}

/// Why the pot cannot go to the player in `position`, if it cannot.
pub open spec fn end_error(t: TableView, winner: PlayerState, position: u8) -> Option<PokerError> {
    if position >= MAX_PLAYERS {
        Some(PokerError::InvalidPosition)
    } else if t.players[position as int] != Some(winner.player) {
        Some(PokerError::InvalidWinner)
    } else {
        None
    }
}

/// Puts every player back in the hand with no bet and no action.
pub fn reset_player_states_for_hand(players: &mut Vec<PlayerState>)
    ensures
        final(players)@.len() == old(players)@.len(),
        forall|i: int|
            0 <= i < old(players)@.len() ==> final(players)@[i] == hand_reset(old(players)@[i]),
{
    let mut i: usize = 0;
    while i < players.len()
        invariant
            0 <= i <= players@.len(),
            players@.len() == old(players)@.len(),
            forall|j: int| 0 <= j < i ==> players@[j] == hand_reset(old(players)@[j]),
            forall|j: int| i <= j < players@.len() ==> players@[j] == old(players)@[j],
        decreases players@.len() - i,
    {
        let mut p = players[i];
        p.current_bet = 0;
        p.has_acted_this_street = false;
        p.status = PlayerStatus::Active;
        players[i] = p;
        i = i + 1;
    }
}

/// Starts a new hand between hands with at least two seated players: every
/// record is reset, the hand number goes up, the button moves on, the big
/// blind becomes the bet to match, and blinds and raises are cleared.
pub fn start_hand(table: &mut PokerTable, players: &mut Vec<PlayerState>) -> (r: Result<(), PokerError>)
    requires
        old(table).wf(),
        old(table).hand_number < u64::MAX,
    ensures
        final(table).wf(),
        match start_error(old(table)@) {
            Some(e) => r == Err::<(), PokerError>(e) && final(table)@ == old(table)@ && final(players)@
                == old(players)@,
            None => {
                &&& r == Ok::<(), PokerError>(())
                &&& final(table)@ == started_table(old(table)@)
                &&& final(players)@.len() == old(players)@.len()
                &&& forall|i: int|
                    0 <= i < old(players)@.len() ==> final(players)@[i] == hand_reset(
                        old(players)@[i],
                    )
            },
        },
{
    if table.player_count < 2 {
        return Err(PokerError::NotEnoughPlayers);
    }
    if !(table.game_state == GameState::WaitingForPlayers || table.game_state
        == GameState::HandComplete) {
        return Err(PokerError::GameInProgress);
    }
    reset_player_states_for_hand(players);
    table.hand_number = table.hand_number + 1;
    table.game_state = GameState::PreFlop;
    table.pot = 0;
    table.current_bet = table.big_blind;
    table.street_bet_count = 0;
    table.community_cards = [0u8, 0u8, 0u8, 0u8, 0u8];
    table.blinds_posted = 0;
    table.last_raise_amount = 0;
    table.last_aggressor_index = 0;
    proof {
        let q = lemma_occupied_witness(table@.players);
        lemma_next_occupied(table@.players, ring_seat(table.button_position as int, 1), q);
        let b = next_occupied(table@.players, ring_seat(table.button_position as int, 1));
        lemma_next_occupied(table@.players, ring_seat(b, 3), q);
    }
    let button = next_occupied_seat(&table.players, (table.button_position + 1) % (MAX_PLAYERS as u8));
    table.button_position = button;
    let first = next_occupied_seat(&table.players, (button + 3) % (MAX_PLAYERS as u8));
    table.current_player_index = first;
    assert(table@.community_cards =~= seq![0u8, 0u8, 0u8, 0u8, 0u8]);
    Ok(())
}

/// Moves to the next street without looking at the players: bets and raises
/// are cleared and the first occupied seat after the button acts first.
pub fn advance_street(table: &mut PokerTable) -> (r: Result<(), PokerError>)
    requires
        old(table).wf(),
    ensures
        final(table).wf(),
        match next_street(old(table).game_state) {
            None => r == Err::<(), PokerError>(PokerError::WrongGameState) && final(table)@ == old(
                table,
            )@,
            Some(_) => r == Ok::<(), PokerError>(()) && final(table)@ == street_table(
                old(table)@,
                next_occupied(old(table)@.players, ring_seat(old(table).button_position as int, 1)),
            ),
        },
{
    let next = match table.game_state {
        GameState::PreFlop => GameState::Flop,
        GameState::Flop => GameState::Turn,
        GameState::Turn => GameState::River,
        GameState::River => GameState::Showdown,
        _ => {
            return Err(PokerError::WrongGameState);
        },
    };
    proof {
        lemma_next_occupied(
            table@.players,
            ring_seat(table.button_position as int, 1),
            table.button_position as int,
        );
    }
    let first = next_occupied_seat(&table.players, (table.button_position + 1) % (MAX_PLAYERS as u8));
    table.game_state = next;
    table.current_bet = 0;
    table.street_bet_count = 0;
    table.last_raise_amount = 0;
    table.current_player_index = first;
    Ok(())
}

/// Moves to the next street once the betting round is over: every record is
/// reset for the street, and the first seat after the button whose player is
/// active acts first.
pub fn advance_street_auto(table: &mut PokerTable, players: &mut Vec<PlayerState>) -> (r: Result<
    (),
    PokerError,
>)
    requires
        old(table).wf(),
    ensures
        final(table).wf(),
        ({
            let t = old(table)@;
            if !round_complete(t.current_bet, old(players)@) {
                r == Err::<(), PokerError>(PokerError::BettingRoundNotComplete) && final(table)@ == t
                    && final(players)@ == old(players)@
            } else if next_street(t.game_state) is None {
                r == Err::<(), PokerError>(PokerError::WrongGameState) && final(table)@ == t
                    && final(players)@ == old(players)@
            } else {
                match next_to_act(t.players, old(players)@, t.button_position as int) {
                    None => r == Err::<(), PokerError>(PokerError::NoActivePlayersRemaining)
                        && final(table)@ == t && final(players)@ == old(players)@,
                    Some(s) => {
                        &&& r == Ok::<(), PokerError>(())
                        &&& final(table)@ == street_table(t, s)
                        &&& final(players)@.len() == old(players)@.len()
                        &&& forall|i: int|
                            0 <= i < old(players)@.len() ==> final(players)@[i] == street_reset(
                                old(players)@[i],
                            )
                    },
                }
            }
        }),
{
    if !is_betting_round_complete(table, players) {
        return Err(PokerError::BettingRoundNotComplete);
    }
    let next = match table.game_state {
        GameState::PreFlop => GameState::Flop,
        GameState::Flop => GameState::Turn,
        GameState::Turn => GameState::River,
        GameState::River => GameState::Showdown,
        _ => {
            return Err(PokerError::WrongGameState);
        },
    };
    let first = match find_next_active_player(&table.players, players, table.button_position) {
        Ok(s) => s,
        Err(e) => {
            return Err(e);
        },
    };
    reset_player_states_for_street(players);
    table.game_state = next;
    table.current_bet = 0;
    table.street_bet_count = 0;
    table.last_raise_amount = 0;
    table.current_player_index = first;
    Ok(())
}

/// Awards the pot to the last active player, if exactly one is left: the pot
/// goes to that stack and the hand is over. Returns the winner's seat. With no
/// active player, or more than one, nothing changes.
pub fn check_auto_win(table: &mut PokerTable, players: &mut Vec<PlayerState>) -> (r: Option<u8>)
    requires
        old(table).wf(),
        chips(old(table)@, old(players)@) <= u64::MAX,
    ensures
        final(table).wf(),
        match r {
            Some(seat) => exists|i: int|
                {
                    &&& sole_active(old(players)@, i)
                    &&& seat == old(players)@[i].position
                    &&& final(players)@ == old(players)@.update(
                        i,
                        paid_player(old(players)@[i], old(table).pot),
                    )
                    &&& final(table)@ == settled_table(old(table)@)
                },
            None => (forall|i: int| !sole_active(old(players)@, i)) && final(table)@ == old(table)@
                && final(players)@ == old(players)@,
        },
        chips(final(table)@, final(players)@) == chips(old(table)@, old(players)@),
{
    let ghost ps = players@;
    let mut found: Option<usize> = None;
    let mut several = false;
    let mut i: usize = 0;
    while i < players.len()
        invariant
            0 <= i <= players@.len(),
            found is None ==> !several,
            found is None ==> forall|j: int|
                0 <= j < i ==> players@[j].status != PlayerStatus::Active,
            found is Some ==> {
                let w = found->0 as int;
                &&& 0 <= w < i
                &&& players@[w].status == PlayerStatus::Active
                &&& !several ==> forall|j: int|
                    0 <= j < i && j != w ==> players@[j].status != PlayerStatus::Active
                &&& several ==> exists|j: int|
                    0 <= j < i && j != w && players@[j].status == PlayerStatus::Active
            },
        decreases players@.len() - i,
    {
        if players[i].status == PlayerStatus::Active {
            match found {
                None => {
                    found = Some(i);
                },
                Some(w) => {
                    several = true;
                    assert(players@[i as int].status == PlayerStatus::Active && i != w);
                },
            }
        }
        i = i + 1;
    }
    match found {
        Some(w) => {
            if several {
                proof {
                    assert forall|k: int| !sole_active(players@, k) by {
                        if sole_active(players@, k) {
                            let j = choose|j: int|
                                0 <= j < players@.len() && j != w && players@[j].status
                                    == PlayerStatus::Active;
                            assert(j == k || w == k);
                        }
                    }
                }
                return None;
            }
            proof {
                lemma_stacks_total_nonneg(players@);
                lemma_stack_within_total(players@, w as int);
            }
            let mut winner = players[w];
            winner.stack = winner.stack + table.pot;
            proof {
                lemma_stacks_total_update(players@, w as int, winner);
            }
            players[w] = winner;
            table.pot = 0;
            table.game_state = GameState::HandComplete;
            assert(sole_active(ps, w as int));
            assert(players@ == ps.update(w as int, paid_player(ps[w as int], old(table).pot)));
            Some(winner.position)
        },
        None => {
            None
        },
    }
}

/// Awards the whole pot to the player in `winner_position`; the hand is over.
pub fn end_hand(table: &mut PokerTable, winner_state: &mut PlayerState, winner_position: u8) -> (r: Result<
    (),
    PokerError,
>)
    requires
        old(table).wf(),
        old(table).pot + old(winner_state).stack <= u64::MAX,
    ensures
        final(table).wf(),
        match end_error(old(table)@, *old(winner_state), winner_position) {
            Some(e) => r == Err::<(), PokerError>(e) && final(table)@ == old(table)@
                && *final(winner_state) == *old(winner_state),
            None => r == Ok::<(), PokerError>(()) && final(table)@ == settled_table(old(table)@)
                && *final(winner_state) == paid_player(*old(winner_state), old(table).pot),
        },
        final(table).pot + final(winner_state).stack == old(table).pot + old(winner_state).stack,
{
    if winner_position >= MAX_PLAYERS as u8 {
        return Err(PokerError::InvalidPosition);
    }
    let seated = match &table.players[winner_position as usize] {
        Some(k) => k.same(&winner_state.player),
        None => false,
    };
    if !seated {
        return Err(PokerError::InvalidWinner);
    }
    winner_state.stack = winner_state.stack + table.pot;
    table.pot = 0;
    table.game_state = GameState::HandComplete;
    Ok(())
}

} // verus!
