//! Creating a table, and taking and leaving seats.
use vstd::prelude::*;

use crate::types::{
    between_hands, lemma_occupied_count_bound, lemma_occupied_count_update, occupied_count, GameState,
    MAX_PLAYERS, PlayerState, PlayerStatus, PokerError, PokerTable, PublicKey, TableView,
};

verus! {

/// The all-zero key, which stands for "no account yet".
pub open spec fn is_zero_key(k: PublicKey) -> bool {
    forall|i: int| 0 <= i < 32 ==> k.bytes@[i] == 0
}

/// A new table: every seat empty, no hand played, nothing bet.
pub open spec fn new_table(
    table_id: u64,
    creator: PublicKey,
    small_blind: u64,
    big_blind: u64,
    min_buy_in: u64,
    max_buy_in: u64,
    deck_computation: PublicKey,
) -> TableView {
    TableView {
        table_id,
        creator,
        player_count: 0,
        players: Seq::new(MAX_PLAYERS as nat, |i: int| None),
        button_position: 0,
        current_player_index: 0,
        pot: 0,
        current_bet: 0,
        game_state: GameState::WaitingForPlayers,
        small_blind,
        big_blind,
        min_buy_in,
        max_buy_in,
        hand_number: 0,
        deck_computation,
        community_cards: seq![0u8, 0u8, 0u8, 0u8, 0u8],
        street_bet_count: 0,
        blinds_posted: 0,
        last_raise_amount: 0,
        last_aggressor_index: 0,
    }
}

/// Why a seat cannot be taken, if it cannot; checked in this order.
pub open spec fn join_error(t: TableView, buy_in_amount: u64, position: u8) -> Option<PokerError> {
    if t.game_state != GameState::WaitingForPlayers {
        Some(PokerError::GameInProgress)
    } else if t.player_count >= MAX_PLAYERS {
        Some(PokerError::TableFull)
    } else if buy_in_amount < t.min_buy_in || buy_in_amount > t.max_buy_in {
        Some(PokerError::InvalidBuyIn)
    } else if position >= MAX_PLAYERS {
        Some(PokerError::InvalidPosition)
    } else if t.players[position as int] is Some {
        Some(PokerError::SeatTaken)
    } else {
        None
    }
}

/// Why a player cannot leave, if they cannot; checked in this order.
pub open spec fn leave_error(t: TableView, p: PlayerState) -> Option<PokerError> {
    if !between_hands(t.game_state) {
        Some(PokerError::CannotLeaveNow)
    } else if t.players[p.position as int] != Some(p.player) {
        Some(PokerError::NotAtTable)
    } else {
        None
    }
}

proof fn lemma_empty_seats(seats: Seq<Option<PublicKey>>)
    requires
        forall|i: int| 0 <= i < seats.len() ==> seats[i] is None,
    ensures
        occupied_count(seats) == 0,
    decreases seats.len(),
{
    if seats.len() > 0 {
        lemma_empty_seats(seats.drop_last());
    }
}

/// A table with the given blinds and buy-in range, all seats empty, waiting
/// for players.
pub fn initialize_table(
    table_id: u64,
    creator: PublicKey,
    small_blind: u64,
    big_blind: u64,
    min_buy_in: u64,
    max_buy_in: u64,
) -> (r: PokerTable)
    ensures
        r.wf(),
        r@ == new_table(
            table_id,
            creator,
            small_blind,
            big_blind,
            min_buy_in,
            max_buy_in,
            r.deck_computation,
        ),
        is_zero_key(r.deck_computation),
{
    let mut players: Vec<Option<PublicKey>> = Vec::new();
    while players.len() < MAX_PLAYERS
        invariant
            players@.len() <= MAX_PLAYERS,
            forall|i: int| 0 <= i < players@.len() ==> players@[i] is None,
        decreases MAX_PLAYERS - players@.len(),
    {
        players.push(None);
    }
    proof {
        lemma_empty_seats(players@);
    }
    let table = PokerTable {
        table_id,
        creator,
        player_count: 0,
        players,
        button_position: 0,
        current_player_index: 0,
        pot: 0,
        current_bet: 0,
        game_state: GameState::WaitingForPlayers,
        small_blind,
        big_blind,
        min_buy_in,
        max_buy_in,
        hand_number: 0,
        deck_computation: PublicKey::zero(),
        community_cards: [0u8, 0u8, 0u8, 0u8, 0u8],
        street_bet_count: 0,
        blinds_posted: 0,
        last_raise_amount: 0,
        last_aggressor_index: 0,
    };
    assert(table@.players =~= Seq::new(MAX_PLAYERS as nat, |i: int| None));
    assert(table@.community_cards =~= seq![0u8, 0u8, 0u8, 0u8, 0u8]);
    table
}

/// Seats `player` at `position` with a stack of `buy_in_amount`, while the
/// table waits for players. Returns the player's new record.
pub fn join_table(
    table: &mut PokerTable,
    player: PublicKey,
    table_key: PublicKey,
    buy_in_amount: u64,
    position: u8,
) -> (r: Result<PlayerState, PokerError>)
    requires
        old(table).wf(),
    ensures
        final(table).wf(),
        match join_error(old(table)@, buy_in_amount, position) {
            Some(e) => r == Err::<PlayerState, PokerError>(e) && final(table)@ == old(table)@,
            None => {
                &&& r is Ok
                &&& final(table)@ == (TableView {
                    players: old(table)@.players.update(position as int, Some(player)),
                    player_count: (old(table).player_count + 1) as u8,
                    ..old(table)@
                })
                &&& r->Ok_0.player == player
                &&& r->Ok_0.table == table_key
                &&& r->Ok_0.stack == buy_in_amount
                &&& r->Ok_0.current_bet == 0
                &&& r->Ok_0.position == position
                &&& r->Ok_0.status == PlayerStatus::Active
                &&& is_zero_key(r->Ok_0.hole_cards_computation)
                &&& !r->Ok_0.has_acted_this_street
            },
        },
{
    if table.game_state != GameState::WaitingForPlayers {
        return Err(PokerError::GameInProgress);
    }
    if table.player_count >= MAX_PLAYERS as u8 {
        return Err(PokerError::TableFull);
    }
    if buy_in_amount < table.min_buy_in || buy_in_amount > table.max_buy_in {
        return Err(PokerError::InvalidBuyIn);
    }
    if position >= MAX_PLAYERS as u8 {
        return Err(PokerError::InvalidPosition);
    }
    if table.players[position as usize].is_some() {
        return Err(PokerError::SeatTaken);
    }
    proof {
        lemma_occupied_count_update(table@.players, position as int, Some(player));
        lemma_occupied_count_bound(table@.players.update(position as int, Some(player)));
    }
    table.players[position as usize] = Some(player);
    table.player_count = table.player_count + 1;
    Ok(
        PlayerState {
            player,
            table: table_key,
            stack: buy_in_amount,
            current_bet: 0,
            position,
            status: PlayerStatus::Active,
            hole_cards_computation: PublicKey::zero(),
            has_acted_this_street: false,
        },
    )
}

/// Frees the seat of the player whose record is `player_state`, between hands.
pub fn leave_table(table: &mut PokerTable, player_state: &PlayerState) -> (r: Result<(), PokerError>)
    requires
        old(table).wf(),
        player_state.position < MAX_PLAYERS,
    ensures
        final(table).wf(),
        match leave_error(old(table)@, *player_state) {
            Some(e) => r == Err::<(), PokerError>(e) && final(table)@ == old(table)@,
            None => r == Ok::<(), PokerError>(()) && final(table)@ == (TableView {
                players: old(table)@.players.update(player_state.position as int, None),
                player_count: (old(table).player_count - 1) as u8,
                ..old(table)@
            }),
        },
{
    if !(table.game_state == GameState::WaitingForPlayers || table.game_state
        == GameState::HandComplete) {
        return Err(PokerError::CannotLeaveNow);
    }
    let position = player_state.position as usize;
    let seated = match &table.players[position] {
        Some(k) => k.same(&player_state.player),
        None => false,
    };
    if !seated {
        return Err(PokerError::NotAtTable);
    }
    proof {
        lemma_occupied_count_update(table@.players, position as int, None);
    }
    table.players[position] = None;
    table.player_count = table.player_count - 1;
    Ok(())
}

} // verus!
