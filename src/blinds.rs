//! Blind seats, derived from the button, and posting each blind once a hand.
use vstd::prelude::*;

use crate::seat_ring::{lemma_next_occupied, next_occupied, next_occupied_seat, ring_seat};
use crate::types::{
    lemma_occupied_witness, GameState, MAX_PLAYERS, PlayerState, PokerError, PokerTable, TableView,
};

verus! {

/// The small blind sits at the first occupied seat after the button.
pub open spec fn small_blind_of(t: TableView) -> int {
    next_occupied(t.players, ring_seat(t.button_position as int, 1))
}

/// The big blind sits at the first occupied seat after the small blind.
pub open spec fn big_blind_of(t: TableView) -> int {
    next_occupied(t.players, ring_seat(small_blind_of(t), 1))
}

/// The bit of seat `p` in a mask of seats.
pub open spec fn seat_bit(p: u8) -> u16 {
    (1u16 << (p as u16)) as u16
}

/// Whether seat `p` is in the mask of seats that posted a blind.
pub open spec fn blind_posted(mask: u16, p: u8) -> bool {
    mask & seat_bit(p) != 0
}

/// The blind the player at `p.position` owes: small or big.
pub open spec fn blind_amount(t: TableView, p: PlayerState) -> u64 {
    if p.position == small_blind_of(t) {
        t.small_blind
    } else {
        t.big_blind
    }
}

/// Why posting a blind is refused, if it is; checked in this order.
pub open spec fn blind_error(t: TableView, p: PlayerState) -> Option<PokerError> {
    if t.game_state != GameState::PreFlop {
        Some(PokerError::WrongGameState)
    } else if blind_posted(t.blinds_posted, p.position) {
        Some(PokerError::AlreadyPostedBlind)
    } else if p.position != small_blind_of(t) && p.position != big_blind_of(t) {
        Some(PokerError::NotBlindPosition)
    } else if p.stack < blind_amount(t, p) {
        Some(PokerError::InsufficientFunds)
    } else {
        None
    }
}

/// The player's record after posting a blind.
pub open spec fn blind_posted_player(t: TableView, p: PlayerState) -> PlayerState {
    PlayerState {
        stack: (p.stack - blind_amount(t, p)) as u64,
        current_bet: blind_amount(t, p),
        has_acted_this_street: true,
        ..p
    }
}

/// The table after a blind was posted.
pub open spec fn blind_posted_table(t: TableView, p: PlayerState) -> TableView {
    TableView {
        pot: (t.pot + blind_amount(t, p)) as u64,
        blinds_posted: t.blinds_posted | seat_bit(p.position),
        ..t
    }
}

/// A seat's bit is in the mask once it is added, and adding it leaves the
/// other seats as they were.
pub proof fn lemma_seat_bit_added(mask: u16, p: u8, q: u8)
    requires
        p < 16,
        q < 16,
    ensures
        blind_posted(mask | seat_bit(p), p),
        q != p ==> (blind_posted(mask | seat_bit(p), q) == blind_posted(mask, q)),
{
    let pp = p as u16;
    let qq = q as u16;
    assert((mask | (1u16 << pp)) & (1u16 << pp) != 0) by (bit_vector)
        requires
            pp < 16,
    ;
    assert(qq != pp ==> (((mask | (1u16 << pp)) & (1u16 << qq) != 0) == (mask & (1u16 << qq)
        != 0))) by (bit_vector)
        requires
            pp < 16,
            qq < 16,
    ;
}

/// The small blind's seat.
pub fn small_blind_seat(table: &PokerTable) -> (r: u8)
    requires
        table.wf(),
        table.player_count >= 1,
    ensures
        r == small_blind_of(table@),
        r < MAX_PLAYERS,
        table@.players[r as int] is Some,
{
    proof {
        let q = lemma_occupied_witness(table@.players);
        lemma_next_occupied(table@.players, ring_seat(table.button_position as int, 1), q);
    }
    next_occupied_seat(&table.players, (table.button_position + 1) % (MAX_PLAYERS as u8))
}

/// The big blind's seat.
pub fn big_blind_seat(table: &PokerTable) -> (r: u8)
    requires
        table.wf(),
        table.player_count >= 1,
    ensures
        r == big_blind_of(table@),
        r < MAX_PLAYERS,
        table@.players[r as int] is Some,
{
    let small = small_blind_seat(table);
    proof {
        lemma_next_occupied(table@.players, ring_seat(small as int, 1), small as int);
    }
    next_occupied_seat(&table.players, (small + 1) % (MAX_PLAYERS as u8))
}

/// Posts the small or big blind for the player in that seat: the blind moves
/// from the stack to the pot, becomes the player's bet, counts as the player's
/// action, and the seat is marked so that it cannot post again this hand.
pub fn post_blinds(table: &mut PokerTable, player_state: &mut PlayerState) -> (r: Result<(), PokerError>)
    requires
        old(table).wf(),
        old(player_state).position < MAX_PLAYERS,
        old(table).pot + old(player_state).stack <= u64::MAX,
    ensures
        final(table).wf(),
        match blind_error(old(table)@, *old(player_state)) {
            Some(e) => r == Err::<(), PokerError>(e) && final(table)@ == old(table)@
                && *final(player_state) == *old(player_state),
            None => r == Ok::<(), PokerError>(()) && final(table)@ == blind_posted_table(
                old(table)@,
                *old(player_state),
            ) && *final(player_state) == blind_posted_player(old(table)@, *old(player_state)),
        },
        final(table).pot + final(player_state).stack == old(table).pot + old(player_state).stack,
{
    if table.game_state != GameState::PreFlop {
        return Err(PokerError::WrongGameState);
    }
    let position = player_state.position;
    let bit: u16 = 1u16 << (position as u16);
    if table.blinds_posted & bit != 0 {
        return Err(PokerError::AlreadyPostedBlind);
    }
    let small = small_blind_seat(table);
    let big = big_blind_seat(table);
    let amount = if position == small {
        table.small_blind
    } else if position == big {
        table.big_blind
    } else {
        return Err(PokerError::NotBlindPosition);
    };
    if player_state.stack < amount {
        return Err(PokerError::InsufficientFunds);
    }
    player_state.stack = player_state.stack - amount;
    player_state.current_bet = amount;
    player_state.has_acted_this_street = true;
    table.pot = table.pot + amount;
    table.blinds_posted = table.blinds_posted | bit;
    Ok(())
}

} // verus!
