//! One street of betting: the four actions, minimum raises, and when the round
//! is over.
use vstd::prelude::*;

use crate::seat_ring::{find_next_active_player, next_to_act, seat_can_act};
use crate::types::{
    chips, lemma_stack_within_total, lemma_stacks_total_nonneg, lemma_stacks_total_update,
    PlayerActionType, PlayerState, PlayerStatus, PokerError, PokerTable, TableView,
};

verus! {

/// The round is over when nobody is left in the hand, or when every active
/// player has acted and matched the table's bet. All-in players need not match.
pub open spec fn round_complete(current_bet: u64, ps: Seq<PlayerState>) -> bool {
    ||| forall|i: int| 0 <= i < ps.len() ==> ps[i].status == PlayerStatus::Folded
    ||| forall|i: int|
        0 <= i < ps.len() && ps[i].status == PlayerStatus::Active ==> ps[i].has_acted_this_street
            && ps[i].current_bet == current_bet
}

/// A player's record at the start of a street.
pub open spec fn street_reset(p: PlayerState) -> PlayerState {
    PlayerState { current_bet: 0, has_acted_this_street: false, ..p }
}

/// The smallest raise allowed: the last raise of this street, or the big blind
/// if nobody has raised yet.
pub open spec fn min_raise(t: TableView) -> u64 {
    if t.last_raise_amount > 0 {
        t.last_raise_amount
    } else {
        t.big_blind
    }
}

/// What a call costs: the amount owed, or the whole stack if that is less.
pub open spec fn call_cost(t: TableView, p: PlayerState) -> int {
    let owed: int = if t.current_bet > p.current_bet {
        t.current_bet - p.current_bet
    } else {
        0
    };
    if owed < p.stack {
        owed
    } else {
        p.stack as int
    }
}

/// What a raise by `raise` costs: the gap between the new bet and what the
/// player has already put in on this street.
pub open spec fn raise_cost(t: TableView, p: PlayerState, raise: u64) -> int {
    let target: int = t.current_bet + raise;
    if target > p.current_bet {
        target - p.current_bet
    } else {
        0
    }
}

/// Chips that move from the player's stack to the pot.
pub open spec fn action_cost(t: TableView, p: PlayerState, action: PlayerActionType, raise: u64) -> int {
    match action {
        PlayerActionType::Call => call_cost(t, p),
        PlayerActionType::Raise => raise_cost(t, p, raise),
        _ => 0,
    }
}

/// Why the action is refused, if it is; checked in this order.
pub open spec fn action_error(t: TableView, p: PlayerState, action: PlayerActionType, raise: u64) -> Option<
    PokerError,
> {
    if p.status != PlayerStatus::Active {
        Some(PokerError::PlayerNotActive)
    } else if t.current_player_index != p.position {
        Some(PokerError::NotYourTurn)
    } else {
        match action {
            PlayerActionType::Check => if p.current_bet != t.current_bet {
                Some(PokerError::CannotCheck)
            } else {
                None
            },
            PlayerActionType::Raise => if p.stack < raise_cost(t, p, raise) {
                Some(PokerError::InsufficientFunds)
            } else if raise < min_raise(t) {
                Some(PokerError::RaiseTooSmall)
            } else {
                None
            },
            _ => None,
        }
    }
}

/// The player's record after a legal action.
pub open spec fn acted_player(t: TableView, p: PlayerState, action: PlayerActionType, raise: u64) -> PlayerState {
    let cost = action_cost(t, p, action, raise);
    match action {
        PlayerActionType::Fold => PlayerState {
            status: PlayerStatus::Folded,
            has_acted_this_street: true,
            ..p
        },
        PlayerActionType::Check => PlayerState { has_acted_this_street: true, ..p },
        PlayerActionType::Call => PlayerState {
            stack: (p.stack - cost) as u64,
            current_bet: (p.current_bet + cost) as u64,
            status: if p.stack == cost {
                PlayerStatus::AllIn
            } else {
                p.status
            },
            has_acted_this_street: true,
            ..p
        },
        PlayerActionType::Raise => PlayerState {
            stack: (p.stack - cost) as u64,
            current_bet: (t.current_bet + raise) as u64,
            has_acted_this_street: true,
            ..p
        },
    }
}

/// The table after a legal action, the turn passing to seat `next`.
pub open spec fn acted_table(
    t: TableView,
    p: PlayerState,
    action: PlayerActionType,
    raise: u64,
    next: int,
) -> TableView {
    let moved = TableView {
        pot: (t.pot + action_cost(t, p, action, raise)) as u64,
        current_player_index: next as u8,
        ..t
    };
    if action == PlayerActionType::Raise {
        TableView {
            current_bet: (t.current_bet + raise) as u64,
            street_bet_count: (t.street_bet_count + 1) as u8,
            last_raise_amount: raise,
            last_aggressor_index: p.position,
            ..moved
        }
    } else {
        moved
    }
}

/// Whether the betting round is over (see `round_complete`).
pub fn is_betting_round_complete(table: &PokerTable, players: &Vec<PlayerState>) -> (r: bool)
    ensures
        r == round_complete(table.current_bet, players@),
{
    let mut anyone_left = false;
    let mut settled = true;
    let mut i: usize = 0;
    while i < players.len()
        invariant
            0 <= i <= players@.len(),
            anyone_left == exists|j: int|
                0 <= j < i && players@[j].status != PlayerStatus::Folded,
            settled == forall|j: int|
                0 <= j < i && players@[j].status == PlayerStatus::Active
                    ==> players@[j].has_acted_this_street && players@[j].current_bet
                    == table.current_bet,
        decreases players@.len() - i,
    {
        let p = players[i];
        if p.status != PlayerStatus::Folded {
            anyone_left = true;
        }
        if p.status == PlayerStatus::Active && !(p.has_acted_this_street && p.current_bet
            == table.current_bet) {
            settled = false;
        }
        i = i + 1;
    }
    !anyone_left || settled
}

/// Clears every player's bet and turn flag for a new street; statuses stay.
pub fn reset_player_states_for_street(players: &mut Vec<PlayerState>)
    ensures
        final(players)@.len() == old(players)@.len(),
        forall|i: int|
            0 <= i < old(players)@.len() ==> final(players)@[i] == street_reset(old(players)@[i]),
{
    let mut i: usize = 0;
    while i < players.len()
        invariant
            0 <= i <= players@.len(),
            players@.len() == old(players)@.len(),
            forall|j: int| 0 <= j < i ==> players@[j] == street_reset(old(players)@[j]),
            forall|j: int| i <= j < players@.len() ==> players@[j] == old(players)@[j],
        decreases players@.len() - i,
    {
        let mut p = players[i];
        p.current_bet = 0;
        p.has_acted_this_street = false;
        players[i] = p;
        i = i + 1;
    }
}

/// Fold, check, call or raise by the player whose record is `players[who]`.
/// On success the player has acted and the turn passes to the next seat whose
/// player is active. A refused action changes nothing.
pub fn player_action(
    table: &mut PokerTable,
    players: &mut Vec<PlayerState>,
    who: usize,
    action: PlayerActionType,
    raise_amount: u64,
) -> (r: Result<(), PokerError>)
    requires
        old(table).wf(),
        who < old(players)@.len(),
        chips(old(table)@, old(players)@) <= u64::MAX,
        action == PlayerActionType::Raise ==> old(table).current_bet + raise_amount <= u64::MAX
            && old(table).street_bet_count < u8::MAX,
    ensures
        final(table).wf(),
        ({
            let t = old(table)@;
            let p = old(players)@[who as int];
            match action_error(t, p, action, raise_amount) {
                Some(e) => r == Err::<(), PokerError>(e) && final(table)@ == t && final(players)@
                    == old(players)@,
                None => {
                    let ps = old(players)@.update(who as int, acted_player(t, p, action, raise_amount));
                    match next_to_act(t.players, ps, t.current_player_index as int) {
                        Some(s) => r == Ok::<(), PokerError>(()) && final(players)@ == ps
                            && final(table)@ == acted_table(t, p, action, raise_amount, s),
                        None => r == Err::<(), PokerError>(PokerError::NoActivePlayersRemaining)
                            && final(table)@ == t && final(players)@ == old(players)@,
                    }
                },
            }
        }),
        chips(final(table)@, final(players)@) == chips(old(table)@, old(players)@),
{
    let ghost t = table@;
    let p = players[who];
    if p.status != PlayerStatus::Active {
        return Err(PokerError::PlayerNotActive);
    }
    if table.current_player_index != p.position {
        return Err(PokerError::NotYourTurn);
    }
    let mut acted = p;
    let mut cost: u64 = 0;
    match action {
        PlayerActionType::Fold => {
            acted.status = PlayerStatus::Folded;
        },
        PlayerActionType::Check => {
            if p.current_bet != table.current_bet {
                return Err(PokerError::CannotCheck);
            }
        },
        PlayerActionType::Call => {
            let owed: u64 = if table.current_bet > p.current_bet {
                table.current_bet - p.current_bet
            } else {
                0
            };
            cost = if owed < p.stack {
                owed
            } else {
                p.stack
            };
            acted.stack = p.stack - cost;
            acted.current_bet = p.current_bet + cost;
            if acted.stack == 0 {
                acted.status = PlayerStatus::AllIn;
            }
        },
        PlayerActionType::Raise => {
            let total_bet = table.current_bet + raise_amount;
            cost = if total_bet > p.current_bet {
                total_bet - p.current_bet
            } else {
                0
            };
            if p.stack < cost {
                return Err(PokerError::InsufficientFunds);
            }
            let minimum = if table.last_raise_amount > 0 {
                table.last_raise_amount
            } else {
                table.big_blind
            };
            if raise_amount < minimum {
                return Err(PokerError::RaiseTooSmall);
            }
            acted.stack = p.stack - cost;
            acted.current_bet = total_bet;
        },
    }
    acted.has_acted_this_street = true;
    assert(cost == action_cost(t, p, action, raise_amount));
    assert(acted == acted_player(t, p, action, raise_amount));

    players[who] = acted;
    let next = match find_next_active_player(&table.players, players, table.current_player_index) {
        Ok(s) => s,
        Err(e) => {
            players[who] = p;
            assert(players@ =~= old(players)@);
            return Err(e);
        },
    };
    proof {
        lemma_stacks_total_nonneg(old(players)@);
        lemma_stack_within_total(old(players)@, who as int);
        lemma_stacks_total_update(old(players)@, who as int, acted);
    }
    table.pot = table.pot + cost;
    if action == PlayerActionType::Raise {
        table.current_bet = table.current_bet + raise_amount;
        table.street_bet_count = table.street_bet_count + 1;
        table.last_raise_amount = raise_amount;
        table.last_aggressor_index = p.position;
    }
    table.current_player_index = next;
    assert(seat_can_act(t.players, players@, next as int));
    Ok(())
}

} // verus!
