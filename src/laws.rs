//! Properties that hold across calls, stated over the spec functions that the
//! operations' contracts use.
use vstd::prelude::*;

use crate::betting::{action_error, acted_player, acted_table, round_complete};
use crate::blinds::{
    blind_amount, blind_error, blind_posted_player, blind_posted_table, lemma_seat_bit_added,
};
use crate::seat_ring::{first_active, next_to_act, ring_seat, seat_can_act};
use crate::types::{
    chips, lemma_stack_within_total, lemma_stacks_total_nonneg, lemma_stacks_total_update,
    MAX_PLAYERS, PlayerActionType, PlayerState, PlayerStatus, PokerError, PublicKey, TableView,
};

verus! {

/// The scan from step `k` finds the first seat that can act at or after step
/// `k`, or reports that none of those seats can.
proof fn lemma_first_active_is_first(
    seats: Seq<Option<PublicKey>>,
    ps: Seq<PlayerState>,
    start: int,
    k: int,
)
    requires
        0 <= k <= MAX_PLAYERS,
    ensures
        match first_active(seats, ps, start, k) {
            Some(s) => exists|j: int|
                k <= j < MAX_PLAYERS && s == ring_seat(start, j) && seat_can_act(seats, ps, s) && forall|
                    m: int,
                | k <= m < j ==> !seat_can_act(seats, ps, ring_seat(start, m)),
            None => forall|m: int| k <= m < MAX_PLAYERS ==> !seat_can_act(seats, ps, ring_seat(start, m)),
        },
    decreases MAX_PLAYERS - k,
{
    if k < MAX_PLAYERS && !seat_can_act(seats, ps, ring_seat(start, k)) {
        lemma_first_active_is_first(seats, ps, start, k + 1);
        match first_active(seats, ps, start, k + 1) {
            Some(s) => {
                let j = choose|j: int|
                    k + 1 <= j < MAX_PLAYERS && s == ring_seat(start, j) && seat_can_act(seats, ps, s)
                        && forall|m: int|
                        k + 1 <= m < j ==> !seat_can_act(seats, ps, ring_seat(start, m));
                assert(forall|m: int| k <= m < j ==> !seat_can_act(seats, ps, ring_seat(start, m)));
            },
            None => {},
        }
    }
}

/// Turn order: the turn passes to the first seat after `from`, in ring order,
/// whose player is active, passing over empty seats and folded or all-in
/// players. It comes back to `from` only when no other seat has an active
/// player, and no seat at all gets it when nobody is active.
pub proof fn lemma_turn_order(seats: Seq<Option<PublicKey>>, ps: Seq<PlayerState>, from: int)
    requires
        0 <= from < MAX_PLAYERS,
    ensures
        match next_to_act(seats, ps, from) {
            Some(s) => exists|k: int|
                1 <= k <= MAX_PLAYERS && s == ring_seat(from, k) && seat_can_act(seats, ps, s) && forall|
                    m: int,
                | 1 <= m < k ==> !seat_can_act(seats, ps, ring_seat(from, m)),
            None => forall|q: int| 0 <= q < MAX_PLAYERS ==> !seat_can_act(seats, ps, q),
        },
        (exists|q: int| 0 <= q < MAX_PLAYERS && q != from && seat_can_act(seats, ps, q)) ==> {
            &&& next_to_act(seats, ps, from) is Some
            &&& next_to_act(seats, ps, from)->0 != from
        },
{
    let start = ring_seat(from, 1);
    lemma_first_active_is_first(seats, ps, start, 0);
    assert forall|m: int| 0 <= m < MAX_PLAYERS implies ring_seat(start, m) == ring_seat(from, m + 1) by {}
    match next_to_act(seats, ps, from) {
        Some(s) => {
            let j = choose|j: int|
                0 <= j < MAX_PLAYERS && s == ring_seat(start, j) && seat_can_act(seats, ps, s)
                    && forall|m: int| 0 <= m < j ==> !seat_can_act(seats, ps, ring_seat(start, m));
            assert(s == ring_seat(from, j + 1));
            assert forall|m: int| 1 <= m < j + 1 implies !seat_can_act(seats, ps, ring_seat(from, m)) by {
                assert(ring_seat(start, m - 1) == ring_seat(from, m));
            }
            if exists|q: int| 0 <= q < MAX_PLAYERS && q != from && seat_can_act(seats, ps, q) {
                let q = choose|q: int| 0 <= q < MAX_PLAYERS && q != from && seat_can_act(seats, ps, q);
                let kq: int = if q > from {
                    q - from - 1
                } else {
                    q + MAX_PLAYERS - from - 1
                };
                assert(ring_seat(start, kq) == q);
                assert(j <= kq);
                assert(s != from);
            }
        },
        None => {
            assert forall|q: int| 0 <= q < MAX_PLAYERS implies !seat_can_act(seats, ps, q) by {
                let kq: int = if q > from {
                    q - from - 1
                } else {
                    q + MAX_PLAYERS - from - 1
                };
                assert(ring_seat(start, kq) == q);
            }
        },
    }
}

/// No action creates or destroys chips: what leaves the actor's stack is
/// exactly what enters the pot, wherever the turn goes next.
pub proof fn lemma_action_conserves_chips(
    t: TableView,
    ps: Seq<PlayerState>,
    who: int,
    action: PlayerActionType,
    raise: u64,
    next: int,
)
    requires
        0 <= who < ps.len(),
        chips(t, ps) <= u64::MAX,
        action == PlayerActionType::Raise ==> t.current_bet + raise <= u64::MAX,
        action_error(t, ps[who], action, raise) is None,
    ensures
        chips(
            acted_table(t, ps[who], action, raise, next),
            ps.update(who, acted_player(t, ps[who], action, raise)),
        ) == chips(t, ps),
{
    lemma_stacks_total_nonneg(ps);
    lemma_stack_within_total(ps, who);
    lemma_stacks_total_update(ps, who, acted_player(t, ps[who], action, raise));
}

/// A seat posts a blind at most once a hand: once a blind has been posted,
/// any record at that seat is refused with `AlreadyPostedBlind` until the next
/// hand, while the chips of the first posting stay moved.
pub proof fn lemma_blind_posts_once(t: TableView, p: PlayerState, again: PlayerState)
    requires
        p.position < MAX_PLAYERS,
        again.position == p.position,
        t.pot + p.stack <= u64::MAX,
        blind_error(t, p) is None,
    ensures
        blind_error(blind_posted_table(t, p), again) == Some(PokerError::AlreadyPostedBlind),
        blind_posted_player(t, p).stack == p.stack - blind_amount(t, p),
        blind_posted_table(t, p).pot == t.pot + blind_amount(t, p),
{
    lemma_seat_bit_added(t.blinds_posted, p.position, p.position);
}

/// The round waits for each active player: it is not complete while an
/// active player has not acted, and once that player has acted and matched the
/// bet it is complete exactly when every other active player has too.
pub proof fn lemma_round_waits_for_active(current_bet: u64, ps: Seq<PlayerState>, i: int)
    requires
        0 <= i < ps.len(),
        ps[i].status == PlayerStatus::Active,
    ensures
        !ps[i].has_acted_this_street ==> !round_complete(current_bet, ps),
        round_complete(
            current_bet,
            ps.update(i, PlayerState { has_acted_this_street: true, current_bet, ..ps[i] }),
        ) == forall|j: int|
            0 <= j < ps.len() && j != i && ps[j].status == PlayerStatus::Active
                ==> ps[j].has_acted_this_street && ps[j].current_bet == current_bet,
{
    let settled = PlayerState { has_acted_this_street: true, current_bet, ..ps[i] };
    let qs = ps.update(i, settled);
    assert(qs[i] == settled);
    if forall|j: int|
        0 <= j < ps.len() && j != i && ps[j].status == PlayerStatus::Active
            ==> ps[j].has_acted_this_street && ps[j].current_bet == current_bet {
        assert forall|j: int|
            0 <= j < qs.len() && qs[j].status == PlayerStatus::Active implies qs[j].has_acted_this_street
            && qs[j].current_bet == current_bet by {
            if j != i {
                assert(qs[j] == ps[j]);
            }
        }
    } else {
        let j = choose|j: int|
            !(0 <= j < ps.len() && j != i && ps[j].status == PlayerStatus::Active
                ==> ps[j].has_acted_this_street && ps[j].current_bet == current_bet);
        assert(qs[j] == ps[j]);
        assert(qs[i].status == PlayerStatus::Active);
    }
}

} // verus!
