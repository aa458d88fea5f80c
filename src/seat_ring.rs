//! Walking the ring of seats: the next occupied seat, and the next seat whose
//! player may act.
use vstd::prelude::*;

use crate::types::{MAX_PLAYERS, PlayerState, PlayerStatus, PokerError, PublicKey};

verus! {

/// The seat `k` steps after `start`, going round the table.
pub open spec fn ring_seat(start: int, k: int) -> int {
    (start + k) % (MAX_PLAYERS as int)
}

/// The first occupied seat among `ring_seat(start, k)`, `ring_seat(start, k + 1)`,
/// ... up to one full turn from `start`.
pub open spec fn first_occupied(seats: Seq<Option<PublicKey>>, start: int, k: int) -> Option<int>
    decreases MAX_PLAYERS - k,
{
    if k >= MAX_PLAYERS {
        None
    } else if seats[ring_seat(start, k)] is Some {
        Some(ring_seat(start, k))
    } else {
        first_occupied(seats, start, k + 1)
    }
}

/// The first occupied seat at or after `start`; `start` itself where no seat
/// is occupied.
pub open spec fn next_occupied(seats: Seq<Option<PublicKey>>, start: int) -> int {
    match first_occupied(seats, start, 0) {
        Some(s) => s,
        None => start,
    }
}

/// Seat `p` is occupied and a record of an active player sits there.
pub open spec fn seat_can_act(seats: Seq<Option<PublicKey>>, ps: Seq<PlayerState>, p: int) -> bool {
    &&& seats[p] is Some
    &&& exists|i: int|
        0 <= i < ps.len() && ps[i].position == p && ps[i].status == PlayerStatus::Active
}

/// The first seat, from `ring_seat(start, k)` on and within one full turn from
/// `start`, whose player may act.
pub open spec fn first_active(
    seats: Seq<Option<PublicKey>>,
    ps: Seq<PlayerState>,
    start: int,
    k: int,
) -> Option<int>
    decreases MAX_PLAYERS - k,
{
    if k >= MAX_PLAYERS {
        None
    } else if seat_can_act(seats, ps, ring_seat(start, k)) {
        Some(ring_seat(start, k))
    } else {
        first_active(seats, ps, start, k + 1)
    }
}

/// The seat after `from` whose player acts next, if any: seats are visited in
/// ring order, `from` itself last.
pub open spec fn next_to_act(seats: Seq<Option<PublicKey>>, ps: Seq<PlayerState>, from: int) -> Option<
    int,
> {
    first_active(seats, ps, ring_seat(from, 1), 0)
}

/// Within one turn, an occupied seat at step `kq` is found no later than `kq`.
pub proof fn lemma_first_occupied_found(seats: Seq<Option<PublicKey>>, start: int, k: int, kq: int)
    requires
        0 <= k <= kq < MAX_PLAYERS,
        seats[ring_seat(start, kq)] is Some,
    ensures
        exists|j: int| k <= j <= kq && first_occupied(seats, start, k) == Some(ring_seat(start, j)),
    decreases kq - k,
{
    if seats[ring_seat(start, k)] is Some {
        assert(first_occupied(seats, start, k) == Some(ring_seat(start, k)));
    } else {
        lemma_first_occupied_found(seats, start, k + 1, kq);
        let j = choose|j: int|
            k + 1 <= j <= kq && first_occupied(seats, start, k + 1) == Some(ring_seat(start, j));
        assert(first_occupied(seats, start, k) == Some(ring_seat(start, j)));
    }
}

/// Every seat index is reached from `start` within one turn.
pub proof fn lemma_ring_reaches(start: int, q: int) -> (k: int)
    requires
        0 <= start < MAX_PLAYERS,
        0 <= q < MAX_PLAYERS,
    ensures
        0 <= k < MAX_PLAYERS,
        ring_seat(start, k) == q,
{
    if q >= start {
        q - start
    } else {
        q + MAX_PLAYERS - start
    }
}

/// A seat found by the scan is occupied and lies on the ring.
pub proof fn lemma_first_occupied_some(seats: Seq<Option<PublicKey>>, start: int, k: int)
    requires
        0 <= k,
        first_occupied(seats, start, k) is Some,
        seats.len() == MAX_PLAYERS,
    ensures
        seats[first_occupied(seats, start, k)->0] is Some,
        0 <= first_occupied(seats, start, k)->0 < MAX_PLAYERS,
    decreases MAX_PLAYERS - k,
{
    if k < MAX_PLAYERS && seats[ring_seat(start, k)] is None {
        lemma_first_occupied_some(seats, start, k + 1);
    }
}

/// Where some seat is occupied, the scan from any seat finds an occupied seat.
pub proof fn lemma_next_occupied(seats: Seq<Option<PublicKey>>, start: int, q: int)
    requires
        seats.len() == MAX_PLAYERS,
        0 <= start < MAX_PLAYERS,
        0 <= q < MAX_PLAYERS,
        seats[q] is Some,
    ensures
        first_occupied(seats, start, 0) is Some,
        first_occupied(seats, start, 0) == Some(next_occupied(seats, start)),
        seats[next_occupied(seats, start)] is Some,
        0 <= next_occupied(seats, start) < MAX_PLAYERS,
{
    let kq = lemma_ring_reaches(start, q);
    lemma_first_occupied_found(seats, start, 0, kq);
    lemma_first_occupied_some(seats, start, 0);
}

/// The first occupied seat at or after `start`.
pub fn next_occupied_seat(seats: &Vec<Option<PublicKey>>, start: u8) -> (r: u8)
    requires
        seats@.len() == MAX_PLAYERS,
        start < MAX_PLAYERS,
        exists|q: int| 0 <= q < MAX_PLAYERS && seats@[q] is Some,
    ensures
        r == next_occupied(seats@, start as int),
        first_occupied(seats@, start as int, 0) == Some(r as int),
        r < MAX_PLAYERS,
        seats@[r as int] is Some,
{
    let ghost q = choose|q: int| 0 <= q < MAX_PLAYERS && seats@[q] is Some;
    proof {
        lemma_next_occupied(seats@, start as int, q);
    }
    let mut seat: u8 = start;
    let ghost mut k: int = 0;
    while seats[seat as usize].is_none()
        invariant
            0 <= k < MAX_PLAYERS,
            seats@.len() == MAX_PLAYERS,
            seat as int == ring_seat(start as int, k),
            first_occupied(seats@, start as int, k) == first_occupied(seats@, start as int, 0),
            first_occupied(seats@, start as int, 0) is Some,
        decreases MAX_PLAYERS - k,
    {
        proof {
            if k + 1 >= MAX_PLAYERS {
                assert(first_occupied(seats@, start as int, k + 1) is None);
            }
        }
        seat = (seat + 1) % (MAX_PLAYERS as u8);
        proof {
            k = k + 1;
        }
    }
    seat
}

/// Whether a record of an active player sits at `seat`.
fn active_record_at(ps: &Vec<PlayerState>, seat: u8) -> (r: bool)
    ensures
        r == exists|i: int|
            0 <= i < ps@.len() && ps@[i].position == seat && ps@[i].status == PlayerStatus::Active,
{
    let mut i: usize = 0;
    while i < ps.len()
        invariant
            0 <= i <= ps@.len(),
            forall|j: int|
                0 <= j < i ==> !(ps@[j].position == seat && ps@[j].status == PlayerStatus::Active),
        decreases ps@.len() - i,
    {
        if ps[i].position == seat && ps[i].status == PlayerStatus::Active {
            return true;
        }
        i = i + 1;
    }
    false
}

/// The seat after `current_index`, in ring order, whose player may act:
/// occupied, with an active record. `current_index` itself is the last seat
/// tried. Folded and all-in players are passed over.
pub fn find_next_active_player(
    seats: &Vec<Option<PublicKey>>,
    players: &Vec<PlayerState>,
    current_index: u8,
) -> (r: Result<u8, PokerError>)
    requires
        seats@.len() == MAX_PLAYERS,
        current_index < MAX_PLAYERS,
    ensures
        r == match next_to_act(seats@, players@, current_index as int) {
            Some(s) => Ok::<u8, PokerError>(s as u8),
            None => Err(PokerError::NoActivePlayersRemaining),
        },
        r is Ok ==> r->Ok_0 < MAX_PLAYERS && seat_can_act(seats@, players@, r->Ok_0 as int),
{
    let ghost start = ring_seat(current_index as int, 1);
    let mut next: u8 = (current_index + 1) % (MAX_PLAYERS as u8);
    let mut checked: u8 = 0;
    while checked < MAX_PLAYERS as u8
        invariant
            checked <= MAX_PLAYERS,
            seats@.len() == MAX_PLAYERS,
            start == ring_seat(current_index as int, 1),
            next as int == ring_seat(start, checked as int),
            first_active(seats@, players@, start, checked as int) == first_active(
                seats@,
                players@,
                start,
                0,
            ),
        decreases MAX_PLAYERS - checked,
    {
        if seats[next as usize].is_some() && active_record_at(players, next) {
            assert(seat_can_act(seats@, players@, next as int));
            assert(first_active(seats@, players@, start, checked as int) == Some(next as int));
            return Ok(next);
        }
        next = (next + 1) % (MAX_PLAYERS as u8);
        checked = checked + 1;
    }
    Err(PokerError::NoActivePlayersRemaining)
}

} // verus!
