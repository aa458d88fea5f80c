//! Rules engine for a multi-seat, turn-based poker hand: seat and turn
//! sequencing, blinds, the four betting actions, round completion, street
//! advancement and hand resolution. Storage, signatures, card dealing and fund
//! custody are left to the caller.
pub mod betting;
pub mod blinds;
pub mod hand;
pub mod laws;
pub mod seat_ring;
pub mod table;
pub mod types;

pub use betting::{is_betting_round_complete, player_action, reset_player_states_for_street};
pub use blinds::{big_blind_seat, post_blinds, small_blind_seat};
pub use hand::{
    advance_street, advance_street_auto, check_auto_win, end_hand, reset_player_states_for_hand,
    start_hand,
};
pub use seat_ring::{find_next_active_player, next_occupied_seat};
pub use table::{initialize_table, join_table, leave_table};
pub use types::{
    chips_fit,     GameState, PlayerActionType, PlayerState, PlayerStatus, PokerError, PokerTable, PublicKey,
    BIG_BLIND_DEFAULT, MAX_BUY_IN_DEFAULT, MAX_PLAYERS, MIN_BUY_IN_DEFAULT, SMALL_BLIND_DEFAULT,
};
