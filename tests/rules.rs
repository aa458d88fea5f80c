use poker::{
    advance_street, advance_street_auto, big_blind_seat, check_auto_win, end_hand,
    find_next_active_player, initialize_table, is_betting_round_complete, join_table, leave_table,
    next_occupied_seat, player_action, post_blinds, reset_player_states_for_hand,
    reset_player_states_for_street, small_blind_seat, start_hand, GameState, PlayerActionType,
    PlayerState, PlayerStatus, PokerError, PokerTable, PublicKey,
};

fn key(n: u8) -> PublicKey {
    PublicKey::new([n; 32])
}

fn new_table() -> PokerTable {
    initialize_table(7, key(100), 10, 20, 1000, 10000)
}

/// A table with players seated at `seats`, each with a stack of 5000.
fn table_with(seats: &[u8]) -> (PokerTable, Vec<PlayerState>) {
    let mut table = new_table();
    let mut players = Vec::new();
    for &s in seats {
        players.push(join_table(&mut table, key(s + 1), key(200), 5000, s).unwrap());
    }
    (table, players)
}

fn index_at(players: &[PlayerState], position: u8) -> usize {
    players.iter().position(|p| p.position == position).unwrap()
}

fn chips(table: &PokerTable, players: &[PlayerState]) -> u64 {
    table.pot + players.iter().map(|p| p.stack).sum::<u64>()
}

fn snapshot(table: &PokerTable) -> (u64, u64, u8, GameState, u16, u64, u8, u8) {
    (
        table.pot,
        table.current_bet,
        table.current_player_index,
        table.game_state,
        table.blinds_posted,
        table.last_raise_amount,
        table.street_bet_count,
        table.button_position,
    )
}

#[test]
fn minimum_raise_follows_big_blind_then_last_raise() {
    let (mut table, mut players) = table_with(&[0, 1]);
    start_hand(&mut table, &mut players).unwrap();
    post_blinds(&mut table, &mut players[0]).unwrap();
    post_blinds(&mut table, &mut players[1]).unwrap();
    assert_eq!(table.current_player_index, 0);

    let first = index_at(&players, 0);
    assert_eq!(
        player_action(&mut table, &mut players, first, PlayerActionType::Raise, 15),
        Err(PokerError::RaiseTooSmall)
    );
    assert_eq!(
        player_action(&mut table, &mut players, first, PlayerActionType::Raise, 20),
        Ok(())
    );
    assert_eq!(table.last_raise_amount, 20);
    assert_eq!(table.current_bet, 40);

    let second = index_at(&players, 1);
    assert_eq!(table.current_player_index, 1);
    assert_eq!(
        player_action(&mut table, &mut players, second, PlayerActionType::Raise, 15),
        Err(PokerError::RaiseTooSmall)
    );
    assert_eq!(table.last_raise_amount, 20);
}

#[test]
fn second_blind_from_same_seat_is_refused() {
    let (mut table, mut players) = table_with(&[0, 1, 2]);
    start_hand(&mut table, &mut players).unwrap();
    // Button at 1: small blind at 2.
    assert_eq!(post_blinds(&mut table, &mut players[2]), Ok(()));
    assert_eq!(players[2].stack, 4990);
    assert_eq!(table.pot, 10);
    assert_eq!(post_blinds(&mut table, &mut players[2]), Err(PokerError::AlreadyPostedBlind));
    assert_eq!(players[2].stack, 4990);
    assert_eq!(players[2].current_bet, 10);
    assert_eq!(table.pot, 10);
}

#[test]
fn last_active_player_wins_pot() {
    let (mut table, mut players) = table_with(&[0, 1, 2]);
    start_hand(&mut table, &mut players).unwrap();
    players[0].status = PlayerStatus::Folded;
    players[2].status = PlayerStatus::Folded;
    table.pot = 300;
    let before = players[1].stack;

    assert_eq!(check_auto_win(&mut table, &mut players), Some(1));
    assert_eq!(players[1].stack, before + 300);
    assert_eq!(table.pot, 0);
    assert_eq!(table.game_state, GameState::HandComplete);
    assert_eq!(players[0].stack, 5000);
    assert_eq!(players[2].stack, 5000);
}

#[test]
fn auto_win_with_nobody_active_changes_nothing() {
    let (mut table, mut players) = table_with(&[0, 1]);
    start_hand(&mut table, &mut players).unwrap();
    players[0].status = PlayerStatus::Folded;
    players[1].status = PlayerStatus::AllIn;
    table.pot = 50;
    assert_eq!(check_auto_win(&mut table, &mut players), None);
    assert_eq!(table.pot, 50);
    assert_eq!(table.game_state, GameState::PreFlop);
}

#[test]
fn heads_up_hand_from_start_to_flop() {
    let mut table = initialize_table(1, key(100), 10, 20, 1000, 10000);
    let mut players = vec![
        join_table(&mut table, key(1), key(200), 5000, 0).unwrap(),
        join_table(&mut table, key(2), key(200), 5000, 1).unwrap(),
    ];

    start_hand(&mut table, &mut players).unwrap();
    assert_ne!(table.button_position, 0);
    assert_eq!(table.game_state, GameState::PreFlop);
    assert_eq!(table.current_bet, 20);

    post_blinds(&mut table, &mut players[0]).unwrap();
    post_blinds(&mut table, &mut players[1]).unwrap();

    let acting = index_at(&players, table.current_player_index);
    let other = 1 - acting;
    player_action(&mut table, &mut players, acting, PlayerActionType::Raise, 40).unwrap();
    assert_eq!(table.current_bet, 60);
    assert_eq!(table.last_raise_amount, 40);
    assert_eq!(
        advance_street_auto(&mut table, &mut players),
        Err(PokerError::BettingRoundNotComplete)
    );

    player_action(&mut table, &mut players, other, PlayerActionType::Call, 0).unwrap();
    assert_eq!(players[0].stack, 4940);
    assert_eq!(players[1].stack, 4940);
    assert_eq!(table.pot, 120);
    assert_eq!(chips(&table, &players), 10000);

    assert_eq!(advance_street_auto(&mut table, &mut players), Ok(()));
    assert_eq!(table.game_state, GameState::Flop);
    assert_eq!(table.current_bet, 0);
    assert_eq!(table.last_raise_amount, 0);
    assert_eq!(table.street_bet_count, 0);
    assert!(players.iter().all(|p| p.current_bet == 0 && !p.has_acted_this_street));
    // First to act after the button (seat 1) is seat 0.
    assert_eq!(table.current_player_index, 0);
}

#[test]
fn turn_skips_empty_folded_and_all_in_seats() {
    let (mut table, mut players) = table_with(&[0, 2, 3, 5, 7]);
    start_hand(&mut table, &mut players).unwrap();
    // Button moves from 0 to 2; first to act is the first occupied seat from 5.
    assert_eq!(table.button_position, 2);
    assert_eq!(table.current_player_index, 5);
    let seven = index_at(&players, 7);
    let zero = index_at(&players, 0);
    players[seven].status = PlayerStatus::Folded;
    players[zero].status = PlayerStatus::AllIn;

    let five = index_at(&players, 5);
    player_action(&mut table, &mut players, five, PlayerActionType::Call, 0).unwrap();
    assert_eq!(table.current_player_index, 2);
    assert_ne!(table.current_player_index, 5);
}

#[test]
fn turn_returns_to_actor_only_when_alone() {
    let (mut table, mut players) = table_with(&[0, 1]);
    start_hand(&mut table, &mut players).unwrap();
    let acting = index_at(&players, table.current_player_index);
    let other = 1 - acting;
    players[other].status = PlayerStatus::Folded;
    let seat = table.current_player_index;
    player_action(&mut table, &mut players, acting, PlayerActionType::Call, 0).unwrap();
    assert_eq!(table.current_player_index, seat);
}

#[test]
fn no_active_player_left_refuses_action_unchanged() {
    let (mut table, mut players) = table_with(&[0, 1]);
    start_hand(&mut table, &mut players).unwrap();
    let acting = index_at(&players, table.current_player_index);
    let other = 1 - acting;
    players[other].status = PlayerStatus::AllIn;
    let before = snapshot(&table);
    assert_eq!(
        player_action(&mut table, &mut players, acting, PlayerActionType::Fold, 0),
        Err(PokerError::NoActivePlayersRemaining)
    );
    assert_eq!(players[acting].status, PlayerStatus::Active);
    assert!(!players[acting].has_acted_this_street);
    assert_eq!(snapshot(&table), before);
}

#[test]
fn chips_are_conserved_by_each_action() {
    let (mut table, mut players) = table_with(&[0, 1, 2]);
    start_hand(&mut table, &mut players).unwrap();
    let total = chips(&table, &players);
    post_blinds(&mut table, &mut players[2]).unwrap();
    assert_eq!(chips(&table, &players), total);
    post_blinds(&mut table, &mut players[0]).unwrap();
    assert_eq!(chips(&table, &players), total);
    // Button 1, small blind 2, big blind 0; three past the button is the
    // empty seat 4, so seat 0 acts first.
    assert_eq!(table.current_player_index, 0);
    let zero = index_at(&players, 0);
    player_action(&mut table, &mut players, zero, PlayerActionType::Raise, 30).unwrap();
    assert_eq!(chips(&table, &players), total);
    assert_eq!(players[zero].stack, 4950);
    assert_eq!(table.current_player_index, 1);
    let one = index_at(&players, 1);
    player_action(&mut table, &mut players, one, PlayerActionType::Call, 0).unwrap();
    assert_eq!(players[one].stack, 4950);
    assert_eq!(chips(&table, &players), total);
    let two = index_at(&players, 2);
    player_action(&mut table, &mut players, two, PlayerActionType::Fold, 0).unwrap();
    assert_eq!(chips(&table, &players), total);
    assert_eq!(table.pot, 110);
}

#[test]
fn short_call_goes_all_in() {
    let (mut table, mut players) = table_with(&[0, 1]);
    start_hand(&mut table, &mut players).unwrap();
    let acting = index_at(&players, table.current_player_index);
    players[acting].stack = 15;
    player_action(&mut table, &mut players, acting, PlayerActionType::Call, 0).unwrap();
    assert_eq!(players[acting].stack, 0);
    assert_eq!(players[acting].current_bet, 15);
    assert_eq!(players[acting].status, PlayerStatus::AllIn);
    assert_eq!(table.pot, 15);
}

#[test]
fn round_complete_waits_for_single_active_player() {
    let table = new_table();
    let mut p = join_table(&mut new_table(), key(1), key(200), 5000, 0).unwrap();
    p.current_bet = table.current_bet;
    let mut players = vec![p];
    assert!(!is_betting_round_complete(&table, &players));
    players[0].has_acted_this_street = true;
    assert!(is_betting_round_complete(&table, &players));
}

#[test]
fn round_complete_rules() {
    let mut table = new_table();
    table.current_bet = 40;
    let mut a = join_table(&mut new_table(), key(1), key(200), 5000, 0).unwrap();
    let mut b = join_table(&mut new_table(), key(2), key(200), 5000, 1).unwrap();
    a.status = PlayerStatus::Folded;
    b.status = PlayerStatus::Folded;
    assert!(is_betting_round_complete(&table, &vec![a, b]));
    assert!(is_betting_round_complete(&table, &vec![]));
    b.status = PlayerStatus::AllIn;
    b.current_bet = 10;
    assert!(is_betting_round_complete(&table, &vec![a, b]));
    a.status = PlayerStatus::Active;
    a.has_acted_this_street = true;
    a.current_bet = 30;
    assert!(!is_betting_round_complete(&table, &vec![a, b]));
    a.current_bet = 40;
    assert!(is_betting_round_complete(&table, &vec![a, b]));
}

#[test]
fn blind_seats_follow_button() {
    let (mut table, _) = table_with(&[1, 4, 8]);
    table.button_position = 4;
    assert_eq!(small_blind_seat(&table), 8);
    assert_eq!(big_blind_seat(&table), 1);
    assert_eq!(next_occupied_seat(&table.players, 2), 4);
    assert_eq!(next_occupied_seat(&table.players, 4), 4);
}

#[test]
fn next_active_scan_results() {
    let (table, mut players) = table_with(&[0, 3, 6]);
    assert_eq!(find_next_active_player(&table.players, &players, 0), Ok(3));
    players[1].status = PlayerStatus::Folded;
    assert_eq!(find_next_active_player(&table.players, &players, 0), Ok(6));
    assert_eq!(find_next_active_player(&table.players, &players, 6), Ok(0));
    players[0].status = PlayerStatus::Folded;
    players[2].status = PlayerStatus::AllIn;
    assert_eq!(
        find_next_active_player(&table.players, &players, 0),
        Err(PokerError::NoActivePlayersRemaining)
    );
}

#[test]
fn start_hand_resets_records_and_turn() {
    let (mut table, mut players) = table_with(&[0, 1, 2, 3]);
    players[1].status = PlayerStatus::Folded;
    players[2].current_bet = 99;
    players[3].has_acted_this_street = true;
    table.pot = 0;
    start_hand(&mut table, &mut players).unwrap();
    assert!(players
        .iter()
        .all(|p| p.status == PlayerStatus::Active && p.current_bet == 0 && !p.has_acted_this_street));
    assert_eq!(table.button_position, 1);
    assert_eq!(table.current_player_index, 0);
    assert_eq!(table.community_cards, [0u8; 5]);
    assert_eq!(start_hand(&mut table, &mut players), Err(PokerError::GameInProgress));
}

#[test]
fn streets_advance_in_order() {
    let (mut table, mut players) = table_with(&[0, 1, 2]);
    start_hand(&mut table, &mut players).unwrap();
    table.last_raise_amount = 40;
    table.street_bet_count = 2;
    let order = [GameState::Flop, GameState::Turn, GameState::River, GameState::Showdown];
    for state in order {
        assert_eq!(advance_street(&mut table), Ok(()));
        assert_eq!(table.game_state, state);
        assert_eq!(table.current_bet, 0);
        assert_eq!(table.last_raise_amount, 0);
        assert_eq!(table.street_bet_count, 0);
        assert_eq!(table.current_player_index, 2);
    }
    assert_eq!(advance_street(&mut table), Err(PokerError::WrongGameState));
    assert_eq!(table.game_state, GameState::Showdown);
}

#[test]
fn end_hand_pays_winner() {
    let (mut table, mut players) = table_with(&[0, 1]);
    start_hand(&mut table, &mut players).unwrap();
    table.pot = 500;
    assert_eq!(end_hand(&mut table, &mut players[1], 9), Err(PokerError::InvalidPosition));
    assert_eq!(end_hand(&mut table, &mut players[1], 0), Err(PokerError::InvalidWinner));
    assert_eq!(table.pot, 500);
    assert_eq!(end_hand(&mut table, &mut players[1], 1), Ok(()));
    assert_eq!(players[1].stack, 5500);
    assert_eq!(table.pot, 0);
    assert_eq!(table.game_state, GameState::HandComplete);
}

#[test]
fn join_errors() {
    let mut table = new_table();
    assert_eq!(join_table(&mut table, key(1), key(200), 999, 0).err(), Some(PokerError::InvalidBuyIn));
    assert_eq!(join_table(&mut table, key(1), key(200), 10001, 0).err(), Some(PokerError::InvalidBuyIn));
    assert_eq!(join_table(&mut table, key(1), key(200), 1000, 9).err(), Some(PokerError::InvalidPosition));
    join_table(&mut table, key(1), key(200), 10000, 4).unwrap();
    assert_eq!(join_table(&mut table, key(2), key(200), 5000, 4).err(), Some(PokerError::SeatTaken));
    assert_eq!(table.player_count, 1);
    for s in [0u8, 1, 2, 3, 5, 6, 7, 8] {
        join_table(&mut table, key(s + 10), key(200), 5000, s).unwrap();
    }
    assert_eq!(table.player_count, 9);
    assert_eq!(join_table(&mut table, key(50), key(200), 5000, 0).err(), Some(PokerError::TableFull));

    let (mut busy, mut players) = table_with(&[0, 1]);
    start_hand(&mut busy, &mut players).unwrap();
    assert_eq!(join_table(&mut busy, key(9), key(200), 5000, 5).err(), Some(PokerError::GameInProgress));
}

#[test]
fn leave_rules() {
    let (mut table, mut players) = table_with(&[0, 1, 2]);
    let stranger = join_table(&mut new_table(), key(77), key(200), 5000, 1).unwrap();
    assert_eq!(leave_table(&mut table, &stranger), Err(PokerError::NotAtTable));
    start_hand(&mut table, &mut players).unwrap();
    assert_eq!(leave_table(&mut table, &players[0]), Err(PokerError::CannotLeaveNow));
    end_hand(&mut table, &mut players[0], 0).unwrap();
    assert_eq!(leave_table(&mut table, &players[0]), Ok(()));
    assert_eq!(table.players[0], None);
    assert_eq!(table.player_count, 2);
}

#[test]
fn start_needs_two_players() {
    let (mut table, mut players) = table_with(&[3]);
    assert_eq!(start_hand(&mut table, &mut players), Err(PokerError::NotEnoughPlayers));
    assert_eq!(table.game_state, GameState::WaitingForPlayers);
    assert_eq!(table.hand_number, 0);
}

#[test]
fn blind_errors() {
    let (mut table, mut players) = table_with(&[0, 1, 2, 3]);
    assert_eq!(post_blinds(&mut table, &mut players[0]), Err(PokerError::WrongGameState));
    start_hand(&mut table, &mut players).unwrap();
    // Button 1, small blind 2, big blind 3.
    assert_eq!(post_blinds(&mut table, &mut players[0]), Err(PokerError::NotBlindPosition));
    players[3].stack = 19;
    assert_eq!(post_blinds(&mut table, &mut players[3]), Err(PokerError::InsufficientFunds));
    players[3].stack = 20;
    assert_eq!(post_blinds(&mut table, &mut players[3]), Ok(()));
    assert_eq!(players[3].stack, 0);
    assert_eq!(players[3].current_bet, 20);
    assert!(players[3].has_acted_this_street);
    assert_eq!(table.blinds_posted, 1u16 << 3);
}

#[test]
fn action_errors() {
    let (mut table, mut players) = table_with(&[0, 1, 2]);
    start_hand(&mut table, &mut players).unwrap();
    assert_eq!(table.current_player_index, 0);
    let before = snapshot(&table);
    assert_eq!(
        player_action(&mut table, &mut players, 1, PlayerActionType::Check, 0),
        Err(PokerError::NotYourTurn)
    );
    assert_eq!(
        player_action(&mut table, &mut players, 0, PlayerActionType::Check, 0),
        Err(PokerError::CannotCheck)
    );
    players[0].stack = 50;
    assert_eq!(
        player_action(&mut table, &mut players, 0, PlayerActionType::Raise, 40),
        Err(PokerError::InsufficientFunds)
    );
    assert_eq!(players[0].stack, 50);
    players[0].status = PlayerStatus::Folded;
    assert_eq!(
        player_action(&mut table, &mut players, 0, PlayerActionType::Call, 0),
        Err(PokerError::PlayerNotActive)
    );
    assert_eq!(snapshot(&table), before);
    players[0].status = PlayerStatus::Active;
    players[0].current_bet = 20;
    assert_eq!(player_action(&mut table, &mut players, 0, PlayerActionType::Check, 0), Ok(()));
    assert!(players[0].has_acted_this_street);
    assert_eq!(table.current_player_index, 1);
}

#[test]
fn street_and_hand_resets() {
    let (_, mut players) = table_with(&[0, 1]);
    players[0].status = PlayerStatus::Folded;
    players[0].current_bet = 30;
    players[1].has_acted_this_street = true;
    reset_player_states_for_street(&mut players);
    assert_eq!(players[0].status, PlayerStatus::Folded);
    assert_eq!(players[0].current_bet, 0);
    assert!(!players[1].has_acted_this_street);
    reset_player_states_for_hand(&mut players);
    assert_eq!(players[0].status, PlayerStatus::Active);
}

#[test]
fn error_messages() {
    assert_eq!(PokerError::RaiseTooSmall.message(), "Raise amount is too small");
    assert_eq!(PokerError::TableFull.message(), "Table is full");
}

#[test]
fn key_equality_compares_bytes() {
    let mut bytes = [3u8; 32];
    assert_eq!(PublicKey::new(bytes), key(3));
    bytes[31] = 4;
    assert_ne!(PublicKey::new(bytes), key(3));
    assert!(PublicKey::zero().same(&PublicKey::new([0u8; 32])));
}
