use noughts_and_crosses::game::converters::pb_n_n_to_string;
use noughts_and_crosses::game::converters::pm_tcp_msg_to_x_y;
use noughts_and_crosses::game::converters::ConversionError;
use noughts_and_crosses::game::converters::TextRenderer;
use noughts_and_crosses::game::playboard::pb_n_n;
use noughts_and_crosses::game::playboard::Playboard;
use noughts_and_crosses::game::player_manager::Delivery;
use noughts_and_crosses::game::player_manager::MsgFromPlayer;
use noughts_and_crosses::game::player_manager::MsgToPlayer;
use noughts_and_crosses::game::Game;
use noughts_and_crosses::game::GameStage;
use noughts_and_crosses::game::PlayerId;

type TextGame = Game<pb_n_n::Playboard, TextRenderer>;

const A: PlayerId = PlayerId::Circle;
const B: PlayerId = PlayerId::Cross;

fn new_game(edge: usize) -> TextGame {
    Game::new(pb_n_n::Playboard::new(edge).unwrap(), TextRenderer)
}

/// A game in which both players are seated; `Circle` is on move.
fn started(edge: usize) -> TextGame {
    let mut game = new_game(edge);
    game.on_join();
    game.on_join();
    assert_eq!(game.stage(), GameStage::PlayerOnMove(A));
    game
}

fn to(id: PlayerId, msg: MsgToPlayer<String>) -> Delivery<String> {
    Delivery { to: id, msg }
}

fn picture(edge: usize, moves: &[((usize, usize), PlayerId)]) -> String {
    let mut board = pb_n_n::Playboard::new(edge).unwrap();
    for (position, player) in moves {
        board.new_move(*position, *player).unwrap();
    }
    pb_n_n_to_string(&board)
}

fn shown(id: PlayerId, edge: usize, moves: &[((usize, usize), PlayerId)]) -> Delivery<String> {
    to(id, MsgToPlayer::Playboard(picture(edge, moves)))
}

fn is_empty(game: &TextGame) -> bool {
    game.playboard().fields.iter().all(|f| f.field.is_none())
}

#[test]
fn new_game_waits_for_both_players() {
    let mut board = pb_n_n::Playboard::new(3).unwrap();
    board.new_move((1, 1), A).unwrap();
    let game = Game::new(board, TextRenderer);
    assert_eq!(game.stage(), GameStage::WaitingForPlayers);
    assert!(!game.is_seated(A));
    assert!(!game.is_seated(B));
    assert!(is_empty(&game));
    assert_eq!(game.playboard().edge_size, 3);
}

#[test]
fn first_player_is_welcomed_and_waits() {
    let mut game = new_game(3);
    let (seat, deliveries) = game.on_join();
    assert_eq!(seat, Some(A));
    assert_eq!(
        deliveries,
        vec![to(A, MsgToPlayer::WelcomePlayer), to(A, MsgToPlayer::WaitingForOtherPlayer)]
    );
    assert_eq!(game.stage(), GameStage::WaitingForPlayer(B));
    assert!(game.is_seated(A));
    assert!(!game.is_seated(B));
}

#[test]
fn second_player_starts_the_round() {
    let mut game = new_game(3);
    game.on_join();
    let (seat, deliveries) = game.on_join();
    assert_eq!(seat, Some(B));
    assert_eq!(
        deliveries,
        vec![
            to(B, MsgToPlayer::WelcomePlayer),
            to(A, MsgToPlayer::PlayersAreReady),
            shown(A, 3, &[]),
            to(B, MsgToPlayer::PlayersAreReady),
            shown(B, 3, &[]),
            to(A, MsgToPlayer::YourAreOnMove),
            to(B, MsgToPlayer::OtherPlayerIsOnMove),
        ]
    );
    assert_eq!(game.stage(), GameStage::PlayerOnMove(A));
    assert!(game.is_seated(A) && game.is_seated(B));
}

#[test]
fn third_comer_finds_no_seat() {
    let mut game = started(3);
    game.on_message(A, Ok((0, 0)));
    let (seat, deliveries) = game.on_join();
    assert_eq!(seat, None);
    assert_eq!(deliveries, vec![]);
    assert_eq!(game.stage(), GameStage::PlayerOnMove(B));
    assert_eq!(game.playboard().fields[0].field, Some(A));
}

#[test]
fn message_while_waiting_is_passed_over() {
    let mut game = new_game(3);
    assert_eq!(game.on_message(A, Ok((0, 0))), vec![]);
    assert_eq!(game.stage(), GameStage::WaitingForPlayers);
    game.on_join();
    assert_eq!(game.on_message(A, Ok((0, 0))), vec![]);
    assert_eq!(game.on_message(B, Err(ConversionError)), vec![]);
    assert_eq!(game.stage(), GameStage::WaitingForPlayer(B));
    assert!(is_empty(&game));
}

#[test]
fn move_passes_the_turn() {
    let mut game = started(3);
    let deliveries = game.on_message(A, Ok((1, 1)));
    let moves = [((1, 1), A)];
    assert_eq!(
        deliveries,
        vec![
            shown(B, 3, &moves),
            shown(A, 3, &moves),
            to(B, MsgToPlayer::YourAreOnMove),
            to(A, MsgToPlayer::OtherPlayerIsOnMove),
        ]
    );
    assert_eq!(game.stage(), GameStage::PlayerOnMove(B));
    assert_eq!(game.playboard().fields[4].field, Some(A));
}

#[test]
fn player_out_of_turn_is_told_so() {
    let mut game = started(3);
    assert_eq!(game.on_message(B, Ok((0, 0))), vec![to(B, MsgToPlayer::YouAreNotOnMove)]);
    assert_eq!(game.on_message(B, Err(ConversionError)), vec![to(B, MsgToPlayer::YouAreNotOnMove)]);
    assert_eq!(game.stage(), GameStage::PlayerOnMove(A));
    assert!(is_empty(&game));
    // After a move the roles are swapped
    game.on_message(A, Ok((0, 0)));
    for _ in 0..3 {
        assert_eq!(game.on_message(A, Ok((1, 1))), vec![to(A, MsgToPlayer::YouAreNotOnMove)]);
        assert_eq!(game.stage(), GameStage::PlayerOnMove(B));
        assert_eq!(game.playboard().fields[4].field, None);
    }
    assert_eq!(game.on_message(B, Ok((1, 1))).len(), 4);
    assert_eq!(game.playboard().fields[4].field, Some(B));
    assert_eq!(game.stage(), GameStage::PlayerOnMove(A));
}

#[test]
fn refused_moves_are_told_to_the_mover_alone() {
    let mut game = started(3);
    assert_eq!(game.on_message(A, Err(ConversionError)), vec![to(A, MsgToPlayer::InvalidInput)]);
    assert_eq!(game.on_message(A, Ok((3, 0))), vec![to(A, MsgToPlayer::InvalidInput)]);
    assert_eq!(game.on_message(A, Ok((0, 7))), vec![to(A, MsgToPlayer::InvalidInput)]);
    assert_eq!(game.stage(), GameStage::PlayerOnMove(A));
    assert!(is_empty(&game));
    game.on_message(A, Ok((2, 2)));
    assert_eq!(game.on_message(B, Ok((2, 2))), vec![to(B, MsgToPlayer::AlreadyTaken)]);
    assert_eq!(game.on_message(B, Ok((2, 2))), vec![to(B, MsgToPlayer::AlreadyTaken)]);
    assert_eq!(game.stage(), GameStage::PlayerOnMove(B));
    assert_eq!(game.playboard().fields[8].field, Some(A));
}

#[test]
fn win_ends_the_round_and_the_loser_starts_the_next() {
    let mut game = started(3);
    let moves = [((0, 0), A), ((1, 1), B), ((0, 1), A), ((2, 2), B), ((0, 2), A)];
    for (position, player) in &moves[..4] {
        assert_eq!(game.on_message(*player, Ok(*position)).len(), 4);
    }
    let deliveries = game.on_message(A, Ok((0, 2)));
    assert_eq!(
        deliveries,
        vec![
            shown(A, 3, &moves),
            shown(B, 3, &moves),
            to(A, MsgToPlayer::YouWon),
            to(B, MsgToPlayer::YouLose),
            shown(B, 3, &[]),
            shown(A, 3, &[]),
            to(B, MsgToPlayer::YourAreOnMove),
            to(A, MsgToPlayer::OtherPlayerIsOnMove),
        ]
    );
    assert!(is_empty(&game));
    assert_eq!(game.stage(), GameStage::PlayerOnMove(B));
    assert_eq!(game.on_message(A, Ok((0, 0))), vec![to(A, MsgToPlayer::YouAreNotOnMove)]);
    assert_eq!(game.on_message(B, Ok((0, 0))).len(), 4);
}

#[test]
fn draw_ends_the_round_and_the_mover_starts_the_next() {
    let mut game = started(3);
    let moves = [
        ((0, 0), A),
        ((0, 1), B),
        ((0, 2), A),
        ((1, 1), B),
        ((1, 0), A),
        ((1, 2), B),
        ((2, 1), A),
        ((2, 0), B),
    ];
    for (position, player) in &moves[..7] {
        assert_eq!(game.on_message(*player, Ok(*position)).len(), 4);
    }
    let deliveries = game.on_message(B, Ok((2, 0)));
    assert_eq!(
        deliveries,
        vec![
            shown(A, 3, &moves),
            to(A, MsgToPlayer::Draw),
            shown(B, 3, &moves),
            to(B, MsgToPlayer::Draw),
            shown(B, 3, &[]),
            shown(A, 3, &[]),
            to(B, MsgToPlayer::YourAreOnMove),
            to(A, MsgToPlayer::OtherPlayerIsOnMove),
        ]
    );
    assert!(is_empty(&game));
    assert_eq!(game.stage(), GameStage::PlayerOnMove(B));
}

#[test]
fn leaving_on_move_gives_the_round_up() {
    let mut game = started(3);
    game.on_message(A, Ok((0, 0)));
    game.on_message(B, Ok((1, 1)));
    assert_eq!(game.stage(), GameStage::PlayerOnMove(A));
    let deliveries = game.on_leave(A);
    assert_eq!(
        deliveries,
        vec![to(B, MsgToPlayer::OtherPlayerLeave), to(B, MsgToPlayer::WaitingForOtherPlayer)]
    );
    assert!(is_empty(&game));
    assert_eq!(game.stage(), GameStage::WaitingForPlayer(A));
    assert!(!game.is_seated(A));
    assert!(game.is_seated(B));
}

#[test]
fn leaving_while_the_other_is_on_move_gives_the_round_up() {
    let mut game = started(3);
    game.on_message(A, Ok((0, 0)));
    assert_eq!(game.stage(), GameStage::PlayerOnMove(B));
    let deliveries = game.on_leave(A);
    assert_eq!(
        deliveries,
        vec![to(B, MsgToPlayer::OtherPlayerLeave), to(B, MsgToPlayer::WaitingForOtherPlayer)]
    );
    assert!(is_empty(&game));
    assert_eq!(game.stage(), GameStage::WaitingForPlayer(A));
}

#[test]
fn free_seat_is_taken_again_and_the_one_who_waited_moves_first() {
    let mut game = started(3);
    game.on_leave(A);
    let (seat, deliveries) = game.on_join();
    assert_eq!(seat, Some(A));
    assert_eq!(deliveries.len(), 7);
    assert_eq!(deliveries[0], to(A, MsgToPlayer::WelcomePlayer));
    assert_eq!(deliveries[5], to(B, MsgToPlayer::YourAreOnMove));
    assert_eq!(deliveries[6], to(A, MsgToPlayer::OtherPlayerIsOnMove));
    assert_eq!(game.stage(), GameStage::PlayerOnMove(B));
}

#[test]
fn last_player_to_leave_empties_the_game() {
    let mut game = started(3);
    game.on_leave(B);
    assert_eq!(game.stage(), GameStage::WaitingForPlayer(B));
    assert_eq!(game.on_leave(A), vec![]);
    assert_eq!(game.stage(), GameStage::WaitingForPlayers);
    assert!(!game.is_seated(A) && !game.is_seated(B));
    // Nobody is there to leave
    assert_eq!(game.on_leave(A), vec![]);
    assert_eq!(game.stage(), GameStage::WaitingForPlayers);
    let (seat, _) = game.on_join();
    assert_eq!(seat, Some(A));
}

#[test]
fn only_waiting_player_leaves() {
    let mut game = new_game(3);
    game.on_join();
    assert_eq!(game.on_leave(A), vec![]);
    assert_eq!(game.stage(), GameStage::WaitingForPlayers);
}

#[test]
fn events_are_handled_one_by_one() {
    let mut game = new_game(3);
    let reaction = game.handle(MsgFromPlayer::Join("first"));
    assert_eq!(reaction.newcomer, Some(("first", Some(A))));
    assert_eq!(reaction.deliveries.len(), 2);
    let reaction = game.handle(MsgFromPlayer::Join("second"));
    assert_eq!(reaction.newcomer, Some(("second", Some(B))));
    assert_eq!(reaction.deliveries.len(), 7);
    let reaction = game.handle(MsgFromPlayer::Join("third"));
    assert_eq!(reaction.newcomer, Some(("third", None)));
    assert_eq!(reaction.deliveries, vec![]);

    let reaction = game.handle::<&str>(MsgFromPlayer::Msg(A, pm_tcp_msg_to_x_y("2-2")));
    assert_eq!(reaction.newcomer, None);
    assert_eq!(reaction.deliveries.len(), 4);
    assert_eq!(game.playboard().fields[4].field, Some(A));
    let reaction = game.handle::<&str>(MsgFromPlayer::Msg(B, pm_tcp_msg_to_x_y("2.2")));
    assert_eq!(reaction.deliveries, vec![to(B, MsgToPlayer::InvalidInput)]);
    let reaction = game.handle::<&str>(MsgFromPlayer::Msg(B, pm_tcp_msg_to_x_y("2-2")));
    assert_eq!(reaction.deliveries, vec![to(B, MsgToPlayer::AlreadyTaken)]);
    let reaction = game.handle::<&str>(MsgFromPlayer::Msg(B, pm_tcp_msg_to_x_y("4-1")));
    assert_eq!(reaction.deliveries, vec![to(B, MsgToPlayer::InvalidInput)]);

    let reaction = game.handle::<&str>(MsgFromPlayer::Leave(B));
    assert_eq!(reaction.newcomer, None);
    assert_eq!(
        reaction.deliveries,
        vec![to(A, MsgToPlayer::OtherPlayerLeave), to(A, MsgToPlayer::WaitingForOtherPlayer)]
    );
    assert_eq!(game.stage(), GameStage::WaitingForPlayer(B));
    assert!(is_empty(&game));
}

#[test]
fn game_on_the_smallest_playboard_is_won_by_every_move() {
    let mut game = started(1);
    let deliveries = game.on_message(A, Ok((0, 0)));
    assert_eq!(deliveries.len(), 8);
    assert_eq!(deliveries[2], to(A, MsgToPlayer::YouWon));
    assert!(is_empty(&game));
    assert_eq!(game.stage(), GameStage::PlayerOnMove(B));
    let deliveries = game.on_message(B, Ok((0, 0)));
    assert_eq!(deliveries[2], to(B, MsgToPlayer::YouWon));
    assert_eq!(deliveries[3], to(A, MsgToPlayer::YouLose));
    assert_eq!(game.stage(), GameStage::PlayerOnMove(A));
}

#[test]
fn players_are_each_other_s_opponents() {
    assert_eq!(A.opponent(), B);
    assert_eq!(B.opponent(), A);
    assert_eq!(!A, B);
    assert_eq!(!B, A);
    assert_eq!(A.to_string(), "o");
    assert_eq!(B.to_string(), "x");
}
