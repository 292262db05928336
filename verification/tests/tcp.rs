use noughts_and_crosses::game::player_manager::tcp::next_port_step;
use noughts_and_crosses::game::player_manager::tcp::read_interface_index;
use noughts_and_crosses::game::player_manager::tcp::BindOutcome;
use noughts_and_crosses::game::player_manager::tcp::Player;
use noughts_and_crosses::game::player_manager::tcp::PortSearch;
use noughts_and_crosses::game::player_manager::tcp::FIRST_PORT;
use noughts_and_crosses::game::player_manager::tcp::PORT_LIMIT;
use noughts_and_crosses::game::player_manager::MsgToPlayer;
use noughts_and_crosses::game::player_manager::PlayerTrait;
use noughts_and_crosses::game::PlayerId;

#[test]
fn player_keeps_its_id() {
    assert_eq!(Player::new(PlayerId::Circle).get_player_id(), PlayerId::Circle);
    assert_eq!(Player::new(PlayerId::Cross).get_player_id(), PlayerId::Cross);
}

#[test]
fn every_message_has_its_words() {
    let expected: [(MsgToPlayer<String>, &str); 12] = [
        (MsgToPlayer::WelcomePlayer, "[x] Welcome player\r\n"),
        (MsgToPlayer::WaitingForOtherPlayer, "[x] We are waiting for another player\r\n"),
        (MsgToPlayer::PlayersAreReady, "[x] Both players are ready\r\n\r\n"),
        (
            MsgToPlayer::OtherPlayerLeave,
            "[x] Other player leave game. Congratulation you win!\r\n",
        ),
        (MsgToPlayer::YourAreOnMove, "[x] Now you are on move: "),
        (MsgToPlayer::OtherPlayerIsOnMove, "[x] Now is other player on move\r\n"),
        (
            MsgToPlayer::InvalidInput,
            "[x] You pass invalid input. Please repeat your input: ",
        ),
        (
            MsgToPlayer::AlreadyTaken,
            "[x] Required field is already taken. Please repeat your input: ",
        ),
        (
            MsgToPlayer::YouAreNotOnMove,
            "[x] You are not on move. Please wait till other player move\r\n",
        ),
        (MsgToPlayer::YouWon, "[x] Congratulation, you win.\r\n"),
        (MsgToPlayer::YouLose, "[x] Unfortunately you lose.\r\n"),
        (MsgToPlayer::Draw, "[x] Nobody win\r\n"),
    ];
    for (msg, text) in expected {
        let mut player = Player::new(PlayerId::Cross);
        assert_eq!(player.compose(&msg), text);
    }
    let mut player = Player::new(PlayerId::Circle);
    assert_eq!(player.compose(&MsgToPlayer::WelcomePlayer), "[o] Welcome player\r\n");
}

#[test]
fn playboard_is_written_without_the_mark() {
    let mut player = Player::new(PlayerId::Circle);
    assert_eq!(
        player.compose(&MsgToPlayer::Playboard("1|x|1".to_string())),
        "------------------\r\nCurrent game field\r\n\r\n1|x|1\r\n"
    );
}

#[test]
fn news_of_a_leave_starts_on_a_line_of_its_own() {
    let mut player = Player::new(PlayerId::Circle);
    let leave = "[o] Other player leave game. Congratulation you win!\r\n";
    // Nothing was written yet
    assert_eq!(player.compose(&MsgToPlayer::OtherPlayerLeave), leave);
    // The player was asked for a move: the line is open
    player.compose(&MsgToPlayer::YourAreOnMove);
    assert_eq!(player.compose(&MsgToPlayer::OtherPlayerLeave), format!("\r\n{}", leave));
    // The news leaves the line as it found it
    assert_eq!(player.compose(&MsgToPlayer::OtherPlayerLeave), format!("\r\n{}", leave));
    // Any other message closes the line
    player.compose(&MsgToPlayer::WaitingForOtherPlayer);
    assert_eq!(player.compose(&MsgToPlayer::OtherPlayerLeave), leave);
    player.compose(&MsgToPlayer::YourAreOnMove);
    player.compose(&MsgToPlayer::Playboard(String::new()));
    assert_eq!(player.compose(&MsgToPlayer::OtherPlayerLeave), leave);
    player.compose(&MsgToPlayer::YourAreOnMove);
    player.compose(&MsgToPlayer::InvalidInput);
    assert_eq!(player.compose(&MsgToPlayer::OtherPlayerLeave), leave);
}

#[test]
fn interface_index_is_read_from_the_line() {
    assert_eq!(read_interface_index("0\n"), Some(0));
    assert_eq!(read_interface_index("12\r\n"), Some(12));
    assert_eq!(read_interface_index("3"), Some(3));
    assert_eq!(read_interface_index("+3\n"), Some(3));
    assert_eq!(read_interface_index(&format!("{}\n", usize::MAX)), Some(usize::MAX));
}

#[test]
fn line_that_is_no_number_gives_no_index() {
    for line in ["", "\n", "\r\n", " 1\n", "1 \n", "1\n\n", "1\r", "-1\n", "one\n", "1\r\r\n", "+\n"] {
        assert_eq!(read_interface_index(line), None, "{:?}", line);
    }
    assert_eq!(read_interface_index(&format!("{}0\n", usize::MAX)), None);
}

#[test]
fn interface_index_is_read_as_the_standard_library_reads_it() {
    for line in ["7\n", "7\r\n", "7", "07\n", " 7\n", "7\n\r\n", "\r\n", "x\n", "+7\r\n", "7\r"] {
        let stripped = line.strip_suffix("\r\n").unwrap_or(line.strip_suffix("\n").unwrap_or(line));
        assert_eq!(read_interface_index(line), stripped.parse::<usize>().ok(), "{:?}", line);
    }
}

#[test]
fn port_search_goes_on_while_ports_are_in_use() {
    assert_eq!(FIRST_PORT, 49152);
    assert_eq!(PORT_LIMIT, 65535);
    assert_eq!(next_port_step(49152, BindOutcome::Bound), PortSearch::Listen(49152));
    assert_eq!(next_port_step(49152, BindOutcome::AddrInUse), PortSearch::Try(49153));
    assert_eq!(next_port_step(65533, BindOutcome::AddrInUse), PortSearch::Try(65534));
    assert_eq!(next_port_step(65534, BindOutcome::AddrInUse), PortSearch::AllInUse);
    assert_eq!(next_port_step(65535, BindOutcome::AddrInUse), PortSearch::AllInUse);
    assert_eq!(next_port_step(50000, BindOutcome::Failed), PortSearch::GiveUp);
}

#[test]
fn port_search_tries_every_port_below_the_limit() {
    let mut port = FIRST_PORT;
    let mut tried = 1;
    loop {
        match next_port_step(port, BindOutcome::AddrInUse) {
            PortSearch::Try(next) => {
                assert_eq!(next, port + 1);
                port = next;
                tried += 1;
            }
            other => {
                assert_eq!(other, PortSearch::AllInUse);
                break;
            }
        }
    }
    assert_eq!(tried, (49152..65535).count());
}
