//! Players on a text connection: what is written to a player, line by line,
//! and how the game finds its place on the network.
use vstd::prelude::*;
use crate::game::PlayerId;
use crate::game::converters::chars_of;
use crate::game::converters::number_in;
use crate::game::converters::parse_number;
use crate::game::player_manager::MsgToPlayer;
use crate::game::player_manager::PlayerTrait;

verus! {

/// The words of a message.
pub open spec fn msg_text(msg: MsgToPlayer<Seq<char>>) -> Seq<char> {
    match msg {
        MsgToPlayer::WelcomePlayer => "Welcome player\r\n"@,
        MsgToPlayer::WaitingForOtherPlayer => "We are waiting for another player\r\n"@,
        MsgToPlayer::PlayersAreReady => "Both players are ready\r\n\r\n"@,
        MsgToPlayer::OtherPlayerLeave => "Other player leave game. Congratulation you win!\r\n"@,
        MsgToPlayer::YourAreOnMove => "Now you are on move: "@,
        MsgToPlayer::OtherPlayerIsOnMove => "Now is other player on move\r\n"@,
        MsgToPlayer::InvalidInput => "You pass invalid input. Please repeat your input: "@,
        MsgToPlayer::AlreadyTaken => "Required field is already taken. Please repeat your input: "@,
        MsgToPlayer::YouAreNotOnMove => "You are not on move. Please wait till other player move\r\n"@,
        MsgToPlayer::YouWon => "Congratulation, you win.\r\n"@,
        MsgToPlayer::YouLose => "Unfortunately you lose.\r\n"@,
        MsgToPlayer::Draw => "Nobody win\r\n"@,
        MsgToPlayer::Playboard(shown) => "------------------\r\nCurrent game field\r\n\r\n"@
            + shown + "\r\n"@,
    }
}

/// The words of a message with the player's mark in brackets before them. A
/// playboard goes without the mark.
pub open spec fn addressed_text(id: PlayerId, msg: MsgToPlayer<Seq<char>>) -> Seq<char> {
    if msg is Playboard {
        msg_text(msg)
    } else {
        "["@ + id.mark() + "] "@ + msg_text(msg)
    }
}

/// What is written to the player `id` for a message. The news that the other
/// player has left starts on a line of its own: where the player has been
/// asked for a move and the line is still open, a line break comes first.
pub open spec fn written_text(
    id: PlayerId,
    last_msg_ends_with_new_line: bool,
    msg: MsgToPlayer<Seq<char>>,
) -> Seq<char> {
    if msg is OtherPlayerLeave && !last_msg_ends_with_new_line {
        "\r\n"@ + addressed_text(id, msg)
    } else {
        addressed_text(id, msg)
    }
}

/// Whether the player's line is taken to be closed after a message: it is
/// open after the player was asked for a move, and closed after any other
/// message but the news that the other player has left, which leaves it as
/// it was.
pub open spec fn line_closed_after(
    last_msg_ends_with_new_line: bool,
    msg: MsgToPlayer<Seq<char>>,
) -> bool {
    match msg {
        MsgToPlayer::YourAreOnMove => false,
        MsgToPlayer::OtherPlayerLeave => last_msg_ends_with_new_line,
        _ => true,
    }
}

/// A player on a text connection, as far as the wording goes: who the player
/// is, and whether the last message has closed its line.
pub struct Player {
    id: PlayerId,
    last_msg_ends_with_new_line: bool,
}

impl Player {
    /// Whether the last message has closed its line.
    pub closed spec fn line_closed(&self) -> bool {
        self.last_msg_ends_with_new_line
    }

    /// A player to whom nothing has been written yet.
    pub fn new(player_id: PlayerId) -> (res: Player)
        ensures
            res.id() == player_id,
            res.line_closed(),
    {
        Player { id: player_id, last_msg_ends_with_new_line: true }
    }

    /// The text that is written to the player for a message.
    pub fn compose(&mut self, msg: &MsgToPlayer<String>) -> (text: String)
        ensures
            text@ == written_text(old(self).id(), old(self).line_closed(), msg@),
            final(self).line_closed() == line_closed_after(old(self).line_closed(), msg@),
            final(self).id() == old(self).id(),
    {
        let mut text = String::new();
        let ghost start = text@;
        if let MsgToPlayer::OtherPlayerLeave = msg {
            if !self.last_msg_ends_with_new_line {
                text.append("\r\n");
            }
        }
        let ghost lead = text@;
        // Add the player's mark
        match msg {
            MsgToPlayer::Playboard(_) => (),
            _ => {
                text.append("[");
                text.append(self.id.to_string().as_str());
                text.append("] ");
            },
        }
        let ghost head = text@;
        match msg {
            MsgToPlayer::WelcomePlayer => text.append("Welcome player\r\n"),
            MsgToPlayer::WaitingForOtherPlayer => text.append(
                "We are waiting for another player\r\n",
            ),
            MsgToPlayer::PlayersAreReady => text.append("Both players are ready\r\n\r\n"),
            MsgToPlayer::OtherPlayerLeave => text.append(
                "Other player leave game. Congratulation you win!\r\n",
            ),
            MsgToPlayer::YourAreOnMove => text.append("Now you are on move: "),
            MsgToPlayer::OtherPlayerIsOnMove => text.append("Now is other player on move\r\n"),
            MsgToPlayer::InvalidInput => text.append(
                "You pass invalid input. Please repeat your input: ",
            ),
            MsgToPlayer::AlreadyTaken => text.append(
                "Required field is already taken. Please repeat your input: ",
            ),
            MsgToPlayer::YouAreNotOnMove => text.append(
                "You are not on move. Please wait till other player move\r\n",
            ),
            MsgToPlayer::YouWon => text.append("Congratulation, you win.\r\n"),
            MsgToPlayer::YouLose => text.append("Unfortunately you lose.\r\n"),
            MsgToPlayer::Draw => text.append("Nobody win\r\n"),
            MsgToPlayer::Playboard(shown) => {
                text.append("------------------\r\nCurrent game field\r\n\r\n");
                text.append(shown.as_str());
                text.append("\r\n");
            },
        }
        assert(text@ =~= head + msg_text(msg@));
        assert(head =~= lead + (if msg@ is Playboard {
            Seq::<char>::empty()
        } else {
            "["@ + self.id.mark() + "] "@
        }));
        assert(text@ =~= written_text(self.id, self.last_msg_ends_with_new_line, msg@));
        match msg {
            MsgToPlayer::YourAreOnMove => {
                self.last_msg_ends_with_new_line = false;
            },
            MsgToPlayer::OtherPlayerLeave => {},
            _ => {
                self.last_msg_ends_with_new_line = true;
            },
        }
        text
    }
}

impl PlayerTrait for Player {
    type FieldRepresentation = String;

    closed spec fn id(&self) -> PlayerId {
        self.id
    }

    fn get_player_id(&self) -> (res: PlayerId) {
        self.id
    }
}

/// A line without the line break at its end, if it has one.
pub open spec fn without_line_end(line: Seq<char>) -> Seq<char> {
    if line.len() >= 2 && line[line.len() - 2] == '\r' && line.last() == '\n' {
        line.take(line.len() - 2)
    } else if line.len() >= 1 && line.last() == '\n' {
        line.drop_last()
    } else {
        line
    }
}

/// The number of the network interface that the user has picked: the line
/// that was typed, without its line break, read as a number.
pub open spec fn picked_interface(line: Seq<char>) -> Option<usize> {
    match number_in(without_line_end(line)) {
        Some(number) => if number <= usize::MAX {
            Some(number as usize)
        } else {
            None
        },
        None => None,
    }
}

/// Reads the number of the network interface that the user has picked from
/// the line that was typed.
pub fn read_interface_index(line: &str) -> (res: Option<usize>)
    ensures
        res == picked_interface(line@),
{
    let chars = chars_of(line);
    let len = chars.len();
    let end = if len >= 2 && chars[len - 2] == '\r' && chars[len - 1] == '\n' {
        len - 2
    } else if len >= 1 && chars[len - 1] == '\n' {
        len - 1
    } else {
        len
    };
    assert(chars@.subrange(0, end as int) =~= without_line_end(line@));
    match parse_number(&chars, 0, end) {
        Ok(index) => Some(index),
        Err(_) => None,
    }
}

/// The first port that the game tries to listen on.
pub const FIRST_PORT: u16 = 49152;

/// The port at which the game stops trying.
pub const PORT_LIMIT: u16 = 65535;

/// How an attempt to listen on a port has ended.
#[derive(Debug, PartialEq, Eq, Structural, Clone, Copy)]
pub enum BindOutcome {
    /// The game listens on the port.
    Bound,
    /// The port is in use.
    AddrInUse,
    /// The attempt failed for another reason.
    Failed,
}

/// What to do after an attempt to listen on a port.
#[derive(Debug, PartialEq, Eq, Structural, Clone, Copy)]
pub enum PortSearch {
    /// Listen on this port: the search is over.
    Listen(u16),
    /// Try this port next.
    Try(u16),
    /// Give up: every port is in use.
    AllInUse,
    /// Give up: the last attempt failed.
    GiveUp,
}

/// What to do after an attempt to listen on `port`: a port in use sends the
/// search on to the next port, as long as there is one below the limit.
pub open spec fn search_step(port: u16, outcome: BindOutcome) -> PortSearch {
    match outcome {
        BindOutcome::Bound => PortSearch::Listen(port),
        BindOutcome::AddrInUse => if port + 1 < PORT_LIMIT {
            PortSearch::Try((port + 1) as u16)
        } else {
            PortSearch::AllInUse
        },
        BindOutcome::Failed => PortSearch::GiveUp,
    }
}

/// Decides what to do after an attempt to listen on `port`.
pub fn next_port_step(port: u16, outcome: BindOutcome) -> (res: PortSearch)
    ensures
        res == search_step(port, outcome),
{
    match outcome {
        BindOutcome::Bound => PortSearch::Listen(port),
        BindOutcome::AddrInUse => if port < PORT_LIMIT - 1 {
            PortSearch::Try(port + 1)
        } else {
            PortSearch::AllInUse
        },
        BindOutcome::Failed => PortSearch::GiveUp,
    }
}

} // verus!
