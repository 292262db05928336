//! What passes between the game and its players.
pub mod tcp;

use vstd::prelude::*;
use crate::game::PlayerId;

verus! {

/// What the game tells a player. `T` is the form in which a playboard is
/// shown.
#[derive(Debug, PartialEq, Eq)]
pub enum MsgToPlayer<T> {
    /// Welcome to a new player
    WelcomePlayer,
    /// The game waits for the other player
    WaitingForOtherPlayer,
    /// Both players are there
    PlayersAreReady,
    /// The other player has left the game
    OtherPlayerLeave,
    /// The player is on move
    YourAreOnMove,
    /// The other player is on move
    OtherPlayerIsOnMove,
    /// The player's input was not understood, or names no field
    InvalidInput,
    /// The field that the player asked for is taken
    AlreadyTaken,
    /// The player spoke out of turn
    YouAreNotOnMove,
    /// The player has won
    YouWon,
    /// The player has lost
    YouLose,
    /// Nobody has won
    Draw,
    /// The playboard as it stands
    Playboard(T),
}

impl<T: View> View for MsgToPlayer<T> {
    type V = MsgToPlayer<T::V>;

    open spec fn view(&self) -> MsgToPlayer<T::V> {
        match self {
            MsgToPlayer::WelcomePlayer => MsgToPlayer::WelcomePlayer,
            MsgToPlayer::WaitingForOtherPlayer => MsgToPlayer::WaitingForOtherPlayer,
            MsgToPlayer::PlayersAreReady => MsgToPlayer::PlayersAreReady,
            MsgToPlayer::OtherPlayerLeave => MsgToPlayer::OtherPlayerLeave,
            MsgToPlayer::YourAreOnMove => MsgToPlayer::YourAreOnMove,
            MsgToPlayer::OtherPlayerIsOnMove => MsgToPlayer::OtherPlayerIsOnMove,
            MsgToPlayer::InvalidInput => MsgToPlayer::InvalidInput,
            MsgToPlayer::AlreadyTaken => MsgToPlayer::AlreadyTaken,
            MsgToPlayer::YouAreNotOnMove => MsgToPlayer::YouAreNotOnMove,
            MsgToPlayer::YouWon => MsgToPlayer::YouWon,
            MsgToPlayer::YouLose => MsgToPlayer::YouLose,
            MsgToPlayer::Draw => MsgToPlayer::Draw,
            MsgToPlayer::Playboard(shown) => MsgToPlayer::Playboard(shown@),
        }
    }
}

/// A message on its way to one player.
#[derive(Debug, PartialEq, Eq)]
pub struct Delivery<T> {
    /// The player who is to get the message.
    pub to: PlayerId,
    /// The message.
    pub msg: MsgToPlayer<T>,
}

impl<T: View> View for Delivery<T> {
    type V = Delivery<T::V>;

    open spec fn view(&self) -> Delivery<T::V> {
        Delivery { to: self.to, msg: self.msg@ }
    }
}

/// The messages of a list of deliveries, each with its playboard by its view.
pub open spec fn deliveries_view<T: View>(deliveries: Seq<Delivery<T>>) -> Seq<Delivery<T::V>> {
    deliveries.map_values(|delivery: Delivery<T>| delivery@)
}

/// A player, as the game sees one.
pub trait PlayerTrait {
    /// The form in which the player is shown a playboard.
    type FieldRepresentation;

    /// Who the player is.
    spec fn id(&self) -> PlayerId;

    /// The player's id
    fn get_player_id(&self) -> (res: PlayerId)
        ensures
            res == self.id(),
    ;
}

/// What reaches the game from the players' side. `T` is what a newcomer
/// brings along, `O` what a player sends.
pub enum MsgFromPlayer<T, O> {
    /// Somebody wants to join
    Join(T),
    /// A player has sent something
    Msg(PlayerId, O),
    /// A player has left
    Leave(PlayerId),
}

} // verus!
