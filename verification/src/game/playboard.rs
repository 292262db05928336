//! Playboards: what a move can lead to, and what every playboard offers.
pub mod bp_3_3;
pub mod pb_n_n;
pub mod rules;

use vstd::prelude::*;
use crate::game::PlayerId;
use crate::game::playboard::rules::all_empty;
use crate::game::playboard::rules::cells_after;
use crate::game::playboard::rules::move_outcome;

verus! {

/// Why a move was refused. A refused move leaves the playboard as it was.
#[derive(Debug, PartialEq, Eq, Structural, Clone, Copy)]
pub enum InvalidMove {
    /// The position lies outside the playboard.
    InvalidRange,
    /// The field at the position already holds a mark.
    AlreadyUsed,
}

/// What an accepted move led to.
#[derive(Debug, PartialEq, Eq, Structural, Clone, Copy)]
pub enum ValidMove {
    /// The round goes on.
    Continue,
    /// The round is over and nobody can win it any more.
    Draw,
    /// The move completed a line: the player who made it has won.
    Win,
}

/// A square playboard on which two players put their marks in turn.
pub trait Playboard {
    /// How a caller names a field of the playboard.
    type Position;

    /// The playboard is in order: it has as many fields as its edge size asks
    /// for.
    spec fn wf(&self) -> bool;

    /// The number of fields along one edge.
    spec fn edge(&self) -> int;

    /// The marks on the fields, row after row.
    spec fn cells(&self) -> Seq<Option<PlayerId>>;

    /// The row that a position names, counted from zero.
    spec fn row(position: Self::Position) -> int;

    /// The column that a position names, counted from zero.
    spec fn col(position: Self::Position) -> int;

    /// A playboard in order has at least one field, and `edge` times `edge`
    /// of them.
    proof fn lemma_wf(&self)
        requires
            self.wf(),
        ensures
            self.edge() >= 1,
            self.cells().len() == self.edge() * self.edge(),
    ;

    /// Puts the player's mark on the field at `position` if the rules allow
    /// it, and says what the move led to.
    fn new_move(&mut self, position: Self::Position, player_id: PlayerId) -> (res: Result<
        ValidMove,
        InvalidMove,
    >)
        requires
            old(self).wf(),
        ensures
            final(self).wf(),
            final(self).edge() == old(self).edge(),
            res == move_outcome(
                old(self).cells(),
                old(self).edge(),
                Self::row(position),
                Self::col(position),
                player_id,
            ),
            final(self).cells() == cells_after(
                old(self).cells(),
                old(self).edge(),
                Self::row(position),
                Self::col(position),
                player_id,
            ),
    ;

    /// Clears every field, for the next round.
    fn reset(&mut self)
        requires
            old(self).wf(),
        ensures
            final(self).wf(),
            final(self).edge() == old(self).edge(),
            final(self).cells().len() == old(self).cells().len(),
            all_empty(final(self).cells()),
    ;
}

} // verus!
