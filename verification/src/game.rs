//! The game: who plays, and in which stage a session is.
pub mod converters;
pub mod field;
pub mod playboard;
pub mod player_manager;

use vstd::prelude::*;
use crate::game::converters::pictured;
use crate::game::converters::picture_of;
use crate::game::converters::BoardRenderer;
use crate::game::converters::ConversionResult;
use crate::game::playboard::InvalidMove;
use crate::game::playboard::Playboard;
use crate::game::playboard::ValidMove;
use crate::game::playboard::rules::all_empty;
use crate::game::playboard::rules::cells_after;
use crate::game::playboard::rules::empty_cells;
use crate::game::playboard::rules::lemma_cells_after_len;
use crate::game::playboard::rules::move_outcome;
use crate::game::player_manager::deliveries_view;
use crate::game::player_manager::Delivery;
use crate::game::player_manager::MsgFromPlayer;
use crate::game::player_manager::MsgToPlayer;

verus! {

/// One of the two players, named by the mark that the player puts on the board.
#[derive(Debug, PartialEq, Eq, Structural, Clone, Copy, Hash)]
pub enum PlayerId {
    /// The player who plays noughts.
    Circle,
    /// The player who plays crosses.
    Cross,
}

impl PlayerId {
    /// The opponent of a player.
    pub open spec fn other(self) -> PlayerId {
        match self {
            PlayerId::Circle => PlayerId::Cross,
            PlayerId::Cross => PlayerId::Circle,
        }
    }

    /// The opponent of this player.
    pub fn opponent(self) -> (res: PlayerId)
        ensures
            res == self.other(),
            res != self,
    {
        match self {
            PlayerId::Circle => PlayerId::Cross,
            PlayerId::Cross => PlayerId::Circle,
        }
    }

    /// The mark of the player as text: `o` for noughts, `x` for crosses.
    pub open spec fn mark(self) -> Seq<char> {
        match self {
            PlayerId::Circle => seq!['o'],
            PlayerId::Cross => seq!['x'],
        }
    }

    /// The mark of the player as text: `o` for noughts, `x` for crosses.
    pub fn to_string(&self) -> (res: String)
        ensures
            res@ == self.mark(),
    {
        proof {
            reveal_strlit("o");
            reveal_strlit("x");
        }
        let name = match self {
            Self::Circle => "o",
            Self::Cross => "x",
        };
        assert(name@ =~= self.mark());
        name.to_owned()
    }
}

impl std::ops::Not for PlayerId {
    type Output = PlayerId;

    /// The opponent of the player.
    fn not(self) -> (res: PlayerId) {
        match self {
            Self::Circle => Self::Cross,
            Self::Cross => Self::Circle,
        }
    }
}

impl vstd::std_specs::ops::NotSpecImpl for PlayerId {
    open spec fn obeys_not_spec() -> bool {
        true
    }

    open spec fn not_req(self) -> bool {
        true
    }

    open spec fn not_spec(self) -> PlayerId {
        self.other()
    }
}

/// The stage that a game is in.
#[derive(Debug, PartialEq, Eq, Structural, Clone, Copy)]
pub enum GameStage {
    /// Nobody is there
    WaitingForPlayers,
    /// One player is there, and the seat of the given player is free
    WaitingForPlayer(PlayerId),
    /// Both players are there, and the given player is on move
    PlayerOnMove(PlayerId),
}

/// A message for one player in which a playboard stands as its marks.
pub type Notice = Delivery<Seq<Option<PlayerId>>>;

/// A game as the rules see it: its stage, the playboard, and who is seated.
pub struct Table {
    /// The stage of the game.
    pub stage: GameStage,
    /// The marks on the playboard, row after row.
    pub cells: Seq<Option<PlayerId>>,
    /// The edge size of the playboard.
    pub edge: int,
    /// Whether the seat of `Circle` is taken.
    pub circle: bool,
    /// Whether the seat of `Cross` is taken.
    pub cross: bool,
}

/// The player who moves next, after `mover` made a move with the given
/// outcome: the same player after a draw, the opponent otherwise.
pub open spec fn next_mover(mover: PlayerId, outcome: ValidMove) -> PlayerId {
    if outcome == ValidMove::Draw {
        mover
    } else {
        mover.other()
    }
}

/// The playboard for both players, first for `first`.
pub open spec fn playboard_notices(first: PlayerId, cells: Seq<Option<PlayerId>>) -> Seq<Notice> {
    seq![
        Delivery { to: first, msg: MsgToPlayer::Playboard(cells) },
        Delivery { to: first.other(), msg: MsgToPlayer::Playboard(cells) },
    ]
}

/// Both players are told that `mover` is on move.
pub open spec fn turn_notices(mover: PlayerId) -> Seq<Notice> {
    seq![
        Delivery { to: mover, msg: MsgToPlayer::YourAreOnMove },
        Delivery { to: mover.other(), msg: MsgToPlayer::OtherPlayerIsOnMove },
    ]
}

/// What both players are told when a round has ended with the move of
/// `mover`: the playboard as the move left it, and how the round ended.
pub open spec fn round_end_notices(
    mover: PlayerId,
    outcome: ValidMove,
    cells: Seq<Option<PlayerId>>,
) -> Seq<Notice> {
    match outcome {
        ValidMove::Continue => seq![],
        ValidMove::Draw => seq![
            Delivery { to: PlayerId::Circle, msg: MsgToPlayer::Playboard(cells) },
            Delivery { to: PlayerId::Circle, msg: MsgToPlayer::Draw },
            Delivery { to: PlayerId::Cross, msg: MsgToPlayer::Playboard(cells) },
            Delivery { to: PlayerId::Cross, msg: MsgToPlayer::Draw },
        ],
        ValidMove::Win => seq![
            Delivery { to: PlayerId::Circle, msg: MsgToPlayer::Playboard(cells) },
            Delivery { to: PlayerId::Cross, msg: MsgToPlayer::Playboard(cells) },
            Delivery { to: mover, msg: MsgToPlayer::YouWon },
            Delivery { to: mover.other(), msg: MsgToPlayer::YouLose },
        ],
    }
}

impl Table {
    /// Whether the seat of `id` is taken.
    pub open spec fn seated(self, id: PlayerId) -> bool {
        match id {
            PlayerId::Circle => self.circle,
            PlayerId::Cross => self.cross,
        }
    }

    /// The table with the seat of `id` taken or free.
    pub open spec fn with_seat(self, id: PlayerId, taken: bool) -> Table {
        match id {
            PlayerId::Circle => Table { circle: taken, ..self },
            PlayerId::Cross => Table { cross: taken, ..self },
        }
    }

    /// The stage tells who is seated, and a round is under way only while
    /// somebody is on move.
    pub open spec fn wf(self) -> bool {
        &&& self.edge >= 1
        &&& self.cells.len() == self.edge * self.edge
        &&& match self.stage {
            GameStage::WaitingForPlayers => !self.circle && !self.cross && all_empty(self.cells),
            GameStage::WaitingForPlayer(id) => !self.seated(id) && self.seated(id.other())
                && all_empty(self.cells),
            GameStage::PlayerOnMove(_) => self.circle && self.cross,
        }
    }

    /// The playboard with every field cleared.
    pub open spec fn cleared(self) -> Seq<Option<PlayerId>> {
        empty_cells(self.cells.len())
    }

    /// The seat that a newcomer gets: that of `Circle` where nobody is there,
    /// the free one where one player waits, none where both are taken.
    pub open spec fn free_seat(self) -> Option<PlayerId> {
        match self.stage {
            GameStage::WaitingForPlayers => Some(PlayerId::Circle),
            GameStage::WaitingForPlayer(id) => Some(id),
            GameStage::PlayerOnMove(_) => None,
        }
    }

    /// The table after somebody has asked to join. The second player to come
    /// starts a round, in which the player who waited moves first.
    pub open spec fn after_join(self) -> Table {
        match self.stage {
            GameStage::WaitingForPlayers => Table {
                stage: GameStage::WaitingForPlayer(PlayerId::Cross),
                circle: true,
                ..self
            },
            GameStage::WaitingForPlayer(id) => Table {
                stage: GameStage::PlayerOnMove(id.other()),
                ..self.with_seat(id, true)
            },
            GameStage::PlayerOnMove(_) => self,
        }
    }

    /// What the players are told when somebody has asked to join.
    pub open spec fn join_notices(self) -> Seq<Notice> {
        match self.stage {
            GameStage::WaitingForPlayers => seq![
                Delivery { to: PlayerId::Circle, msg: MsgToPlayer::WelcomePlayer },
                Delivery { to: PlayerId::Circle, msg: MsgToPlayer::WaitingForOtherPlayer },
            ],
            GameStage::WaitingForPlayer(id) => seq![
                Delivery { to: id, msg: MsgToPlayer::WelcomePlayer },
                Delivery { to: PlayerId::Circle, msg: MsgToPlayer::PlayersAreReady },
                Delivery { to: PlayerId::Circle, msg: MsgToPlayer::Playboard(self.cells) },
                Delivery { to: PlayerId::Cross, msg: MsgToPlayer::PlayersAreReady },
                Delivery { to: PlayerId::Cross, msg: MsgToPlayer::Playboard(self.cells) },
            ] + turn_notices(id.other()),
            GameStage::PlayerOnMove(_) => seq![],
        }
    }

    /// Whether a message of `id` is taken as a move: somebody is on move, and
    /// it is `id`.
    pub open spec fn on_move(self, id: PlayerId) -> bool {
        self.stage == GameStage::PlayerOnMove(id)
    }

    /// What the playboard answers to the move that `id` asks for, where the
    /// message of `id` was understood as the position `(row, col)`.
    pub open spec fn answer(self, id: PlayerId, position: (int, int)) -> Result<
        ValidMove,
        InvalidMove,
    > {
        move_outcome(self.cells, self.edge, position.0, position.1, id)
    }

    /// The marks after `id` has asked for the field at `position`.
    pub open spec fn marked(self, id: PlayerId, position: (int, int)) -> Seq<Option<PlayerId>> {
        cells_after(self.cells, self.edge, position.0, position.1, id)
    }

    /// The table after `id` has sent a message which was understood as
    /// `position`, or not understood. Only a move of the player on move that
    /// the playboard accepts changes anything: the mark is set, and the turn
    /// passes on; where the round is over, the playboard is cleared.
    pub open spec fn after_message(self, id: PlayerId, position: Option<(int, int)>) -> Table {
        if self.on_move(id) && position is Some {
            match self.answer(id, position->0) {
                Ok(outcome) => Table {
                    stage: GameStage::PlayerOnMove(next_mover(id, outcome)),
                    cells: if outcome == ValidMove::Continue {
                        self.marked(id, position->0)
                    } else {
                        self.cleared()
                    },
                    ..self
                },
                Err(_) => self,
            }
        } else {
            self
        }
    }

    /// What the players are told when `id` has sent a message.
    pub open spec fn message_notices(self, id: PlayerId, position: Option<(int, int)>) -> Seq<
        Notice,
    > {
        if !(self.stage is PlayerOnMove) {
            seq![]
        } else if !self.on_move(id) {
            seq![Delivery { to: id, msg: MsgToPlayer::YouAreNotOnMove }]
        } else if position is None {
            seq![Delivery { to: id, msg: MsgToPlayer::InvalidInput }]
        } else {
            match self.answer(id, position->0) {
                Err(InvalidMove::InvalidRange) => seq![
                    Delivery { to: id, msg: MsgToPlayer::InvalidInput },
                ],
                Err(InvalidMove::AlreadyUsed) => seq![
                    Delivery { to: id, msg: MsgToPlayer::AlreadyTaken },
                ],
                Ok(outcome) => round_end_notices(
                    id,
                    outcome,
                    self.marked(id, position->0),
                ) + playboard_notices(
                    next_mover(id, outcome),
                    self.after_message(id, position).cells,
                ) + turn_notices(next_mover(id, outcome)),
            }
        }
    }

    /// The table after `id` has left: the seat is free, a round that was
    /// under way is given up, and the game waits for that seat to be taken
    /// again, or for both where nobody is left.
    pub open spec fn after_leave(self, id: PlayerId) -> Table {
        Table {
            stage: if self.seated(id.other()) {
                GameStage::WaitingForPlayer(id)
            } else {
                GameStage::WaitingForPlayers
            },
            cells: if self.stage is PlayerOnMove {
                self.cleared()
            } else {
                self.cells
            },
            ..self.with_seat(id, false)
        }
    }

    /// What the player who stays is told when `id` has left.
    pub open spec fn leave_notices(self, id: PlayerId) -> Seq<Notice> {
        if self.seated(id.other()) {
            seq![
                Delivery { to: id.other(), msg: MsgToPlayer::OtherPlayerLeave },
                Delivery { to: id.other(), msg: MsgToPlayer::WaitingForOtherPlayer },
            ]
        } else {
            seq![]
        }
    }
}

/// The game stays in order whatever happens: each of the three events leads
/// from a table in order to a table in order, on a playboard of the same size.
pub proof fn lemma_table_stays_in_order(
    table: Table,
    id: PlayerId,
    position: Option<(int, int)>,
)
    requires
        table.wf(),
    ensures
        table.after_join().wf(),
        table.after_message(id, position).wf(),
        table.after_leave(id).wf(),
        table.after_join().edge == table.edge,
        table.after_message(id, position).edge == table.edge,
        table.after_leave(id).edge == table.edge,
{
    if position is Some {
        let (row, col) = position.unwrap();
        lemma_cells_after_len(table.cells, table.edge, row, col, id);
    }
}

/// Only the player on move can change the playboard: a message of anybody
/// else, at any stage, leaves the table as it was, and while a round is under
/// way it is answered with `YouAreNotOnMove` and nothing else.
pub proof fn lemma_out_of_turn(table: Table, id: PlayerId, position: Option<(int, int)>)
    requires
        !table.on_move(id),
    ensures
        table.after_message(id, position) == table,
        table.stage is PlayerOnMove ==> table.message_notices(id, position) == seq![
            Delivery { to: id, msg: MsgToPlayer::<Seq<Option<PlayerId>>>::YouAreNotOnMove },
        ],
{
}

/// The players take turns: after a move that lets the round go on, the
/// opponent is on move, and whatever the player who has just moved sends
/// next is answered with `YouAreNotOnMove` and changes nothing.
pub proof fn lemma_turns_alternate(
    table: Table,
    mover: PlayerId,
    position: (int, int),
    again: Option<(int, int)>,
)
    requires
        table.on_move(mover),
        table.answer(mover, position) == Ok::<ValidMove, InvalidMove>(ValidMove::Continue),
    ensures
        table.after_message(mover, Some(position)).stage == GameStage::PlayerOnMove(mover.other()),
        table.after_message(mover, Some(position)).after_message(mover, again)
            == table.after_message(mover, Some(position)),
        table.after_message(mover, Some(position)).message_notices(mover, again) == seq![
            Delivery { to: mover, msg: MsgToPlayer::<Seq<Option<PlayerId>>>::YouAreNotOnMove },
        ],
{
    lemma_out_of_turn(table.after_message(mover, Some(position)), mover, again);
}

/// A round that has ended leaves an empty playboard: after a move that wins
/// or draws, every field is empty, and somebody is on move for the next
/// round.
pub proof fn lemma_round_end_clears(table: Table, mover: PlayerId, position: (int, int))
    requires
        table.on_move(mover),
        table.answer(mover, position) == Ok::<ValidMove, InvalidMove>(ValidMove::Win)
            || table.answer(mover, position) == Ok::<ValidMove, InvalidMove>(ValidMove::Draw),
    ensures
        all_empty(table.after_message(mover, Some(position)).cells),
        table.after_message(mover, Some(position)).cells.len() == table.cells.len(),
        table.after_message(mover, Some(position)).stage is PlayerOnMove,
{
}

/// A round does not outlive a player: when either player leaves while
/// somebody is on move, every field is cleared, and the game waits for the
/// seat of the player who left.
pub proof fn lemma_leave_gives_round_up(table: Table, id: PlayerId)
    requires
        table.wf(),
        table.stage is PlayerOnMove,
    ensures
        table.after_leave(id).stage == GameStage::WaitingForPlayer(id),
        all_empty(table.after_leave(id).cells),
        table.after_leave(id).cells.len() == table.cells.len(),
        !table.after_leave(id).seated(id),
        table.after_leave(id).seated(id.other()),
{
}

/// A refused move is told to the player who made it and to nobody else, in
/// one message, and changes nothing.
pub proof fn lemma_refusal_is_told_once(table: Table, mover: PlayerId, position: Option<(int, int)>)
    requires
        table.on_move(mover),
        position is None || table.answer(mover, position->0) is Err,
    ensures
        table.after_message(mover, position) == table,
        table.message_notices(mover, position).len() == 1,
        table.message_notices(mover, position)[0].to == mover,
        table.message_notices(mover, position)[0].msg == (if position is Some && table.answer(
            mover,
            position->0,
        ) == Err::<ValidMove, InvalidMove>(InvalidMove::AlreadyUsed) {
            MsgToPlayer::<Seq<Option<PlayerId>>>::AlreadyTaken
        } else {
            MsgToPlayer::<Seq<Option<PlayerId>>>::InvalidInput
        }),
{
}

/// A game between two players: the stage it is in, its playboard, and who is
/// seated. It takes what happens on the players' side, one event at a time,
/// and answers with the messages that are to be sent.
pub struct Game<B: Playboard, R: BoardRenderer<B>> {
    stage: GameStage,
    playboard: B,
    renderer: R,
    circle: bool,
    cross: bool,
}

/// What the game answers to an event.
pub struct Reaction<T, F> {
    /// Where somebody asked to join: what the newcomer brought along, and the
    /// seat that the newcomer gets, if one was free.
    pub newcomer: Option<(T, Option<PlayerId>)>,
    /// The messages that are to be sent, in this order.
    pub deliveries: Vec<Delivery<F>>,
}

/// What a message of a player was understood as: a position on the
/// playboard, by row and column, or nothing.
pub open spec fn aim<B: Playboard>(position: ConversionResult<B::Position>) -> Option<(int, int)> {
    match position {
        Ok(at) => Some((B::row(at), B::col(at))),
        Err(_) => None,
    }
}

impl<B: Playboard, R: BoardRenderer<B>> Game<B, R> {
    /// The game as the rules see it.
    pub closed spec fn table(&self) -> Table {
        Table {
            stage: self.stage,
            cells: self.playboard.cells(),
            edge: self.playboard.edge(),
            circle: self.circle,
            cross: self.cross,
        }
    }

    /// The game is in order: its playboard is, and its stage tells who is
    /// seated.
    pub closed spec fn wf(&self) -> bool {
        self.playboard.wf() && self.table().wf()
    }

    /// The playboard of the game.
    pub closed spec fn board(&self) -> B {
        self.playboard
    }

    /// A game on the given playboard, which is cleared, with nobody there.
    pub fn new(playboard: B, renderer: R) -> (game: Self)
        requires
            playboard.wf(),
        ensures
            game.wf(),
            game.table() == (Table {
                stage: GameStage::WaitingForPlayers,
                cells: empty_cells(playboard.cells().len()),
                edge: playboard.edge(),
                circle: false,
                cross: false,
            }),
    {
        let mut playboard = playboard;
        playboard.reset();
        proof {
            playboard.lemma_wf();
        }
        assert(playboard.cells() =~= empty_cells(playboard.cells().len()));
        Game { stage: GameStage::WaitingForPlayers, playboard, renderer, circle: false, cross: false }
    }

    /// Adds a message that carries no playboard to the list.
    fn say(
        &self,
        out: &mut Vec<Delivery<R::FieldRepresentation>>,
        to: PlayerId,
        msg: MsgToPlayer<R::FieldRepresentation>,
        Ghost(told): Ghost<Seq<Notice>>,
        Ghost(meant): Ghost<MsgToPlayer<Seq<Option<PlayerId>>>>,
    )
        requires
            deliveries_view(old(out)@) == pictured::<B, R>(told, self.playboard.edge()),
            msg@ == picture_of::<B, R>(meant, self.playboard.edge()),
        ensures
            deliveries_view(final(out)@) == pictured::<B, R>(
                told.push(Delivery { to, msg: meant }),
                self.playboard.edge(),
            ),
    {
        out.push(Delivery { to, msg });
        proof {
            let edge = self.playboard.edge();
            let sent = deliveries_view(out@);
            let owed = pictured::<B, R>(told.push(Delivery { to, msg: meant }), edge);
            assert(deliveries_view(old(out)@).len() == pictured::<B, R>(told, edge).len());
            assert(sent.len() == owed.len());
            assert forall|i: int| 0 <= i < sent.len() implies sent[i] == owed[i] by {
                if i < told.len() {
                    assert(sent[i] == deliveries_view(old(out)@)[i]);
                    assert(owed[i] == pictured::<B, R>(told, edge)[i]);
                }
            }
            assert(sent =~= owed);
        }
    }

    /// Adds the playboard as it stands to the list.
    fn show(
        &self,
        out: &mut Vec<Delivery<R::FieldRepresentation>>,
        to: PlayerId,
        Ghost(told): Ghost<Seq<Notice>>,
    )
        requires
            self.playboard.wf(),
            deliveries_view(old(out)@) == pictured::<B, R>(told, self.playboard.edge()),
        ensures
            deliveries_view(final(out)@) == pictured::<B, R>(
                told.push(Delivery { to, msg: MsgToPlayer::Playboard(self.playboard.cells()) }),
                self.playboard.edge(),
            ),
    {
        let shown = self.renderer.render(&self.playboard);
        self.say(
            out,
            to,
            MsgToPlayer::Playboard(shown),
            Ghost(told),
            Ghost(MsgToPlayer::Playboard(self.playboard.cells())),
        );
    }

    /// Somebody asks to join. The newcomer gets the seat that the result
    /// names, or none where both seats are taken. The second player to come
    /// starts a round.
    pub fn on_join(&mut self) -> (res: (Option<PlayerId>, Vec<Delivery<R::FieldRepresentation>>))
        requires
            old(self).wf(),
        ensures
            final(self).wf(),
            final(self).table() == old(self).table().after_join(),
            res.0 == old(self).table().free_seat(),
            deliveries_view(res.1@) == pictured::<B, R>(
                old(self).table().join_notices(),
                old(self).table().edge,
            ),
    {
        let mut out: Vec<Delivery<R::FieldRepresentation>> = Vec::new();
        let ghost mut told: Seq<Notice> = Seq::empty();
        let ghost cells = self.playboard.cells();
        assert(deliveries_view(out@) =~= pictured::<B, R>(told, self.playboard.edge()));
        match self.stage {
            GameStage::WaitingForPlayers => {
                let id = PlayerId::Circle;
                self.say(
                    &mut out,
                    id,
                    MsgToPlayer::WelcomePlayer,
                    Ghost(told),
                    Ghost(MsgToPlayer::WelcomePlayer),
                );
                proof {
                    told = told.push(Delivery { to: id, msg: MsgToPlayer::WelcomePlayer });
                }
                self.say(
                    &mut out,
                    id,
                    MsgToPlayer::WaitingForOtherPlayer,
                    Ghost(told),
                    Ghost(MsgToPlayer::WaitingForOtherPlayer),
                );
                proof {
                    told = told.push(Delivery { to: id, msg: MsgToPlayer::WaitingForOtherPlayer });
                    assert(told =~= old(self).table().join_notices());
                }
                self.circle = true;
                self.stage = GameStage::WaitingForPlayer(PlayerId::Cross);
                (Some(id), out)
            },
            GameStage::WaitingForPlayer(id) => {
                self.say(
                    &mut out,
                    id,
                    MsgToPlayer::WelcomePlayer,
                    Ghost(told),
                    Ghost(MsgToPlayer::WelcomePlayer),
                );
                proof {
                    told = told.push(Delivery { to: id, msg: MsgToPlayer::WelcomePlayer });
                }
                self.say(
                    &mut out,
                    PlayerId::Circle,
                    MsgToPlayer::PlayersAreReady,
                    Ghost(told),
                    Ghost(MsgToPlayer::PlayersAreReady),
                );
                proof {
                    told = told.push(
                        Delivery { to: PlayerId::Circle, msg: MsgToPlayer::PlayersAreReady },
                    );
                }
                self.show(&mut out, PlayerId::Circle, Ghost(told));
                proof {
                    told = told.push(
                        Delivery { to: PlayerId::Circle, msg: MsgToPlayer::Playboard(cells) },
                    );
                }
                self.say(
                    &mut out,
                    PlayerId::Cross,
                    MsgToPlayer::PlayersAreReady,
                    Ghost(told),
                    Ghost(MsgToPlayer::PlayersAreReady),
                );
                proof {
                    told = told.push(
                        Delivery { to: PlayerId::Cross, msg: MsgToPlayer::PlayersAreReady },
                    );
                }
                self.show(&mut out, PlayerId::Cross, Ghost(told));
                proof {
                    told = told.push(
                        Delivery { to: PlayerId::Cross, msg: MsgToPlayer::Playboard(cells) },
                    );
                }
                let first = id.opponent();
                self.announce_turn(&mut out, first, Ghost(told));
                proof {
                    told = told + turn_notices(first);
                    assert(told =~= old(self).table().join_notices());
                }
                match id {
                    PlayerId::Circle => self.circle = true,
                    PlayerId::Cross => self.cross = true,
                }
                self.stage = GameStage::PlayerOnMove(first);
                (Some(id), out)
            },
            GameStage::PlayerOnMove(_) => {
                proof {
                    assert(told =~= old(self).table().join_notices());
                }
                (None, out)
            },
        }
    }

    /// Adds to the list what both players are told when `mover` is on move.
    fn announce_turn(
        &self,
        out: &mut Vec<Delivery<R::FieldRepresentation>>,
        mover: PlayerId,
        Ghost(told): Ghost<Seq<Notice>>,
    )
        requires
            deliveries_view(old(out)@) == pictured::<B, R>(told, self.playboard.edge()),
        ensures
            deliveries_view(final(out)@) == pictured::<B, R>(
                told + turn_notices(mover),
                self.playboard.edge(),
            ),
    {
        self.say(
            out,
            mover,
            MsgToPlayer::YourAreOnMove,
            Ghost(told),
            Ghost(MsgToPlayer::YourAreOnMove),
        );
        let ghost told1 = told.push(Delivery { to: mover, msg: MsgToPlayer::YourAreOnMove });
        self.say(
            out,
            mover.opponent(),
            MsgToPlayer::OtherPlayerIsOnMove,
            Ghost(told1),
            Ghost(MsgToPlayer::OtherPlayerIsOnMove),
        );
        assert(told1.push(Delivery { to: mover.other(), msg: MsgToPlayer::OtherPlayerIsOnMove })
            =~= told + turn_notices(mover));
    }

    /// Adds to the list the playboard as it stands, for both players, first
    /// for `first`.
    fn show_both(
        &self,
        out: &mut Vec<Delivery<R::FieldRepresentation>>,
        first: PlayerId,
        Ghost(told): Ghost<Seq<Notice>>,
    )
        requires
            self.playboard.wf(),
            deliveries_view(old(out)@) == pictured::<B, R>(told, self.playboard.edge()),
        ensures
            deliveries_view(final(out)@) == pictured::<B, R>(
                told + playboard_notices(first, self.playboard.cells()),
                self.playboard.edge(),
            ),
    {
        self.show(out, first, Ghost(told));
        let ghost told1 = told.push(
            Delivery { to: first, msg: MsgToPlayer::Playboard(self.playboard.cells()) },
        );
        self.show(out, first.opponent(), Ghost(told1));
        assert(told1.push(
            Delivery { to: first.other(), msg: MsgToPlayer::Playboard(self.playboard.cells()) },
        ) =~= told + playboard_notices(first, self.playboard.cells()));
    }

    /// Adds to the list what both players are told when the move of `mover`
    /// has ended the round.
    fn announce_round_end(
        &self,
        out: &mut Vec<Delivery<R::FieldRepresentation>>,
        mover: PlayerId,
        outcome: ValidMove,
        Ghost(told): Ghost<Seq<Notice>>,
    )
        requires
            self.playboard.wf(),
            deliveries_view(old(out)@) == pictured::<B, R>(told, self.playboard.edge()),
        ensures
            deliveries_view(final(out)@) == pictured::<B, R>(
                told + round_end_notices(mover, outcome, self.playboard.cells()),
                self.playboard.edge(),
            ),
    {
        let ghost cells = self.playboard.cells();
        let ghost mut told = told;
        let ghost start = told;
        match outcome {
            ValidMove::Continue => {
                assert(told =~= start + round_end_notices(mover, outcome, cells));
            },
            ValidMove::Draw => {
                self.show(out, PlayerId::Circle, Ghost(told));
                proof {
                    told = told.push(
                        Delivery { to: PlayerId::Circle, msg: MsgToPlayer::Playboard(cells) },
                    );
                }
                self.say(
                    out,
                    PlayerId::Circle,
                    MsgToPlayer::Draw,
                    Ghost(told),
                    Ghost(MsgToPlayer::Draw),
                );
                proof {
                    told = told.push(Delivery { to: PlayerId::Circle, msg: MsgToPlayer::Draw });
                }
                self.show(out, PlayerId::Cross, Ghost(told));
                proof {
                    told = told.push(
                        Delivery { to: PlayerId::Cross, msg: MsgToPlayer::Playboard(cells) },
                    );
                }
                self.say(
                    out,
                    PlayerId::Cross,
                    MsgToPlayer::Draw,
                    Ghost(told),
                    Ghost(MsgToPlayer::Draw),
                );
                proof {
                    told = told.push(Delivery { to: PlayerId::Cross, msg: MsgToPlayer::Draw });
                    assert(told =~= start + round_end_notices(mover, outcome, cells));
                }
            },
            ValidMove::Win => {
                self.show_both(out, PlayerId::Circle, Ghost(told));
                proof {
                    told = told + playboard_notices(PlayerId::Circle, cells);
                }
                self.say(out, mover, MsgToPlayer::YouWon, Ghost(told), Ghost(MsgToPlayer::YouWon));
                proof {
                    told = told.push(Delivery { to: mover, msg: MsgToPlayer::YouWon });
                }
                self.say(
                    out,
                    mover.opponent(),
                    MsgToPlayer::YouLose,
                    Ghost(told),
                    Ghost(MsgToPlayer::YouLose),
                );
                proof {
                    told = told.push(Delivery { to: mover.other(), msg: MsgToPlayer::YouLose });
                    assert(told =~= start + round_end_notices(mover, outcome, cells));
                }
            },
        }
    }

    /// A player has sent a message, which was read as a position or not
    /// understood. Nothing happens while the game waits for players. A
    /// player who is not on move is told so. The player on move is told what
    /// is wrong with the message or the move, or else the move is made: both
    /// players see the playboard and hear whose turn it is, and before that,
    /// where the move ended the round, how it ended.
    pub fn on_message(&mut self, player_id: PlayerId, position: ConversionResult<B::Position>) -> (out:
        Vec<Delivery<R::FieldRepresentation>>)
        requires
            old(self).wf(),
        ensures
            final(self).wf(),
            final(self).table() == old(self).table().after_message(player_id, aim::<B>(position)),
            deliveries_view(out@) == pictured::<B, R>(
                old(self).table().message_notices(player_id, aim::<B>(position)),
                old(self).table().edge,
            ),
    {
        let mut out: Vec<Delivery<R::FieldRepresentation>> = Vec::new();
        let ghost mut told: Seq<Notice> = Seq::empty();
        let ghost before = self.table();
        let ghost expected = before.message_notices(player_id, aim::<B>(position));
        assert(deliveries_view(out@) =~= pictured::<B, R>(told, self.playboard.edge()));
        match self.stage {
            GameStage::PlayerOnMove(player_on_move) => {
                if player_id == player_on_move {
                    match position {
                        Ok(at) => match self.playboard.new_move(at, player_id) {
                            Ok(outcome) => {
                                let ghost marked = self.playboard.cells();
                                self.announce_round_end(&mut out, player_id, outcome, Ghost(told));
                                proof {
                                    told = told + round_end_notices(player_id, outcome, marked);
                                }
                                let next = match outcome {
                                    ValidMove::Continue => player_id.opponent(),
                                    ValidMove::Draw => {
                                        self.playboard.reset();
                                        player_id
                                    },
                                    ValidMove::Win => {
                                        self.playboard.reset();
                                        player_id.opponent()
                                    },
                                };
                                proof {
                                    lemma_cells_after_len(
                                        before.cells,
                                        before.edge,
                                        B::row(at),
                                        B::col(at),
                                        player_id,
                                    );
                                    if outcome != ValidMove::Continue {
                                        assert(self.playboard.cells() =~= before.cleared());
                                    }
                                }
                                self.show_both(&mut out, next, Ghost(told));
                                proof {
                                    told = told + playboard_notices(next, self.playboard.cells());
                                }
                                self.announce_turn(&mut out, next, Ghost(told));
                                proof {
                                    told = told + turn_notices(next);
                                    assert(told =~= expected);
                                }
                                self.stage = GameStage::PlayerOnMove(next);
                                proof {
                                    self.playboard.lemma_wf();
                                }
                            },
                            Err(InvalidMove::AlreadyUsed) => {
                                self.say(
                                    &mut out,
                                    player_id,
                                    MsgToPlayer::AlreadyTaken,
                                    Ghost(told),
                                    Ghost(MsgToPlayer::AlreadyTaken),
                                );
                                proof {
                                    told = told.push(
                                        Delivery { to: player_id, msg: MsgToPlayer::AlreadyTaken },
                                    );
                                    assert(told =~= expected);
                                }
                            },
                            Err(InvalidMove::InvalidRange) => {
                                self.say(
                                    &mut out,
                                    player_id,
                                    MsgToPlayer::InvalidInput,
                                    Ghost(told),
                                    Ghost(MsgToPlayer::InvalidInput),
                                );
                                proof {
                                    told = told.push(
                                        Delivery { to: player_id, msg: MsgToPlayer::InvalidInput },
                                    );
                                    assert(told =~= expected);
                                }
                            },
                        },
                        Err(_) => {
                            self.say(
                                &mut out,
                                player_id,
                                MsgToPlayer::InvalidInput,
                                Ghost(told),
                                Ghost(MsgToPlayer::InvalidInput),
                            );
                            proof {
                                told = told.push(
                                    Delivery { to: player_id, msg: MsgToPlayer::InvalidInput },
                                );
                                assert(told =~= expected);
                            }
                        },
                    }
                } else {
                    self.say(
                        &mut out,
                        player_id,
                        MsgToPlayer::YouAreNotOnMove,
                        Ghost(told),
                        Ghost(MsgToPlayer::YouAreNotOnMove),
                    );
                    proof {
                        told = told.push(
                            Delivery { to: player_id, msg: MsgToPlayer::YouAreNotOnMove },
                        );
                        assert(told =~= expected);
                    }
                }
            },
            _ => {
                proof {
                    assert(told =~= expected);
                }
            },
        }
        out
    }

    /// A player has left. The seat is free again, and a round that was under
    /// way is given up. A player who stays is told, and waits for a new
    /// opponent.
    pub fn on_leave(&mut self, player_id: PlayerId) -> (out: Vec<Delivery<R::FieldRepresentation>>)
        requires
            old(self).wf(),
        ensures
            final(self).wf(),
            final(self).table() == old(self).table().after_leave(player_id),
            deliveries_view(out@) == pictured::<B, R>(
                old(self).table().leave_notices(player_id),
                old(self).table().edge,
            ),
    {
        let mut out: Vec<Delivery<R::FieldRepresentation>> = Vec::new();
        let ghost mut told: Seq<Notice> = Seq::empty();
        let ghost before = self.table();
        assert(deliveries_view(out@) =~= pictured::<B, R>(told, self.playboard.edge()));
        match player_id {
            PlayerId::Circle => self.circle = false,
            PlayerId::Cross => self.cross = false,
        }
        if let GameStage::PlayerOnMove(_) = self.stage {
            self.playboard.reset();
            proof {
                self.playboard.lemma_wf();
                assert(self.playboard.cells() =~= before.cleared());
            }
        }
        let other = player_id.opponent();
        if self.is_seated(other) {
            self.say(
                &mut out,
                other,
                MsgToPlayer::OtherPlayerLeave,
                Ghost(told),
                Ghost(MsgToPlayer::OtherPlayerLeave),
            );
            proof {
                told = told.push(Delivery { to: other, msg: MsgToPlayer::OtherPlayerLeave });
            }
            self.say(
                &mut out,
                other,
                MsgToPlayer::WaitingForOtherPlayer,
                Ghost(told),
                Ghost(MsgToPlayer::WaitingForOtherPlayer),
            );
            proof {
                told = told.push(Delivery { to: other, msg: MsgToPlayer::WaitingForOtherPlayer });
            }
            self.stage = GameStage::WaitingForPlayer(player_id);
        } else {
            self.stage = GameStage::WaitingForPlayers;
        }
        proof {
            assert(told =~= before.leave_notices(player_id));
        }
        out
    }

    /// Takes one event from the players' side, whichever it is, and answers
    /// it as `on_join`, `on_message` or `on_leave` does.
    pub fn handle<T>(&mut self, event: MsgFromPlayer<T, ConversionResult<B::Position>>) -> (reaction:
        Reaction<T, R::FieldRepresentation>)
        requires
            old(self).wf(),
        ensures
            final(self).wf(),
            match event {
                MsgFromPlayer::Join(data) => {
                    &&& final(self).table() == old(self).table().after_join()
                    &&& reaction.newcomer == Some((data, old(self).table().free_seat()))
                    &&& deliveries_view(reaction.deliveries@) == pictured::<B, R>(
                        old(self).table().join_notices(),
                        old(self).table().edge,
                    )
                },
                MsgFromPlayer::Msg(id, position) => {
                    &&& final(self).table() == old(self).table().after_message(
                        id,
                        aim::<B>(position),
                    )
                    &&& reaction.newcomer is None
                    &&& deliveries_view(reaction.deliveries@) == pictured::<B, R>(
                        old(self).table().message_notices(id, aim::<B>(position)),
                        old(self).table().edge,
                    )
                },
                MsgFromPlayer::Leave(id) => {
                    &&& final(self).table() == old(self).table().after_leave(id)
                    &&& reaction.newcomer is None
                    &&& deliveries_view(reaction.deliveries@) == pictured::<B, R>(
                        old(self).table().leave_notices(id),
                        old(self).table().edge,
                    )
                },
            },
    {
        match event {
            MsgFromPlayer::Join(data) => {
                let (seat, deliveries) = self.on_join();
                Reaction { newcomer: Some((data, seat)), deliveries }
            },
            MsgFromPlayer::Msg(id, position) => {
                let deliveries = self.on_message(id, position);
                Reaction { newcomer: None, deliveries }
            },
            MsgFromPlayer::Leave(id) => {
                let deliveries = self.on_leave(id);
                Reaction { newcomer: None, deliveries }
            },
        }
    }

    /// Whether the seat of `id` is taken.
    pub fn is_seated(&self, id: PlayerId) -> (res: bool)
        ensures
            res == self.table().seated(id),
    {
        match id {
            PlayerId::Circle => self.circle,
            PlayerId::Cross => self.cross,
        }
    }

    /// The stage that the game is in.
    pub fn stage(&self) -> (res: GameStage)
        ensures
            res == self.table().stage,
    {
        self.stage
    }

    /// The playboard of the game.
    pub fn playboard(&self) -> (res: &B)
        ensures
            *res == self.board(),
            res.cells() == self.table().cells,
            res.edge() == self.table().edge,
            self.wf() ==> res.wf(),
    {
        &self.playboard
    }
}

} // verus!
