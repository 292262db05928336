//! A playboard of any edge size.
use vstd::prelude::*;
use crate::game::PlayerId;
use crate::game::playboard::InvalidMove;
use crate::game::playboard::Playboard as _;
use crate::game::playboard::ValidMove;
use crate::game::playboard::rules::all_empty;
use crate::game::playboard::rules::cells_after;
use crate::game::playboard::rules::field_index;
use crate::game::playboard::rules::is_draw;
use crate::game::playboard::rules::lemma_field_index;
use crate::game::playboard::rules::line_has;
use crate::game::playboard::rules::line_mark;
use crate::game::playboard::rules::line_open;
use crate::game::playboard::rules::line_won;
use crate::game::playboard::rules::line_won_by;
use crate::game::playboard::rules::wins_at;
use crate::game::playboard::rules::Line;

verus! {

/// One field of the playboard: empty, or marked by a player.
#[derive(Clone, Copy, Debug)]
pub struct SingleField {
    pub field: Option<PlayerId>,
}

/// The text that stands for a mark: `o`, `x`, or a blank for an empty field.
pub open spec fn mark_text(mark: Option<PlayerId>) -> Seq<char> {
    match mark {
        Some(PlayerId::Circle) => seq!['o'],
        Some(PlayerId::Cross) => seq!['x'],
        None => seq![' '],
    }
}

impl SingleField {
    /// An empty field.
    pub fn new() -> (res: Self)
        ensures
            res.field is None,
    {
        SingleField { field: None }
    }

    /// Whether the field holds the mark of `player`.
    pub fn used_by_user(&self, player: &PlayerId) -> (res: bool)
        ensures
            res == (self.field == Some(*player)),
    {
        match &self.field {
            Some(x) => *x == *player,
            None => false,
        }
    }

    /// The field as text: its mark, or a blank.
    pub fn to_string(&self) -> (res: String)
        ensures
            res@ == mark_text(self.field),
    {
        proof {
            reveal_strlit("o");
            reveal_strlit("x");
            reveal_strlit(" ");
        }
        let text = match &self.field {
            Some(x) => match x {
                PlayerId::Circle => "o",
                PlayerId::Cross => "x",
            },
            None => " ",
        };
        assert(text@ =~= mark_text(self.field));
        text.to_owned()
    }
}

/// The playboard that was asked for has more fields than can be counted.
#[derive(Debug)]
pub struct PlayboardToBig {}

impl PlayboardToBig {
    /// The error as text.
    pub fn to_string(&self) -> (res: String)
        ensures
            res@ == "Playboard nxn is to big"@,
    {
        "Playboard nxn is to big".to_owned()
    }
}

/// A square playboard: `edge_size` rows of `edge_size` fields, kept row after
/// row.
pub struct Playboard {
    pub fields: Vec<SingleField>,
    pub edge_size: usize,
}

/// Whether `value` is a row or a column of a playboard with edge size `limit`.
fn check_range(value: usize, limit: usize) -> (res: bool)
    ensures
        res == (value < limit),
{
    value < limit
}

/// The place of a line's `k`-th field among the fields of a playboard.
pub fn line_index(edge: usize, line: Line, k: usize) -> (res: usize)
    requires
        line.on_board(edge as int),
        k < edge,
        edge * edge <= usize::MAX,
    ensures
        res == field_index(edge as int, line.row_of(edge as int, k as int), line.col_of(edge as int, k as int)),
        res < edge * edge,
{
    let (row, col): (usize, usize) = match line {
        Line::Row(r) => (r, k),
        Line::Column(c) => (k, c),
        Line::MainDiagonal => (k, k),
        Line::AntiDiagonal => (k, edge - 1 - k),
    };
    proof {
        lemma_field_index(edge as int, row as int, col as int);
        assert(0 <= edge * row) by (nonlinear_arith);
    }
    edge * row + col
}

/// Whether one player holds every field of the line.
fn are_same_some_values(field: &Playboard, line: Line) -> (res: bool)
    requires
        field.wf(),
        line.on_board(field.edge_size as int),
    ensures
        res == line_won(field.cells(), field.edge_size as int, line),
{
    let edge = field.edge_size;
    let ghost cells = field.cells();
    let first = field.fields[line_index(edge, line, 0)].field;
    assert(first == line_mark(cells, edge as int, line, 0));
    match first {
        None => false,
        Some(y) => {
            let mut k: usize = 1;
            while k < edge
                invariant
                    1 <= k <= edge,
                    edge == field.edge_size,
                    cells == field.cells(),
                    field.wf(),
                    line.on_board(edge as int),
                    line_mark(cells, edge as int, line, 0) == Some(y),
                    forall|j: int| 0 <= j < k ==> (#[trigger] line_mark(cells, edge as int, line, j)) == Some(y),
                decreases edge - k,
            {
                let idx = line_index(edge, line, k);
                if !field.fields[idx].used_by_user(&y) {
                    assert(line_mark(cells, edge as int, line, k as int) != Some(y));
                    return false;
                }
                k += 1;
            }
            assert(line_won_by(cells, edge as int, line, y));
            true
        },
    }
}

/// Whether the line can still be completed: it holds the marks of at most one
/// player.
fn is_line_capable(field: &Playboard, line: Line) -> (res: bool)
    requires
        field.wf(),
        line.on_board(field.edge_size as int),
    ensures
        res == line_open(field.cells(), field.edge_size as int, line),
{
    let edge = field.edge_size;
    let ghost cells = field.cells();
    let mut user_cross = false;
    let mut user_circle = false;
    let mut k: usize = 0;
    while k < edge
        invariant
            0 <= k <= edge,
            edge == field.edge_size,
            cells == field.cells(),
            field.wf(),
            line.on_board(edge as int),
            !(user_circle && user_cross),
            user_circle == (exists|j: int|
                0 <= j < k && (#[trigger] line_mark(cells, edge as int, line, j)) == Some(
                    PlayerId::Circle,
                )),
            user_cross == (exists|j: int|
                0 <= j < k && (#[trigger] line_mark(cells, edge as int, line, j)) == Some(
                    PlayerId::Cross,
                )),
        decreases edge - k,
    {
        let idx = line_index(edge, line, k);
        let ghost mark = line_mark(cells, edge as int, line, k as int);
        assert(field.fields[idx as int].field == mark);
        match field.fields[idx].field {
            Some(x) => match x {
                PlayerId::Circle => user_circle = true,
                PlayerId::Cross => user_cross = true,
            },
            None => (),
        }
        if user_circle && user_cross {
            assert(line_has(cells, edge as int, line, PlayerId::Circle));
            assert(line_has(cells, edge as int, line, PlayerId::Cross));
            return false;
        }
        k += 1;
    }
    true
}

/// Whether the mark at `position` completes a line.
fn check_for_win(field: &Playboard, position: (usize, usize)) -> (res: bool)
    requires
        field.wf(),
        position.0 < field.edge_size,
        position.1 < field.edge_size,
    ensures
        res == wins_at(field.cells(), field.edge_size as int, position.0 as int, position.1 as int),
{
    let ghost cells = field.cells();
    let ghost edge = field.edge_size as int;
    let ghost row = position.0 as int;
    let ghost col = position.1 as int;
    // Check row and column
    if are_same_some_values(field, Line::Row(position.0)) {
        assert(Line::Row(position.0).passes(edge, row, col));
        return true;
    }
    if are_same_some_values(field, Line::Column(position.1)) {
        assert(Line::Column(position.1).passes(edge, row, col));
        return true;
    }
    // Diagonal check
    if field.edge_size % 2 == 1 {
        // Check main diagonal
        if position.0 == position.1 && are_same_some_values(field, Line::MainDiagonal) {
            assert(Line::MainDiagonal.passes(edge, row, col));
            return true;
        }
        // Check anti-diagonal
        if position.0 == field.edge_size - 1 - position.1 && are_same_some_values(
            field,
            Line::AntiDiagonal,
        ) {
            assert(Line::AntiDiagonal.passes(edge, row, col));
            return true;
        }
    }
    assert forall|line: Line|
        line.on_board(edge) && #[trigger] line.passes(edge, row, col) implies !line_won(
        cells,
        edge,
        line,
    ) by {
        match line {
            Line::Row(r) => {
                assert(line == Line::Row(position.0));
            },
            Line::Column(c) => {
                assert(line == Line::Column(position.1));
            },
            Line::MainDiagonal => {},
            Line::AntiDiagonal => {},
        }
    }
    false
}

/// Whether nobody can win any more: no line of the playboard is open.
fn check_for_draw(field: &Playboard) -> (res: bool)
    requires
        field.wf(),
    ensures
        res == is_draw(field.cells(), field.edge_size as int),
{
    let ghost cells = field.cells();
    let edge = field.edge_size;
    let mut index: usize = 0;
    while index < edge
        invariant
            0 <= index <= edge,
            edge == field.edge_size,
            cells == field.cells(),
            field.wf(),
            forall|r: usize| r < index ==> !#[trigger] line_open(cells, edge as int, Line::Row(r)),
        decreases edge - index,
    {
        if is_line_capable(field, Line::Row(index)) {
            assert(Line::Row(index).on_board(edge as int));
            return false;
        }
        index += 1;
    }
    index = 0;
    while index < edge
        invariant
            0 <= index <= edge,
            edge == field.edge_size,
            cells == field.cells(),
            field.wf(),
            forall|r: usize| r < edge ==> !#[trigger] line_open(cells, edge as int, Line::Row(r)),
            forall|c: usize|
                c < index ==> !#[trigger] line_open(cells, edge as int, Line::Column(c)),
        decreases edge - index,
    {
        if is_line_capable(field, Line::Column(index)) {
            assert(Line::Column(index).on_board(edge as int));
            return false;
        }
        index += 1;
    }
    // Diagonal check
    if edge % 2 == 1 {
        if is_line_capable(field, Line::MainDiagonal) {
            assert(Line::MainDiagonal.on_board(edge as int));
            return false;
        }
        if is_line_capable(field, Line::AntiDiagonal) {
            assert(Line::AntiDiagonal.on_board(edge as int));
            return false;
        }
    }
    assert forall|line: Line| #[trigger] line.on_board(edge as int) implies !line_open(
        cells,
        edge as int,
        line,
    ) by {
        match line {
            Line::Row(r) => {
                assert(line == Line::Row(r));
            },
            Line::Column(c) => {
                assert(line == Line::Column(c));
            },
            Line::MainDiagonal => {},
            Line::AntiDiagonal => {},
        }
    }
    true
}

impl Playboard {
    /// The marks on the fields, row after row.
    pub open spec fn marks(&self) -> Seq<Option<PlayerId>> {
        self.fields@.map_values(|f: SingleField| f.field)
    }

    /// An empty playboard with `edge_size` fields along each edge, unless
    /// their number cannot be counted.
    pub fn new(edge_size: usize) -> (res: Result<Playboard, PlayboardToBig>)
        requires
            edge_size >= 1,
        ensures
            res is Ok <==> edge_size * edge_size <= usize::MAX,
            res matches Ok(board) ==> board.wf() && board.edge_size == edge_size && all_empty(
                board.cells(),
            ),
    {
        match edge_size.checked_mul(edge_size) {
            Some(x) => {
                let mut fields: Vec<SingleField> = Vec::new();
                let mut count: usize = 0;
                while count < x
                    invariant
                        count <= x,
                        fields@.len() == count,
                        forall|i: int| 0 <= i < count ==> (#[trigger] fields@[i]).field is None,
                    decreases x - count,
                {
                    fields.push(SingleField::new());
                    count += 1;
                }
                Ok(Playboard { fields, edge_size })
            },
            None => Err(PlayboardToBig {  }),
        }
    }
}

impl super::Playboard for Playboard {
    type Position = (usize, usize);

    open spec fn wf(&self) -> bool {
        &&& self.edge_size >= 1
        &&& self.edge_size * self.edge_size <= usize::MAX
        &&& self.fields@.len() == self.edge_size * self.edge_size
    }

    open spec fn edge(&self) -> int {
        self.edge_size as int
    }

    open spec fn cells(&self) -> Seq<Option<PlayerId>> {
        self.marks()
    }

    open spec fn row(position: (usize, usize)) -> int {
        position.0 as int
    }

    open spec fn col(position: (usize, usize)) -> int {
        position.1 as int
    }

    proof fn lemma_wf(&self) {
    }

    fn new_move(&mut self, position: (usize, usize), player_id: PlayerId) -> (res: Result<
        ValidMove,
        InvalidMove,
    >) {
        // Check the coordinates
        if !check_range(position.0, self.edge_size) || !check_range(position.1, self.edge_size) {
            return Err(InvalidMove::InvalidRange);
        }
        proof {
            lemma_field_index(self.edge_size as int, position.0 as int, position.1 as int);
            assert(0 <= self.edge_size * position.0) by (nonlinear_arith);
            assert(field_index(self.edge_size as int, position.0 as int, position.1 as int)
                == self.edge_size * position.0 + position.1);
        }
        let position_ = self.edge_size * position.0 + position.1;

        // Already taken
        if self.fields[position_].field.is_some() {
            return Err(InvalidMove::AlreadyUsed);
        }
        // Save the mark
        self.fields[position_] = SingleField { field: Some(player_id) };
        assert(self.cells() =~= cells_after(
            old(self).cells(),
            old(self).edge(),
            position.0 as int,
            position.1 as int,
            player_id,
        ));

        if check_for_win(self, position) {
            return Ok(ValidMove::Win);
        }
        if check_for_draw(self) {
            return Ok(ValidMove::Draw);
        }
        Ok(ValidMove::Continue)
    }

    fn reset(&mut self) {
        let total = self.fields.len();
        let mut index: usize = 0;
        while index < total
            invariant
                index <= total,
                total == self.fields@.len(),
                self.edge_size == old(self).edge_size,
                self.wf(),
                forall|i: int| 0 <= i < index ==> (#[trigger] self.fields@[i]).field is None,
            decreases total - index,
        {
            self.fields[index] = SingleField::new();
            index += 1;
        }
    }
}

} // verus!
