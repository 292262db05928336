//! The playboard of the classic game: three rows of three fields.
use vstd::prelude::*;
use crate::game::PlayerId;
use crate::game::playboard::InvalidMove;
use crate::game::playboard::Playboard as _;
use crate::game::playboard::ValidMove;
use crate::game::playboard::rules::all_empty;
use crate::game::playboard::rules::cells_after;
use crate::game::playboard::rules::is_draw;
use crate::game::playboard::rules::line_has;
use crate::game::playboard::rules::line_mark;
use crate::game::playboard::rules::line_open;
use crate::game::playboard::rules::line_won;
use crate::game::playboard::rules::line_won_by;
use crate::game::playboard::rules::wins_at;
use crate::game::playboard::rules::Line;

verus! {

/// One field of the playboard: empty, or marked by a player.
#[derive(Clone, Copy, Debug)]
pub struct SingleField {
    pub field: Option<PlayerId>,
}

impl SingleField {
    /// An empty field.
    pub fn new() -> (res: Self)
        ensures
            res.field is None,
    {
        SingleField { field: None }
    }

    /// Whether the field holds the mark of `player`.
    pub fn used_by_user(&self, player: &PlayerId) -> (res: bool)
        ensures
            res == (self.field == Some(*player)),
    {
        match &self.field {
            Some(x) => *x == *player,
            None => false,
        }
    }
}

/// Three fields hold the mark of one and the same player.
pub open spec fn three_won(a: Option<PlayerId>, b: Option<PlayerId>, c: Option<PlayerId>) -> bool {
    a is Some && a == b && a == c
}

/// Three fields hold the marks of at most one player.
pub open spec fn three_open(a: Option<PlayerId>, b: Option<PlayerId>, c: Option<PlayerId>) -> bool {
    let circle = Some(PlayerId::Circle);
    let cross = Some(PlayerId::Cross);
    !((a == circle || b == circle || c == circle) && (a == cross || b == cross || c == cross))
}

/// On a playboard of edge size three, a line is its three fields.
pub proof fn lemma_line_of_three(cells: Seq<Option<PlayerId>>, line: Line)
    ensures
        line_won(cells, 3, line) == three_won(
            line_mark(cells, 3, line, 0),
            line_mark(cells, 3, line, 1),
            line_mark(cells, 3, line, 2),
        ),
        line_open(cells, 3, line) == three_open(
            line_mark(cells, 3, line, 0),
            line_mark(cells, 3, line, 1),
            line_mark(cells, 3, line, 2),
        ),
{
    let a = line_mark(cells, 3, line, 0);
    let b = line_mark(cells, 3, line, 1);
    let c = line_mark(cells, 3, line, 2);
    assert forall|player: PlayerId|
        line_won_by(cells, 3, line, player) == (a == Some(player) && b == Some(player) && c
            == Some(player)) by {
        if a == Some(player) && b == Some(player) && c == Some(player) {
            assert forall|k: int| 0 <= k < 3 implies (#[trigger] line_mark(cells, 3, line, k))
                == Some(player) by {
                assert(k == 0 || k == 1 || k == 2);
            }
        }
        if line_won_by(cells, 3, line, player) {
            assert(line_mark(cells, 3, line, 0) == Some(player));
            assert(line_mark(cells, 3, line, 1) == Some(player));
            assert(line_mark(cells, 3, line, 2) == Some(player));
        }
    }
    assert(line_won_by(cells, 3, line, PlayerId::Circle) == (a == Some(PlayerId::Circle) && b
        == Some(PlayerId::Circle) && c == Some(PlayerId::Circle)));
    assert(line_won_by(cells, 3, line, PlayerId::Cross) == (a == Some(PlayerId::Cross) && b
        == Some(PlayerId::Cross) && c == Some(PlayerId::Cross)));
    assert(line_won(cells, 3, line) == three_won(a, b, c)) by {
        match a {
            Some(PlayerId::Circle) => {},
            Some(PlayerId::Cross) => {},
            None => {},
        }
    }
    assert forall|player: PlayerId|
        line_has(cells, 3, line, player) == (a == Some(player) || b == Some(player) || c == Some(
            player,
        )) by {
        if line_has(cells, 3, line, player) {
            let k = choose|k: int|
                0 <= k < 3 && (#[trigger] line_mark(cells, 3, line, k)) == Some(player);
            assert(k == 0 || k == 1 || k == 2);
        }
    }
    assert(line_has(cells, 3, line, PlayerId::Circle) == (a == Some(PlayerId::Circle) || b
        == Some(PlayerId::Circle) || c == Some(PlayerId::Circle)));
    assert(line_has(cells, 3, line, PlayerId::Cross) == (a == Some(PlayerId::Cross) || b == Some(
        PlayerId::Cross,
    ) || c == Some(PlayerId::Cross)));
}

/// The playboard: nine fields, row after row.
pub struct Playboard {
    pub fields: [SingleField; 9],
}

// ---- The fields of a line ----
/// The three fields of a row.
fn get_iter_row(field: &Playboard, row_index: usize) -> (res: [SingleField; 3])
    requires
        row_index < 3,
    ensures
        forall|k: int|
            0 <= k < 3 ==> (#[trigger] res@[k]).field == line_mark(
                field.cells(),
                3,
                Line::Row(row_index),
                k,
            ),
{
    [
        field.fields[3 * row_index],
        field.fields[3 * row_index + 1],
        field.fields[3 * row_index + 2],
    ]
}

/// The three fields of a column.
fn get_iter_col_(field: &Playboard, col_index: usize) -> (res: [SingleField; 3])
    requires
        col_index < 3,
    ensures
        forall|k: int|
            0 <= k < 3 ==> (#[trigger] res@[k]).field == line_mark(
                field.cells(),
                3,
                Line::Column(col_index),
                k,
            ),
{
    [field.fields[col_index], field.fields[col_index + 3], field.fields[col_index + 6]]
}

/// The three fields of the diagonal that starts at the top left.
fn get_iter_diag_neg(field: &Playboard) -> (res: [SingleField; 3])
    ensures
        forall|k: int|
            0 <= k < 3 ==> (#[trigger] res@[k]).field == line_mark(
                field.cells(),
                3,
                Line::MainDiagonal,
                k,
            ),
{
    [field.fields[0], field.fields[4], field.fields[8]]
}

/// The three fields of the diagonal that starts at the top right.
fn get_iter_diag_pos(field: &Playboard) -> (res: [SingleField; 3])
    ensures
        forall|k: int|
            0 <= k < 3 ==> (#[trigger] res@[k]).field == line_mark(
                field.cells(),
                3,
                Line::AntiDiagonal,
                k,
            ),
{
    [field.fields[2], field.fields[4], field.fields[6]]
}

// ---- Check for a win ----
/// Whether one player holds all three fields.
fn are_same_some_values(data: [SingleField; 3]) -> (res: bool)
    ensures
        res == three_won(data@[0].field, data@[1].field, data@[2].field),
{
    match data[0].field {
        Some(y) => data[1].used_by_user(&y) && data[2].used_by_user(&y),
        None => false,
    }
}

/// Whether the mark on the field with the given number completes a line.
fn check_for_win(field: &Playboard, position: usize) -> (res: bool)
    requires
        position < 9,
    ensures
        res == wins_at(field.cells(), 3, position as int / 3, position as int % 3),
{
    let ghost cells = field.cells();
    let ghost row = position as int / 3;
    let ghost col = position as int % 3;
    proof {
        lemma_line_of_three(cells, Line::Row((position / 3) as usize));
        lemma_line_of_three(cells, Line::Column((position % 3) as usize));
        lemma_line_of_three(cells, Line::MainDiagonal);
        lemma_line_of_three(cells, Line::AntiDiagonal);
    }
    // Check row and column
    if are_same_some_values(get_iter_row(field, position / 3)) {
        assert(Line::Row((position / 3) as usize).passes(3, row, col));
        return true;
    }
    if are_same_some_values(get_iter_col_(field, position % 3)) {
        assert(Line::Column((position % 3) as usize).passes(3, row, col));
        return true;
    }
    // Check the diagonal from the top left
    if (position == 0 || position == 4 || position == 8) && are_same_some_values(
        get_iter_diag_neg(field),
    ) {
        assert(Line::MainDiagonal.passes(3, row, col));
        return true;
    }
    // Check the diagonal from the top right
    if (position == 2 || position == 4 || position == 6) && are_same_some_values(
        get_iter_diag_pos(field),
    ) {
        assert(Line::AntiDiagonal.passes(3, row, col));
        return true;
    }
    assert forall|line: Line| line.on_board(3) && #[trigger] line.passes(3, row, col) implies !line_won(
        cells,
        3,
        line,
    ) by {
        match line {
            Line::Row(r) => {
                assert(line == Line::Row((position / 3) as usize));
            },
            Line::Column(c) => {
                assert(line == Line::Column((position % 3) as usize));
            },
            Line::MainDiagonal => {},
            Line::AntiDiagonal => {},
        }
    }
    false
}

// ---- Check for a draw ----
/// What a field counts for when the marks of a line are weighed.
fn weight(field: SingleField) -> (res: u16)
    ensures
        res == match field.field {
            Some(PlayerId::Circle) => 1u16,
            Some(PlayerId::Cross) => 10u16,
            None => 100u16,
        },
{
    match field.field {
        Some(x) => match x {
            PlayerId::Circle => 1,
            PlayerId::Cross => 10,
        },
        None => 100,
    }
}

/// Whether the three fields can still be completed: they hold the marks of
/// at most one player.
fn is_line_capable(data: [SingleField; 3]) -> (res: bool)
    ensures
        res == three_open(data@[0].field, data@[1].field, data@[2].field),
{
    let score = weight(data[0]) + weight(data[1]) + weight(data[2]);
    !(score == 12 || score == 21 || score == 111)
}

/// Whether nobody can win any more: none of the eight lines is open.
fn check_for_draw(field: &Playboard) -> (res: bool)
    ensures
        res == is_draw(field.cells(), 3),
{
    let ghost cells = field.cells();
    proof {
        lemma_line_of_three(cells, Line::Row(0));
        lemma_line_of_three(cells, Line::Row(1));
        lemma_line_of_three(cells, Line::Row(2));
        lemma_line_of_three(cells, Line::Column(0));
        lemma_line_of_three(cells, Line::Column(1));
        lemma_line_of_three(cells, Line::Column(2));
        lemma_line_of_three(cells, Line::MainDiagonal);
        lemma_line_of_three(cells, Line::AntiDiagonal);
    }
    let res = !is_line_capable(get_iter_row(field, 0)) && !is_line_capable(get_iter_row(field, 1))
        && !is_line_capable(get_iter_row(field, 2)) && !is_line_capable(get_iter_col_(field, 0))
        && !is_line_capable(get_iter_col_(field, 1)) && !is_line_capable(get_iter_col_(field, 2))
        && !is_line_capable(get_iter_diag_pos(field)) && !is_line_capable(
        get_iter_diag_neg(field),
    );
    proof {
        if res {
            assert forall|line: Line| #[trigger] line.on_board(3) implies !line_open(
                cells,
                3,
                line,
            ) by {
                match line {
                    Line::Row(r) => {
                        assert(line == Line::Row(0) || line == Line::Row(1) || line == Line::Row(
                            2,
                        ));
                    },
                    Line::Column(c) => {
                        assert(line == Line::Column(0) || line == Line::Column(1) || line
                            == Line::Column(2));
                    },
                    Line::MainDiagonal => {},
                    Line::AntiDiagonal => {},
                }
            }
        } else {
            assert(Line::Row(0).on_board(3) && Line::Row(1).on_board(3) && Line::Row(2).on_board(3));
            assert(Line::Column(0).on_board(3) && Line::Column(1).on_board(3) && Line::Column(
                2,
            ).on_board(3));
            assert(Line::MainDiagonal.on_board(3) && Line::AntiDiagonal.on_board(3));
        }
    }
    res
}

// ---- The playboard ----
impl Playboard {
    /// The marks on the fields, row after row.
    pub open spec fn marks(&self) -> Seq<Option<PlayerId>> {
        self.fields@.map_values(|f: SingleField| f.field)
    }

    /// An empty playboard.
    pub fn new() -> (res: Playboard)
        ensures
            res.wf(),
            all_empty(res.cells()),
    {
        let empty = SingleField::new();
        let fields = [empty;9];
        assert(fields == vstd::array::spec_array_fill_for_copy_type::<SingleField, 9>(empty));
        let res = Playboard { fields };
        assert forall|i: int| 0 <= i < res.cells().len() implies (#[trigger] res.cells()[i])
            is None by {
            assert(res.fields@[i] == empty);
        }
        res
    }
}

/// Whether `value` is a row or a column of the playboard.
fn check_range(value: usize) -> (res: bool)
    ensures
        res == (value < 3),
{
    value < 3
}

impl super::Playboard for Playboard {
    type Position = (usize, usize);

    open spec fn wf(&self) -> bool {
        true
    }

    open spec fn edge(&self) -> int {
        3
    }

    open spec fn cells(&self) -> Seq<Option<PlayerId>> {
        self.marks()
    }

    open spec fn row(position: (usize, usize)) -> int {
        position.0 as int
    }

    open spec fn col(position: (usize, usize)) -> int {
        position.1 as int
    }

    proof fn lemma_wf(&self) {
    }

    fn new_move(&mut self, position: (usize, usize), player_id: PlayerId) -> (res: Result<
        ValidMove,
        InvalidMove,
    >) {
        // Check the coordinates
        if !check_range(position.0) || !check_range(position.1) {
            return Err(InvalidMove::InvalidRange);
        }
        // Already taken
        if self.fields[3 * position.0 + position.1].field.is_some() {
            return Err(InvalidMove::AlreadyUsed);
        }
        // Save the mark
        let position_ = 3 * position.0 + position.1;
        self.fields[position_] = SingleField { field: Some(player_id) };
        assert(self.cells() =~= cells_after(
            old(self).cells(),
            3,
            position.0 as int,
            position.1 as int,
            player_id,
        ));

        if check_for_win(self, position_) {
            return Ok(ValidMove::Win);
        }
        if check_for_draw(self) {
            return Ok(ValidMove::Draw);
        }
        Ok(ValidMove::Continue)
    }

    fn reset(&mut self) {
        let fresh = Playboard::new();
        self.fields = fresh.fields;
    }
}

} // verus!
