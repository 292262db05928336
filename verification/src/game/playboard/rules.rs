//! The rules of the game on a square playboard of any edge size, stated over
//! the sequence of its fields, row after row.
use vstd::prelude::*;
use crate::game::PlayerId;
use crate::game::playboard::InvalidMove;
use crate::game::playboard::ValidMove;

verus! {

/// A full-length line of a square playboard.
#[derive(Debug, PartialEq, Eq, Structural, Clone, Copy)]
pub enum Line {
    /// The row with the given index.
    Row(usize),
    /// The column with the given index.
    Column(usize),
    /// The diagonal from the top left corner to the bottom right one.
    MainDiagonal,
    /// The diagonal from the top right corner to the bottom left one.
    AntiDiagonal,
}

impl Line {
    /// Whether a playboard of the given edge size has this line. The
    /// diagonals count only where the edge size is odd.
    pub open spec fn on_board(self, edge: int) -> bool {
        match self {
            Line::Row(r) => r < edge,
            Line::Column(c) => c < edge,
            Line::MainDiagonal => edge % 2 == 1,
            Line::AntiDiagonal => edge % 2 == 1,
        }
    }

    /// The row of the line's `k`-th field.
    pub open spec fn row_of(self, edge: int, k: int) -> int {
        match self {
            Line::Row(r) => r as int,
            Line::Column(_) => k,
            Line::MainDiagonal => k,
            Line::AntiDiagonal => k,
        }
    }

    /// The column of the line's `k`-th field.
    pub open spec fn col_of(self, edge: int, k: int) -> int {
        match self {
            Line::Row(_) => k,
            Line::Column(c) => c as int,
            Line::MainDiagonal => k,
            Line::AntiDiagonal => edge - 1 - k,
        }
    }

    /// The place on the line of the field at `(row, col)`, where the line
    /// runs through it.
    pub open spec fn place_of(self, row: int, col: int) -> int {
        match self {
            Line::Row(_) => col,
            Line::Column(_) => row,
            Line::MainDiagonal => row,
            Line::AntiDiagonal => row,
        }
    }

    /// Whether the line runs through the field at `(row, col)`.
    pub open spec fn passes(self, edge: int, row: int, col: int) -> bool {
        match self {
            Line::Row(r) => r == row,
            Line::Column(c) => c == col,
            Line::MainDiagonal => row == col,
            Line::AntiDiagonal => row + col == edge - 1,
        }
    }
}

/// Where the field at `(row, col)` stands in the sequence of fields.
pub open spec fn field_index(edge: int, row: int, col: int) -> int {
    edge * row + col
}

/// The mark on the `k`-th field of a line.
pub open spec fn line_mark(cells: Seq<Option<PlayerId>>, edge: int, line: Line, k: int) -> Option<
    PlayerId,
> {
    cells[field_index(edge, line.row_of(edge, k), line.col_of(edge, k))]
}

/// Every field of the line holds the player's mark.
pub open spec fn line_won_by(
    cells: Seq<Option<PlayerId>>,
    edge: int,
    line: Line,
    player: PlayerId,
) -> bool {
    forall|k: int| 0 <= k < edge ==> (#[trigger] line_mark(cells, edge, line, k)) == Some(player)
}

/// Every field of the line holds the mark of one and the same player.
pub open spec fn line_won(cells: Seq<Option<PlayerId>>, edge: int, line: Line) -> bool {
    line_won_by(cells, edge, line, PlayerId::Circle) || line_won_by(
        cells,
        edge,
        line,
        PlayerId::Cross,
    )
}

/// Some field of the line holds the player's mark.
pub open spec fn line_has(
    cells: Seq<Option<PlayerId>>,
    edge: int,
    line: Line,
    player: PlayerId,
) -> bool {
    exists|k: int| 0 <= k < edge && (#[trigger] line_mark(cells, edge, line, k)) == Some(player)
}

/// The line can still be completed: it holds the marks of at most one player.
pub open spec fn line_open(cells: Seq<Option<PlayerId>>, edge: int, line: Line) -> bool {
    !(line_has(cells, edge, line, PlayerId::Circle) && line_has(
        cells,
        edge,
        line,
        PlayerId::Cross,
    ))
}

/// Nobody can win any more: no line of the playboard is open.
pub open spec fn is_draw(cells: Seq<Option<PlayerId>>, edge: int) -> bool {
    forall|line: Line| #[trigger] line.on_board(edge) ==> !line_open(cells, edge, line)
}

/// A line of the playboard that runs through the field at `(row, col)` is won.
pub open spec fn wins_at(cells: Seq<Option<PlayerId>>, edge: int, row: int, col: int) -> bool {
    exists|line: Line|
        line.on_board(edge) && #[trigger] line.passes(edge, row, col) && line_won(
            cells,
            edge,
            line,
        )
}

/// Every field is empty.
pub open spec fn all_empty(cells: Seq<Option<PlayerId>>) -> bool {
    forall|i: int| 0 <= i < cells.len() ==> (#[trigger] cells[i]) is None
}

/// As many fields as asked for, all of them empty.
pub open spec fn empty_cells(len: nat) -> Seq<Option<PlayerId>> {
    Seq::new(len, |i: int| None)
}

/// The fields after `player` has asked for the field at `(row, col)`: the
/// field takes the player's mark where it lies on the playboard and is empty,
/// and nothing changes otherwise.
pub open spec fn cells_after(
    cells: Seq<Option<PlayerId>>,
    edge: int,
    row: int,
    col: int,
    player: PlayerId,
) -> Seq<Option<PlayerId>> {
    if 0 <= row < edge && 0 <= col < edge && cells[field_index(edge, row, col)] is None {
        cells.update(field_index(edge, row, col), Some(player))
    } else {
        cells
    }
}

/// What `player` is told after asking for the field at `(row, col)`. A
/// position outside the playboard is refused first, then a field that is
/// taken. An accepted move wins where it completes a line; failing that it
/// draws where it leaves no line open.
pub open spec fn move_outcome(
    cells: Seq<Option<PlayerId>>,
    edge: int,
    row: int,
    col: int,
    player: PlayerId,
) -> Result<ValidMove, InvalidMove> {
    if !(0 <= row < edge && 0 <= col < edge) {
        Err(InvalidMove::InvalidRange)
    } else if cells[field_index(edge, row, col)] is Some {
        Err(InvalidMove::AlreadyUsed)
    } else if wins_at(cells_after(cells, edge, row, col, player), edge, row, col) {
        Ok(ValidMove::Win)
    } else if is_draw(cells_after(cells, edge, row, col, player), edge) {
        Ok(ValidMove::Draw)
    } else {
        Ok(ValidMove::Continue)
    }
}

/// Fields on the playboard have their own place in the sequence of fields.
pub proof fn lemma_field_index(edge: int, row: int, col: int)
    requires
        0 <= row < edge,
        0 <= col < edge,
    ensures
        0 <= field_index(edge, row, col) < edge * edge,
        field_index(edge, row, col) / edge == row,
        field_index(edge, row, col) % edge == col,
{
    assert(edge * row + col < edge * edge && 0 <= edge * row && (edge * row + col) / edge == row
        && (edge * row + col) % edge == col) by (nonlinear_arith)
        requires
            0 <= row < edge,
            0 <= col < edge,
    ;
}

/// The fields of a line lie on the playboard.
pub proof fn lemma_line_on_board(edge: int, line: Line, k: int)
    requires
        line.on_board(edge),
        0 <= k < edge,
    ensures
        0 <= line.row_of(edge, k) < edge,
        0 <= line.col_of(edge, k) < edge,
        line.passes(edge, line.row_of(edge, k), line.col_of(edge, k)),
        0 <= field_index(edge, line.row_of(edge, k), line.col_of(edge, k)) < edge * edge,
{
    lemma_field_index(edge, line.row_of(edge, k), line.col_of(edge, k));
}

/// A move neither adds nor takes away a field.
pub proof fn lemma_cells_after_len(
    cells: Seq<Option<PlayerId>>,
    edge: int,
    row: int,
    col: int,
    player: PlayerId,
)
    requires
        cells.len() == edge * edge,
    ensures
        cells_after(cells, edge, row, col, player).len() == cells.len(),
{
    if 0 <= row < edge && 0 <= col < edge {
        lemma_field_index(edge, row, col);
    }
}

/// Two fields on the playboard that stand at the same place in the sequence
/// of fields are one field.
pub proof fn lemma_field_index_injective(edge: int, row1: int, col1: int, row2: int, col2: int)
    requires
        0 <= row1 < edge,
        0 <= col1 < edge,
        0 <= row2 < edge,
        0 <= col2 < edge,
        field_index(edge, row1, col1) == field_index(edge, row2, col2),
    ensures
        row1 == row2,
        col1 == col2,
{
    lemma_field_index(edge, row1, col1);
    lemma_field_index(edge, row2, col2);
}

/// A line through a field holds that field: its place on the line is
/// `line.place_of(row, col)`.
pub proof fn lemma_place_on_line(edge: int, line: Line, row: int, col: int)
    requires
        line.on_board(edge),
        line.passes(edge, row, col),
        0 <= row < edge,
        0 <= col < edge,
    ensures
        0 <= line.place_of(row, col) < edge,
        line.row_of(edge, line.place_of(row, col)) == row,
        line.col_of(edge, line.place_of(row, col)) == col,
{
}

/// A mark changes only the lines that run through its field: on every other
/// line the marks are those from before the move.
pub proof fn lemma_other_lines_keep_their_marks(
    cells: Seq<Option<PlayerId>>,
    edge: int,
    row: int,
    col: int,
    player: PlayerId,
    line: Line,
)
    requires
        edge >= 1,
        cells.len() == edge * edge,
        line.on_board(edge),
        !line.passes(edge, row, col),
    ensures
        forall|k: int|
            0 <= k < edge ==> line_mark(cells_after(cells, edge, row, col, player), edge, line, k)
                == #[trigger] line_mark(cells, edge, line, k),
        line_won(cells_after(cells, edge, row, col, player), edge, line) == line_won(
            cells,
            edge,
            line,
        ),
        line_open(cells_after(cells, edge, row, col, player), edge, line) == line_open(
            cells,
            edge,
            line,
        ),
{
    let after = cells_after(cells, edge, row, col, player);
    assert forall|k: int| 0 <= k < edge implies line_mark(after, edge, line, k)
        == #[trigger] line_mark(cells, edge, line, k) by {
        lemma_line_on_board(edge, line, k);
        if 0 <= row < edge && 0 <= col < edge {
            lemma_field_index(edge, row, col);
            if field_index(edge, line.row_of(edge, k), line.col_of(edge, k)) == field_index(
                edge,
                row,
                col,
            ) {
                lemma_field_index_injective(
                    edge,
                    line.row_of(edge, k),
                    line.col_of(edge, k),
                    row,
                    col,
                );
            }
        }
    }
    lemma_same_marks_same_line(cells, after, edge, line);
}

/// Whether a line is won, and whether it is open, rests on its marks alone.
pub proof fn lemma_same_marks_same_line(
    before: Seq<Option<PlayerId>>,
    after: Seq<Option<PlayerId>>,
    edge: int,
    line: Line,
)
    requires
        forall|k: int|
            0 <= k < edge ==> line_mark(after, edge, line, k) == #[trigger] line_mark(
                before,
                edge,
                line,
                k,
            ),
    ensures
        line_won(after, edge, line) == line_won(before, edge, line),
        line_open(after, edge, line) == line_open(before, edge, line),
        forall|player: PlayerId|
            line_has(after, edge, line, player) == line_has(before, edge, line, player),
        forall|player: PlayerId|
            line_won_by(after, edge, line, player) == line_won_by(before, edge, line, player),
{
    assert forall|player: PlayerId|
        line_won_by(after, edge, line, player) == line_won_by(before, edge, line, player) by {
        if line_won_by(before, edge, line, player) {
            assert forall|k: int| 0 <= k < edge implies (#[trigger] line_mark(
                after,
                edge,
                line,
                k,
            )) == Some(player) by {
                assert(line_mark(before, edge, line, k) == Some(player));
            }
        }
        if line_won_by(after, edge, line, player) {
            assert forall|k: int| 0 <= k < edge implies (#[trigger] line_mark(
                before,
                edge,
                line,
                k,
            )) == Some(player) by {
                assert(line_mark(after, edge, line, k) == Some(player));
            }
        }
    }
    assert forall|player: PlayerId|
        line_has(after, edge, line, player) == line_has(before, edge, line, player) by {
        if line_has(before, edge, line, player) {
            let k = choose|k: int|
                0 <= k < edge && (#[trigger] line_mark(before, edge, line, k)) == Some(player);
            assert(line_mark(after, edge, line, k) == Some(player));
        }
        if line_has(after, edge, line, player) {
            let k = choose|k: int|
                0 <= k < edge && (#[trigger] line_mark(after, edge, line, k)) == Some(player);
            assert(line_mark(before, edge, line, k) == Some(player));
        }
    }
}

/// To look at the lines through the new mark is enough: where no line was
/// won before an accepted move, a line of the playboard is won after it if
/// and only if one through the new mark is.
pub proof fn lemma_win_needs_new_mark(
    cells: Seq<Option<PlayerId>>,
    edge: int,
    row: int,
    col: int,
    player: PlayerId,
)
    requires
        edge >= 1,
        cells.len() == edge * edge,
        forall|line: Line| #[trigger] line.on_board(edge) ==> !line_won(cells, edge, line),
    ensures
        (exists|line: Line| #[trigger]
            line.on_board(edge) && line_won(
                cells_after(cells, edge, row, col, player),
                edge,
                line,
            )) <==> wins_at(cells_after(cells, edge, row, col, player), edge, row, col),
{
    let after = cells_after(cells, edge, row, col, player);
    if exists|line: Line| #[trigger] line.on_board(edge) && line_won(after, edge, line) {
        let line = choose|line: Line| #[trigger] line.on_board(edge) && line_won(after, edge, line);
        if !line.passes(edge, row, col) {
            lemma_other_lines_keep_their_marks(cells, edge, row, col, player, line);
        }
        assert(line.passes(edge, row, col));
    }
    if wins_at(after, edge, row, col) {
        let line = choose|line: Line|
            line.on_board(edge) && #[trigger] line.passes(edge, row, col) && line_won(
                after,
                edge,
                line,
            );
        assert(line.on_board(edge) && line_won(after, edge, line));
    }
}

/// A won line is an open line, so a move that wins is never a draw.
pub proof fn lemma_won_line_is_open(cells: Seq<Option<PlayerId>>, edge: int, line: Line)
    requires
        edge >= 1,
        line_won(cells, edge, line),
    ensures
        line_open(cells, edge, line),
{
    let winner = if line_won_by(cells, edge, line, PlayerId::Circle) {
        PlayerId::Circle
    } else {
        PlayerId::Cross
    };
    assert(line_won_by(cells, edge, line, winner));
    if line_has(cells, edge, line, winner.other()) {
        let k = choose|k: int|
            0 <= k < edge && (#[trigger] line_mark(cells, edge, line, k)) == Some(winner.other());
        assert(line_mark(cells, edge, line, k) == Some(winner));
    }
}

/// A draw is reported if and only if the move is accepted and leaves no line
/// of the whole playboard open.
pub proof fn lemma_draw_iff_no_line_open(
    cells: Seq<Option<PlayerId>>,
    edge: int,
    row: int,
    col: int,
    player: PlayerId,
)
    requires
        edge >= 1,
    ensures
        move_outcome(cells, edge, row, col, player) == Ok::<ValidMove, InvalidMove>(
            ValidMove::Draw,
        ) <==> (0 <= row < edge && 0 <= col < edge && cells[field_index(edge, row, col)] is None
            && is_draw(cells_after(cells, edge, row, col, player), edge)),
{
    let after = cells_after(cells, edge, row, col, player);
    if wins_at(after, edge, row, col) {
        let line = choose|line: Line|
            line.on_board(edge) && #[trigger] line.passes(edge, row, col) && line_won(
                after,
                edge,
                line,
            );
        lemma_won_line_is_open(after, edge, line);
        assert(line.on_board(edge) && line_open(after, edge, line));
        assert(!is_draw(after, edge));
    }
}

/// Every field of the line but the one at `place` holds the player's mark.
pub open spec fn line_lacks_only(
    cells: Seq<Option<PlayerId>>,
    edge: int,
    line: Line,
    place: int,
    player: PlayerId,
) -> bool {
    forall|k: int|
        0 <= k < edge && k != place ==> (#[trigger] line_mark(cells, edge, line, k)) == Some(
            player,
        )
}

/// Every mark on the playboard is a mark of `player` on the line.
pub open spec fn marks_only_on_line(
    cells: Seq<Option<PlayerId>>,
    edge: int,
    line: Line,
    player: PlayerId,
) -> bool {
    forall|row: int, col: int|
        0 <= row < edge && 0 <= col < edge && cells[#[trigger] field_index(edge, row, col)]
            is Some ==> line.passes(edge, row, col) && cells[field_index(edge, row, col)] == Some(
            player,
        )
}

/// Where one player fills one line and nothing else is marked, the move that
/// puts the last mark on the line wins, and every earlier move on the line
/// lets the round go on.
pub proof fn lemma_line_completion(
    cells: Seq<Option<PlayerId>>,
    edge: int,
    line: Line,
    place: int,
    player: PlayerId,
)
    requires
        edge >= 1,
        cells.len() == edge * edge,
        line.on_board(edge),
        0 <= place < edge,
        line_mark(cells, edge, line, place) is None,
        marks_only_on_line(cells, edge, line, player),
    ensures
        move_outcome(
            cells,
            edge,
            line.row_of(edge, place),
            line.col_of(edge, place),
            player,
        ) == Ok::<ValidMove, InvalidMove>(
            if line_lacks_only(cells, edge, line, place, player) {
                ValidMove::Win
            } else {
                ValidMove::Continue
            },
        ),
{
    let row = line.row_of(edge, place);
    let col = line.col_of(edge, place);
    lemma_line_on_board(edge, line, place);
    let after = cells_after(cells, edge, row, col, player);
    assert(after == cells.update(field_index(edge, row, col), Some(player)));
    // Whatever is marked after the move is marked by the player.
    assert forall|r: int, c: int| 0 <= r < edge && 0 <= c < edge implies after[#[trigger] field_index(
        edge,
        r,
        c,
    )] == (if r == row && c == col {
        Some(player)
    } else {
        cells[field_index(edge, r, c)]
    }) by {
        lemma_field_index(edge, r, c);
        if field_index(edge, r, c) == field_index(edge, row, col) {
            lemma_field_index_injective(edge, r, c, row, col);
        }
    }
    if line_lacks_only(cells, edge, line, place, player) {
        assert forall|k: int| 0 <= k < edge implies (#[trigger] line_mark(after, edge, line, k))
            == Some(player) by {
            lemma_line_on_board(edge, line, k);
            if k != place {
                assert(line_mark(cells, edge, line, k) == Some(player));
            }
        }
        assert(line_won_by(after, edge, line, player));
        assert(line.on_board(edge) && line.passes(edge, row, col) && line_won(after, edge, line));
    } else {
        let gap = choose|k: int|
            0 <= k < edge && k != place && (#[trigger] line_mark(cells, edge, line, k)) != Some(
                player,
            );
        lemma_line_on_board(edge, line, gap);
        assert(line_mark(after, edge, line, gap) is None);
        // The line holds no mark of the opponent, so it is open.
        assert(!line_has(after, edge, line, player.other())) by {
            assert forall|k: int| 0 <= k < edge implies (#[trigger] line_mark(
                after,
                edge,
                line,
                k,
            )) != Some(player.other()) by {
                lemma_line_on_board(edge, line, k);
            }
        }
        assert(line.on_board(edge) && line_open(after, edge, line));
        assert(!is_draw(after, edge));
        // Every line through the new mark still has an empty field.
        assert forall|other: Line|
            other.on_board(edge) && #[trigger] other.passes(edge, row, col) implies !line_won(
            after,
            edge,
            other,
        ) by {
            let free = if other == line {
                gap
            } else if other.place_of(row, col) == 0 {
                1
            } else {
                0
            };
            lemma_place_on_line(edge, other, row, col);
            lemma_line_on_board(edge, other, free);
            let r = other.row_of(edge, free);
            let c = other.col_of(edge, free);
            if other != line {
                assert(!line.passes(edge, r, c));
                assert(cells[field_index(edge, r, c)] is None);
            }
            assert(line_mark(after, edge, other, free) is None);
        }
        assert(!wins_at(after, edge, row, col));
    }
}

/// The fields after `player` has asked `times` times for the field at
/// `(row, col)`.
pub open spec fn cells_after_attempts(
    cells: Seq<Option<PlayerId>>,
    edge: int,
    row: int,
    col: int,
    player: PlayerId,
    times: nat,
) -> Seq<Option<PlayerId>>
    decreases times,
{
    if times == 0 {
        cells
    } else {
        cells_after(
            cells_after_attempts(cells, edge, row, col, player, (times - 1) as nat),
            edge,
            row,
            col,
            player,
        )
    }
}

/// A refused move changes nothing, however often it is tried: the playboard
/// stays as it was, and every further try is refused for the same reason.
pub proof fn lemma_refused_move_changes_nothing(
    cells: Seq<Option<PlayerId>>,
    edge: int,
    row: int,
    col: int,
    player: PlayerId,
    times: nat,
)
    requires
        move_outcome(cells, edge, row, col, player) is Err,
    ensures
        cells_after_attempts(cells, edge, row, col, player, times) == cells,
        move_outcome(
            cells_after_attempts(cells, edge, row, col, player, times),
            edge,
            row,
            col,
            player,
        ) == move_outcome(cells, edge, row, col, player),
    decreases times,
{
    if times > 0 {
        lemma_refused_move_changes_nothing(cells, edge, row, col, player, (times - 1) as nat);
    }
}

} // verus!
