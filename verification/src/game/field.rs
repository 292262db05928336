//! The classic game on three rows of three fields, played by naming a field
//! with two digits: the row and the column, counted from one.
use vstd::prelude::*;
use crate::game::PlayerId;
use crate::game::converters::chars_of;
use crate::game::converters::is_digit;
use crate::game::playboard;
use crate::game::playboard::bp_3_3;
use crate::game::playboard::Playboard as _;
use crate::game::playboard::rules::all_empty;
use crate::game::playboard::rules::cells_after;
use crate::game::playboard::rules::move_outcome;

verus! {

// ---- Reading the input ----
/// What is wrong with an input.
#[derive(Debug, PartialEq, Eq, Structural, Clone, Copy)]
pub enum ConvertError {
    /// The input is not made of two digits.
    InvalidInput,
    /// A digit names no row or column.
    InvalidRange,
}

/// The row or column that a character names, counted from one.
pub open spec fn coordinate_of(c: char) -> Result<usize, ConvertError> {
    if !is_digit(c) {
        Err(ConvertError::InvalidInput)
    } else if c as u32 - 0x30 < 1 || c as u32 - 0x30 > 3 {
        Err(ConvertError::InvalidRange)
    } else {
        Ok((c as u32 - 0x30) as usize)
    }
}

/// The field that an input names, by row and column, both counted from zero.
/// The input is two characters of one byte each; the first names the row and
/// is looked at first.
pub open spec fn coordinates_of(text: Seq<char>) -> Result<(usize, usize), ConvertError> {
    if text.len() != 2 || text[0] as u32 >= 0x80 || text[1] as u32 >= 0x80 {
        Err(ConvertError::InvalidInput)
    } else {
        match coordinate_of(text[0]) {
            Err(e) => Err(e),
            Ok(x) => match coordinate_of(text[1]) {
                Err(e) => Err(e),
                Ok(y) => Ok(((x - 1) as usize, (y - 1) as usize)),
            },
        }
    }
}

fn convert_input_to_coordinate(input: char) -> (res: Result<usize, ConvertError>)
    ensures
        res == coordinate_of(input),
{
    let code = input as u32;
    if code < 0x30 || code > 0x39 {
        return Err(ConvertError::InvalidInput);
    }
    let value = (code - 0x30) as usize;
    match value < 1 || value > 3 {
        true => Err(ConvertError::InvalidRange),
        false => Ok(value),
    }
}

fn convert_input_to_coordinates(input: &str) -> (res: Result<(usize, usize), ConvertError>)
    ensures
        res == coordinates_of(input@),
{
    let chars = chars_of(input);
    if chars.len() != 2 || chars[0] as u32 >= 0x80 || chars[1] as u32 >= 0x80 {
        return Err(ConvertError::InvalidInput);
    }
    let x = match convert_input_to_coordinate(chars[0]) {
        Ok(x) => x,
        Err(e) => {
            return Err(e);
        },
    };
    let y = match convert_input_to_coordinate(chars[1]) {
        Ok(y) => y,
        Err(e) => {
            return Err(e);
        },
    };
    Ok((x - 1, y - 1))
}

// ---- The field ----
/// Why a move was refused. A refused move leaves the field as it was.
#[derive(Debug, PartialEq, Eq, Structural, Clone, Copy)]
pub enum InvalidMove {
    /// The input is not made of two digits.
    InvalidInput,
    /// A digit names no row or column.
    InvalidRange,
    /// The field already holds a mark.
    AlreadyUsed,
}

/// What an accepted move led to.
#[derive(Debug, PartialEq, Eq, Structural, Clone, Copy)]
pub enum ValidMove {
    /// The round goes on.
    Continue,
    /// The round is over and nobody can win it any more.
    Draw,
    /// The move completed a line: the player who made it has won.
    Win,
}

/// What `player` is told after the input `text`, on a field with the given
/// marks.
pub open spec fn input_outcome(cells: Seq<Option<PlayerId>>, text: Seq<char>, player: PlayerId) -> Result<
    ValidMove,
    InvalidMove,
> {
    match coordinates_of(text) {
        Err(ConvertError::InvalidInput) => Err(InvalidMove::InvalidInput),
        Err(ConvertError::InvalidRange) => Err(InvalidMove::InvalidRange),
        Ok((x, y)) => match move_outcome(cells, 3, x as int, y as int, player) {
            Ok(playboard::ValidMove::Continue) => Ok(ValidMove::Continue),
            Ok(playboard::ValidMove::Draw) => Ok(ValidMove::Draw),
            Ok(playboard::ValidMove::Win) => Ok(ValidMove::Win),
            Err(playboard::InvalidMove::AlreadyUsed) => Err(InvalidMove::AlreadyUsed),
            Err(playboard::InvalidMove::InvalidRange) => Err(InvalidMove::InvalidRange),
        },
    }
}

/// The marks after the input `text` of `player`.
pub open spec fn cells_after_input(
    cells: Seq<Option<PlayerId>>,
    text: Seq<char>,
    player: PlayerId,
) -> Seq<Option<PlayerId>> {
    match coordinates_of(text) {
        Err(_) => cells,
        Ok((x, y)) => cells_after(cells, 3, x as int, y as int, player),
    }
}

/// The text that stands for a mark: `o`, `x`, or a blank for an empty field.
pub open spec fn mark_str(mark: Option<PlayerId>) -> Seq<char> {
    match mark {
        Some(PlayerId::Circle) => "o"@,
        Some(PlayerId::Cross) => "x"@,
        None => " "@,
    }
}

/// A row of the field in its picture: the marks between bars, with the number
/// of the row at both ends.
pub open spec fn row_picture(cells: Seq<Option<PlayerId>>, row: int, number: Seq<char>) -> Seq<char> {
    number + "│"@ + mark_str(cells[3 * row]) + "│"@ + mark_str(cells[3 * row + 1]) + "│"@
        + mark_str(cells[3 * row + 2]) + "│"@ + number + "\n"@
}

/// The picture of the field: its three rows, ruled off, between two rows of
/// column numbers.
pub open spec fn field_picture(cells: Seq<Option<PlayerId>>) -> Seq<char> {
    " │1│2│3│ \n"@ + "─┼─┼─┼─┼─\n"@ + row_picture(cells, 0, "1"@) + "─┼─┼─┼─┼─\n"@ + row_picture(
        cells,
        1,
        "2"@,
    ) + "─┼─┼─┼─┼─\n"@ + row_picture(cells, 2, "3"@) + "─┼─┼─┼─┼─\n"@ + " │1│2│3│ \n"@
}

/// The field of the classic game.
pub struct Field {
    fields: bp_3_3::Playboard,
}

fn field_to_str(field: bp_3_3::SingleField) -> (res: &'static str)
    ensures
        res@ == mark_str(field.field),
{
    match field.field {
        Some(x) => match x {
            PlayerId::Circle => "o",
            PlayerId::Cross => "x",
        },
        None => " ",
    }
}

impl Field {
    /// The marks on the nine fields, row after row.
    pub closed spec fn cells(&self) -> Seq<Option<PlayerId>> {
        self.fields.cells()
    }

    /// An empty field.
    pub fn new() -> (res: Field)
        ensures
            res.cells().len() == 9,
            all_empty(res.cells()),
    {
        Field { fields: bp_3_3::Playboard::new() }
    }

    /// Makes the move that the input names, if the input names a field and
    /// the field is empty, and says what the move led to.
    pub fn new_move(&mut self, input: &str, player_name: PlayerId) -> (res: Result<
        ValidMove,
        InvalidMove,
    >)
        ensures
            res == input_outcome(old(self).cells(), input@, player_name),
            final(self).cells() == cells_after_input(old(self).cells(), input@, player_name),
    {
        // Read the coordinates
        let (x, y) = match convert_input_to_coordinates(input) {
            Ok(k) => k,
            Err(e) => match e {
                ConvertError::InvalidInput => {
                    return Err(InvalidMove::InvalidInput);
                },
                ConvertError::InvalidRange => {
                    return Err(InvalidMove::InvalidRange);
                },
            },
        };
        match self.fields.new_move((x, y), player_name) {
            Ok(playboard::ValidMove::Continue) => Ok(ValidMove::Continue),
            Ok(playboard::ValidMove::Draw) => Ok(ValidMove::Draw),
            Ok(playboard::ValidMove::Win) => Ok(ValidMove::Win),
            Err(playboard::InvalidMove::AlreadyUsed) => Err(InvalidMove::AlreadyUsed),
            Err(playboard::InvalidMove::InvalidRange) => Err(InvalidMove::InvalidRange),
        }
    }

    /// One row of the picture.
    fn row_to_string(&self, out: &mut String, row: usize, number: &str)
        requires
            row < 3,
        ensures
            final(out)@ == old(out)@ + row_picture(self.cells(), row as int, number@),
    {
        let ghost start = out@;
        out.append(number);
        out.append("│");
        out.append(field_to_str(self.fields.fields[3 * row]));
        out.append("│");
        out.append(field_to_str(self.fields.fields[3 * row + 1]));
        out.append("│");
        out.append(field_to_str(self.fields.fields[3 * row + 2]));
        out.append("│");
        out.append(number);
        out.append("\n");
        assert(out@ =~= start + row_picture(self.cells(), row as int, number@));
    }

    /// The picture of the field as text.
    pub fn to_string(&self) -> (res: String)
        ensures
            res@ == field_picture(self.cells()),
    {
        let mut res = String::new();
        res.append(" │1│2│3│ \n");
        res.append("─┼─┼─┼─┼─\n");
        self.row_to_string(&mut res, 0, "1");
        res.append("─┼─┼─┼─┼─\n");
        self.row_to_string(&mut res, 1, "2");
        res.append("─┼─┼─┼─┼─\n");
        self.row_to_string(&mut res, 2, "3");
        res.append("─┼─┼─┼─┼─\n");
        res.append(" │1│2│3│ \n");
        assert(res@ =~= field_picture(self.cells()));
        res
    }
}

} // verus!
