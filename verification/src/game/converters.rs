//! Between the players' words and the playboard: how a player's message is
//! read as a position, and how a playboard is shown to a player.
use vstd::prelude::*;
use crate::game::PlayerId;
use crate::game::playboard::pb_n_n;
use crate::game::playboard::pb_n_n::mark_text;
use crate::game::playboard::rules::field_index;
use crate::game::playboard::rules::lemma_field_index;
use crate::game::playboard::Playboard;
use crate::game::player_manager::Delivery;
use crate::game::player_manager::MsgToPlayer;

verus! {

/// A message that names no position.
#[derive(Debug, PartialEq, Eq, Structural, Clone, Copy)]
pub struct ConversionError;

/// What reading a message gives: what was read, or the word that nothing was.
pub type ConversionResult<T> = Result<T, ConversionError>;

/// The characters of a text, one by one.
pub fn chars_of(text: &str) -> (res: Vec<char>)
    ensures
        res@ == text@,
{
    let mut res: Vec<char> = Vec::new();
    for c in iter: text.chars()
        invariant
            iter.seq() == text@,
            res@ == iter.seq().take(iter.index() as int),
    {
        res.push(c);
        assert(res@ =~= iter.seq().take(iter.index() + 1));
    }
    assert(res@ =~= text@);
    res
}

/// White space, as Unicode defines it.
pub open spec fn is_space(c: char) -> bool {
    let code = c as u32;
    ||| 0x09 <= code <= 0x0D
    ||| code == 0x20
    ||| code == 0x85
    ||| code == 0xA0
    ||| code == 0x1680
    ||| 0x2000 <= code <= 0x200A
    ||| code == 0x2028
    ||| code == 0x2029
    ||| code == 0x202F
    ||| code == 0x205F
    ||| code == 0x3000
}

/// One of the digits `0` to `9`.
pub open spec fn is_digit(c: char) -> bool {
    0x30 <= c as u32 <= 0x39
}

/// The text without the white space at its start and at its end.
pub open spec fn trimmed(text: Seq<char>) -> Seq<char>
    decreases text.len(),
{
    if text.len() > 0 && is_space(text.first()) {
        trimmed(text.drop_first())
    } else if text.len() > 0 && is_space(text.last()) {
        trimmed(text.drop_last())
    } else {
        text
    }
}

/// The number that a row of digits stands for, read in base ten.
pub open spec fn digits_value(digits: Seq<char>) -> nat
    decreases digits.len(),
{
    if digits.len() == 0 {
        0
    } else {
        (digits_value(digits.drop_last()) * 10 + (digits.last() as u32 - 0x30)) as nat
    }
}

/// The number that a row of at least one digit stands for; nothing else
/// stands for a number.
pub open spec fn digits_number(digits: Seq<char>) -> Option<nat> {
    if digits.len() > 0 && (forall|i: int| 0 <= i < digits.len() ==> is_digit(#[trigger] digits[i])) {
        Some(digits_value(digits))
    } else {
        None
    }
}

/// The number that a text stands for: the text is a row of at least one
/// digit, with or without a plus sign in front, and nothing else.
pub open spec fn number_in(text: Seq<char>) -> Option<nat> {
    if text.len() > 0 && text.first() == '+' {
        digits_number(text.drop_first())
    } else {
        digits_number(text)
    }
}

/// The row or column that a text names. Players count from one, the
/// playboard from zero. White space around the number is passed over.
pub open spec fn coordinate_in(text: Seq<char>) -> Option<usize> {
    match number_in(trimmed(text)) {
        Some(number) => if 1 <= number <= usize::MAX {
            Some((number - 1) as usize)
        } else {
            None
        },
        None => None,
    }
}

/// Where the first `separator` stands in the text, or the length of the text
/// if there is none.
pub open spec fn first_index(text: Seq<char>, separator: char) -> int
    decreases text.len(),
{
    if text.len() == 0 {
        0
    } else if text.first() == separator {
        0
    } else {
        1 + first_index(text.drop_first(), separator)
    }
}

/// The pieces into which the separator cuts the text.
pub open spec fn pieces(text: Seq<char>, separator: char) -> Seq<Seq<char>>
    decreases text.len(),
{
    let at = first_index(text, separator);
    if 0 <= at < text.len() {
        seq![text.take(at)] + pieces(text.skip(at + 1), separator)
    } else {
        seq![text]
    }
}

/// The position that a player's message names: the row, a hyphen, and the
/// column.
pub open spec fn position_in(text: Seq<char>) -> ConversionResult<(usize, usize)> {
    let parts = pieces(text, '-');
    if parts.len() == 2 && coordinate_in(parts[0]) is Some && coordinate_in(parts[1]) is Some {
        Ok((coordinate_in(parts[0])->0, coordinate_in(parts[1])->0))
    } else {
        Err(ConversionError)
    }
}

/// The first separator stands where the text says, and not before.
pub proof fn lemma_first_index(text: Seq<char>, separator: char)
    ensures
        0 <= first_index(text, separator) <= text.len(),
        first_index(text, separator) < text.len() ==> text[first_index(text, separator)]
            == separator,
        forall|i: int| 0 <= i < first_index(text, separator) ==> text[i] != separator,
    decreases text.len(),
{
    if text.len() > 0 && text.first() != separator {
        let rest = text.drop_first();
        lemma_first_index(rest, separator);
        assert forall|i: int| 0 <= i < first_index(text, separator) implies text[i]
            != separator by {
            if i > 0 {
                assert(text[i] == rest[i - 1]);
            }
        }
    }
}

/// A place before which no separator stands, and at which one stands or the
/// text ends, is where the first separator stands.
pub proof fn lemma_first_index_is(text: Seq<char>, separator: char, at: int)
    requires
        0 <= at <= text.len(),
        forall|i: int| 0 <= i < at ==> text[i] != separator,
        at < text.len() ==> text[at] == separator,
    ensures
        first_index(text, separator) == at,
{
    lemma_first_index(text, separator);
}

/// The text between `start` and `end` is the trimmed text, where white space
/// alone stands before `start` and from `end` on, and none at either end of
/// what lies between.
pub proof fn lemma_trimmed(text: Seq<char>, start: int, end: int)
    requires
        0 <= start <= end <= text.len(),
        forall|i: int| 0 <= i < start ==> is_space(#[trigger] text[i]),
        forall|i: int| end <= i < text.len() ==> is_space(#[trigger] text[i]),
        start < end ==> !is_space(text[start]) && !is_space(text[end - 1]),
    ensures
        trimmed(text) == text.subrange(start, end),
    decreases text.len(),
{
    if text.len() > 0 && is_space(text.first()) {
        let rest = text.drop_first();
        if start > 0 {
            assert forall|i: int| 0 <= i < start - 1 implies is_space(#[trigger] rest[i]) by {
                assert(rest[i] == text[i + 1]);
            }
            assert forall|i: int| end - 1 <= i < rest.len() implies is_space(
                #[trigger] rest[i],
            ) by {
                assert(rest[i] == text[i + 1]);
            }
            lemma_trimmed(rest, start - 1, end - 1);
            assert(rest.subrange(start - 1, end - 1) =~= text.subrange(start, end));
        } else {
            // Nothing lies between: the whole text is white space.
            assert(start == end);
            assert forall|i: int| 0 <= i < rest.len() implies is_space(#[trigger] rest[i]) by {
                assert(rest[i] == text[i + 1]);
            }
            lemma_trimmed(rest, 0, 0);
            assert(rest.subrange(0, 0) =~= text.subrange(start, end));
        }
    } else if text.len() > 0 && is_space(text.last()) {
        let rest = text.drop_last();
        assert(start == 0);
        assert(end < text.len());
        assert forall|i: int| end <= i < rest.len() implies is_space(#[trigger] rest[i]) by {
            assert(rest[i] == text[i]);
        }
        lemma_trimmed(rest, start, end);
        assert(rest.subrange(start, end) =~= text.subrange(start, end));
    } else {
        assert(start == 0);
        assert(end == text.len());
        assert(text.subrange(start, end) =~= text);
    }
}

/// A row of digits stands for at least as much as any row of digits that it
/// starts with.
pub proof fn lemma_digits_value_grows(digits: Seq<char>, shorter: int)
    requires
        0 <= shorter <= digits.len(),
        forall|i: int| 0 <= i < digits.len() ==> is_digit(#[trigger] digits[i]),
    ensures
        digits_value(digits.take(shorter)) <= digits_value(digits),
    decreases digits.len(),
{
    if shorter == digits.len() {
        assert(digits.take(shorter) =~= digits);
    } else {
        let front = digits.drop_last();
        lemma_digits_value_grows(front, shorter);
        assert(front.take(shorter) =~= digits.take(shorter));
    }
}

/// Whether a character is white space.
fn is_whitespace(c: char) -> (res: bool)
    ensures
        res == is_space(c),
{
    let code = c as u32;
    (0x09 <= code && code <= 0x0D) || code == 0x20 || code == 0x85 || code == 0xA0 || code == 0x1680
        || (0x2000 <= code && code <= 0x200A) || code == 0x2028 || code == 0x2029 || code
        == 0x202F || code == 0x205F || code == 0x3000
}

/// Reads the number that stands between `from` and `to`: a row of digits,
/// with or without a plus sign in front.
pub fn parse_number(input: &Vec<char>, from: usize, to: usize) -> (res: ConversionResult<usize>)
    requires
        from <= to <= input@.len(),
    ensures
        res is Ok <==> (number_in(input@.subrange(from as int, to as int)) matches Some(number)
            && number <= usize::MAX),
        res matches Ok(value) ==> number_in(input@.subrange(from as int, to as int)) == Some(
            value as nat,
        ),
{
    let ghost word = input@.subrange(from as int, to as int);
    // A plus sign may stand in front
    let first = if from < to && input[from] == '+' {
        from + 1
    } else {
        from
    };
    let ghost digits = input@.subrange(first as int, to as int);
    assert(digits =~= if word.len() > 0 && word.first() == '+' {
        word.drop_first()
    } else {
        word
    });
    assert(number_in(word) == digits_number(digits));
    if first == to {
        return Err(ConversionError);
    }
    let mut value: usize = 0;
    let mut at = first;
    while at < to
        invariant
            first <= at <= to <= input@.len(),
            digits == input@.subrange(first as int, to as int),
            word == input@.subrange(from as int, to as int),
            number_in(word) == digits_number(digits),
            forall|i: int| 0 <= i < at - first ==> is_digit(#[trigger] digits[i]),
            value == digits_value(digits.take(at - first)),
        decreases to - at,
    {
        let code = input[at] as u32;
        assert(digits[at - first] == input@[at as int]);
        if code < 0x30 || code > 0x39 {
            assert(!is_digit(digits[at - first]));
            return Err(ConversionError);
        }
        let digit = (code - 0x30) as usize;
        proof {
            assert(digits.take(at - first + 1).drop_last() =~= digits.take(at - first));
            assert(digits.take(at - first + 1).last() == digits[at - first]);
            assert(digits_value(digits.take(at - first + 1)) == value * 10 + digit);
        }
        let grown = match value.checked_mul(10) {
            Some(tenfold) => tenfold.checked_add(digit),
            None => None,
        };
        match grown {
            Some(next) => {
                value = next;
            },
            None => {
                // The number is too large, however it goes on
                proof {
                    assert(digits_value(digits.take(at - first + 1)) > usize::MAX);
                    if forall|i: int| 0 <= i < digits.len() ==> is_digit(#[trigger] digits[i]) {
                        lemma_digits_value_grows(digits, at - first + 1);
                    }
                }
                return Err(ConversionError);
            },
        }
        at += 1;
    }
    assert(digits.take(at - first) =~= digits);
    Ok(value)
}

/// Reads the number that stands between `from` and `to`, white space around
/// it apart.
fn convert_input_to_usize(input: &Vec<char>, from: usize, to: usize) -> (res: ConversionResult<
    usize,
>)
    requires
        from <= to <= input@.len(),
    ensures
        res is Ok <==> (number_in(trimmed(input@.subrange(from as int, to as int))) matches Some(
            number,
        ) && number <= usize::MAX),
        res matches Ok(value) ==> number_in(trimmed(input@.subrange(from as int, to as int)))
            == Some(value as nat),
{
    let ghost text = input@.subrange(from as int, to as int);
    // Pass over the white space at both ends
    let mut start = from;
    while start < to && is_whitespace(input[start])
        invariant
            from <= start <= to <= input@.len(),
            forall|i: int| from <= i < start ==> is_space(#[trigger] input@[i]),
        decreases to - start,
    {
        start += 1;
    }
    let mut end = to;
    while start < end && is_whitespace(input[end - 1])
        invariant
            start <= end <= to <= input@.len(),
            forall|i: int| end <= i < to ==> is_space(#[trigger] input@[i]),
        decreases end - start,
    {
        end -= 1;
    }
    proof {
        assert forall|i: int| 0 <= i < start - from implies is_space(#[trigger] text[i]) by {
            assert(text[i] == input@[from + i]);
        }
        assert forall|i: int| end - from <= i < text.len() implies is_space(#[trigger] text[i]) by {
            assert(text[i] == input@[from + i]);
        }
        lemma_trimmed(text, start - from, end - from);
        assert(text.subrange(start - from, end - from) =~= input@.subrange(
            start as int,
            end as int,
        ));
    }
    parse_number(input, start, end)
}

/// Reads the row or column that stands between `from` and `to`. Players
/// count from one, the playboard from zero.
fn get_position_from_string(input: &Vec<char>, from: usize, to: usize) -> (res: ConversionResult<
    usize,
>)
    requires
        from <= to <= input@.len(),
    ensures
        res is Ok <==> coordinate_in(input@.subrange(from as int, to as int)) is Some,
        res matches Ok(value) ==> coordinate_in(input@.subrange(from as int, to as int)) == Some(
            value,
        ),
{
    match convert_input_to_usize(input, from, to) {
        Ok(number) => match number.checked_sub(1) {
            Some(x) => Ok(x),
            None => Err(ConversionError),
        },
        Err(e) => Err(e),
    }
}

/// Where the first hyphen stands from `from` on, or the length of the input
/// if there is none.
fn find_hyphen(input: &Vec<char>, from: usize) -> (res: usize)
    requires
        from <= input@.len(),
    ensures
        from <= res <= input@.len(),
        res - from == first_index(input@.skip(from as int), '-'),
{
    let mut at = from;
    while at < input.len() && input[at] != '-'
        invariant
            from <= at <= input@.len(),
            forall|i: int| from <= i < at ==> input@[i] != '-',
        decreases input@.len() - at,
    {
        at += 1;
    }
    proof {
        let rest = input@.skip(from as int);
        assert forall|i: int| 0 <= i < at - from implies rest[i] != '-' by {
            assert(rest[i] == input@[from + i]);
        }
        lemma_first_index_is(rest, '-', at - from);
    }
    at
}

/// Reads the position that a player's message names: the row, a hyphen, and
/// the column, both counted from one. The position comes back counted from
/// zero, row first.
pub fn pm_tcp_msg_to_x_y(input: &str) -> (res: ConversionResult<(usize, usize)>)
    ensures
        res == position_in(input@),
{
    let chars = chars_of(input);
    let ghost text = chars@;
    let len = chars.len();
    let hyphen = find_hyphen(&chars, 0);
    assert(text.skip(0) =~= text);
    if hyphen == len {
        // One piece only
        return Err(ConversionError);
    }
    let ghost rest = text.skip(hyphen + 1);
    let second = find_hyphen(&chars, hyphen + 1);
    assert(text.take(hyphen as int) =~= text.subrange(0, hyphen as int));
    assert(pieces(text, '-') == seq![text.take(hyphen as int)] + pieces(rest, '-'));
    if second != len {
        // Three pieces or more
        assert(pieces(rest, '-').len() >= 2) by {
            let at = first_index(rest, '-');
            assert(pieces(rest, '-') == seq![rest.take(at)] + pieces(rest.skip(at + 1), '-'));
            lemma_pieces_len(rest.skip(at + 1), '-');
        }
        return Err(ConversionError);
    }
    assert(pieces(rest, '-') == seq![rest]);
    assert(rest =~= text.subrange(hyphen + 1, len as int));
    assert(pieces(text, '-') =~= seq![text.take(hyphen as int), rest]);
    let x = match get_position_from_string(&chars, 0, hyphen) {
        Ok(value) => value,
        Err(e) => {
            return Err(e);
        },
    };
    let y = match get_position_from_string(&chars, hyphen + 1, len) {
        Ok(value) => value,
        Err(e) => {
            return Err(e);
        },
    };
    Ok((x, y))
}

/// A text has at least one piece.
pub proof fn lemma_pieces_len(text: Seq<char>, separator: char)
    ensures
        pieces(text, separator).len() >= 1,
{
}

/// The parts in a row, with the separator between each two of them.
pub open spec fn joined(parts: Seq<Seq<char>>, separator: Seq<char>) -> Seq<char>
    decreases parts.len(),
{
    if parts.len() == 0 {
        Seq::empty()
    } else if parts.len() == 1 {
        parts[0]
    } else {
        joined(parts.drop_last(), separator) + separator + parts.last()
    }
}

/// The texts that a list of strings holds.
pub open spec fn texts(parts: Seq<String>) -> Seq<Seq<char>> {
    parts.map_values(|part: String| part@)
}

/// The character for a digit.
pub open spec fn digit_char(digit: int) -> char {
    ((0x30 + digit) as u8) as char
}

/// A number written in base ten.
pub open spec fn decimal(number: nat) -> Seq<char>
    decreases number,
{
    if number < 10 {
        seq![digit_char(number as int)]
    } else {
        decimal(number / 10).push(digit_char((number % 10) as int))
    }
}

/// As many hyphens as asked for, each a text of its own.
pub open spec fn dashes(count: nat) -> Seq<Seq<char>> {
    Seq::new(count, |i: int| seq!['-'])
}

/// What stands between two rows of the picture of a playboard: a line of
/// hyphens and bars, on a line of its own.
pub open spec fn rows_separator(edge: int) -> Seq<char> {
    seq!['\r', '\n'] + joined(dashes((edge + 2) as nat), seq!['|']) + seq!['\r', '\n']
}

/// The numbers of the columns, counted from one.
pub open spec fn column_numbers(edge: int) -> Seq<Seq<char>> {
    Seq::new(edge as nat, |x: int| decimal((x + 1) as nat))
}

/// The row that heads and ends the picture of a playboard: the numbers of the
/// columns between bars.
pub open spec fn column_indexes(edge: int) -> Seq<char> {
    seq![' ', '|'] + joined(column_numbers(edge), seq!['|']) + seq!['|', ' ']
}

/// The marks of a row of the playboard, each as text.
pub open spec fn row_marks(cells: Seq<Option<PlayerId>>, edge: int, row: int) -> Seq<Seq<char>> {
    Seq::new(edge as nat, |col: int| mark_text(cells[field_index(edge, row, col)]))
}

/// A row of the playboard in the picture: its marks between bars, with the
/// number of the row, counted from one, at both ends.
pub open spec fn row_text(cells: Seq<Option<PlayerId>>, edge: int, row: int) -> Seq<char> {
    decimal((row + 1) as nat) + seq!['|'] + joined(row_marks(cells, edge, row), seq!['|'])
        + seq!['|'] + decimal((row + 1) as nat)
}

/// The rows of the picture of a playboard: the rows of the playboard between
/// two rows of column numbers.
pub open spec fn board_rows(cells: Seq<Option<PlayerId>>, edge: int) -> Seq<Seq<char>> {
    seq![column_indexes(edge)] + Seq::new(edge as nat, |row: int| row_text(cells, edge, row))
        + seq![column_indexes(edge)]
}

/// The picture of a playboard as text.
pub open spec fn board_text(cells: Seq<Option<PlayerId>>, edge: int) -> Seq<char> {
    joined(board_rows(cells, edge), rows_separator(edge))
}

/// Adding a part to a row of parts adds the separator, unless the part is the
/// first, and the part.
pub proof fn lemma_joined_push(parts: Seq<Seq<char>>, separator: Seq<char>, part: Seq<char>)
    ensures
        joined(parts.push(part), separator) == if parts.len() == 0 {
            part
        } else {
            joined(parts, separator) + separator + part
        },
{
    assert(parts.push(part).drop_last() =~= parts);
    if parts.len() == 0 {
        assert(Seq::<char>::empty() + separator + part =~= separator + part);
    }
}

/// Puts the parts in a row, with the separator between each two of them.
pub fn join_strings(parts: &Vec<String>, separator: &str) -> (res: String)
    ensures
        res@ == joined(texts(parts@), separator@),
{
    let mut res = String::new();
    let mut count: usize = 0;
    while count < parts.len()
        invariant
            count <= parts@.len(),
            res@ == joined(texts(parts@).take(count as int), separator@),
        decreases parts@.len() - count,
    {
        proof {
            lemma_joined_push(texts(parts@).take(count as int), separator@, parts@[count as int]@);
            assert(texts(parts@).take(count as int).push(parts@[count as int]@) =~= texts(
                parts@,
            ).take(count + 1));
        }
        if count > 0 {
            res.append(separator);
        }
        res.append(parts[count].as_str());
        assert(count == 0 ==> res@ =~= parts@[count as int]@);
        count += 1;
    }
    assert(texts(parts@).take(count as int) =~= texts(parts@));
    res
}

/// The text of one digit.
fn digit_text(digit: usize) -> (res: &'static str)
    requires
        digit < 10,
    ensures
        res@ == seq![digit_char(digit as int)],
{
    proof {
        reveal_strlit("0");
        reveal_strlit("1");
        reveal_strlit("2");
        reveal_strlit("3");
        reveal_strlit("4");
        reveal_strlit("5");
        reveal_strlit("6");
        reveal_strlit("7");
        reveal_strlit("8");
        reveal_strlit("9");
    }
    let res = match digit {
        0 => "0",
        1 => "1",
        2 => "2",
        3 => "3",
        4 => "4",
        5 => "5",
        6 => "6",
        7 => "7",
        8 => "8",
        _ => "9",
    };
    assert(res@ =~= seq![digit_char(digit as int)]);
    res
}

/// Writes a number in base ten.
pub fn decimal_text(number: usize) -> (res: String)
    ensures
        res@ == decimal(number as nat),
    decreases number,
{
    if number < 10 {
        digit_text(number).to_owned()
    } else {
        let mut res = decimal_text(number / 10);
        res.append(digit_text(number % 10));
        assert(res@ =~= decimal(number as nat));
        res
    }
}

/// A string added to a list adds its text to the texts of the list.
pub proof fn lemma_texts_push(parts: Seq<String>, part: String)
    ensures
        texts(parts.push(part)) == texts(parts).push(part@),
{
    assert(texts(parts.push(part)) =~= texts(parts).push(part@));
}

/// The line that stands between two rows of the picture of a playboard.
fn rows_separator_text(edge: usize) -> (res: String)
    requires
        edge + 2 <= usize::MAX,
    ensures
        res@ == rows_separator(edge as int),
{
    proof {
        reveal_strlit("-");
        reveal_strlit("|");
        reveal_strlit("\r\n");
        assert("-"@ =~= seq!['-']);
        assert("|"@ =~= seq!['|']);
        assert("\r\n"@ =~= seq!['\r', '\n']);
    }
    let mut hyphens: Vec<String> = Vec::new();
    let mut count: usize = 0;
    assert(texts(hyphens@) =~= dashes(0));
    while count < edge + 2
        invariant
            count <= edge + 2 <= usize::MAX,
            "-"@ == seq!['-'],
            texts(hyphens@) == dashes(count as nat),
        decreases edge + 2 - count,
    {
        let hyphen = "-".to_owned();
        proof {
            lemma_texts_push(hyphens@, hyphen);
            assert(dashes(count as nat).push(seq!['-']) =~= dashes((count + 1) as nat));
        }
        hyphens.push(hyphen);
        count += 1;
    }
    let mut res = "\r\n".to_owned();
    res.append(join_strings(&hyphens, "|").as_str());
    res.append("\r\n");
    res
}

/// The row that heads and ends the picture of a playboard.
fn column_indexes_text(edge: usize) -> (res: String)
    ensures
        res@ == column_indexes(edge as int),
{
    proof {
        reveal_strlit("|");
        reveal_strlit(" |");
        reveal_strlit("| ");
        assert("|"@ =~= seq!['|']);
        assert(" |"@ =~= seq![' ', '|']);
        assert("| "@ =~= seq!['|', ' ']);
    }
    let mut numbers: Vec<String> = Vec::new();
    let mut x: usize = 0;
    assert(texts(numbers@) =~= column_numbers(0));
    while x < edge
        invariant
            x <= edge,
            texts(numbers@) == column_numbers(x as int),
        decreases edge - x,
    {
        let number = decimal_text(x + 1);
        proof {
            lemma_texts_push(numbers@, number);
            assert(column_numbers(x as int).push(decimal((x + 1) as nat)) =~= column_numbers(
                x + 1,
            ));
        }
        numbers.push(number);
        x += 1;
    }
    let mut res = " |".to_owned();
    res.append(join_strings(&numbers, "|").as_str());
    res.append("| ");
    res
}

/// A row of the playboard as it stands in the picture.
fn row_to_string(playboard: &pb_n_n::Playboard, index: usize) -> (res: String)
    requires
        playboard.wf(),
        index < playboard.edge_size,
    ensures
        res@ == row_text(playboard.cells(), playboard.edge(), index as int),
{
    let edge = playboard.edge_size;
    let ghost cells = playboard.cells();
    proof {
        reveal_strlit("|");
        assert("|"@ =~= seq!['|']);
    }
    let mut marks: Vec<String> = Vec::new();
    let mut col: usize = 0;
    assert(texts(marks@) =~= Seq::new(
        0,
        |c: int| mark_text(cells[field_index(edge as int, index as int, c)]),
    ));
    while col < edge
        invariant
            col <= edge,
            index < edge,
            edge == playboard.edge_size,
            cells == playboard.cells(),
            playboard.wf(),
            texts(marks@) == Seq::new(
                col as nat,
                |c: int| mark_text(cells[field_index(edge as int, index as int, c)]),
            ),
        decreases edge - col,
    {
        proof {
            lemma_field_index(edge as int, index as int, col as int);
            assert(0 <= edge * index) by (nonlinear_arith);
            assert(field_index(edge as int, index as int, col as int) == edge * index + col);
        }
        let mark = playboard.fields[edge * index + col].to_string();
        proof {
            lemma_texts_push(marks@, mark);
            assert(Seq::new(
                col as nat,
                |c: int| mark_text(cells[field_index(edge as int, index as int, c)]),
            ).push(mark@) =~= Seq::new(
                (col + 1) as nat,
                |c: int| mark_text(cells[field_index(edge as int, index as int, c)]),
            ));
        }
        marks.push(mark);
        col += 1;
    }
    let middle = join_strings(&marks, "|");
    let number = decimal_text(index + 1);
    let mut res = decimal_text(index + 1);
    res.append("|");
    res.append(middle.as_str());
    res.append("|");
    res.append(number.as_str());
    res
}

/// Shows a playboard as text: its rows between two rows of column numbers,
/// with a line of hyphens and bars between each two rows. Rows and columns
/// are numbered from one.
pub fn pb_n_n_to_string(playboard: &pb_n_n::Playboard) -> (res: String)
    requires
        playboard.wf(),
    ensures
        res@ == board_text(playboard.cells(), playboard.edge()),
{
    let edge = playboard.edge_size;
    let ghost cells = playboard.cells();
    proof {
        assert(edge + 2 <= usize::MAX) by (nonlinear_arith)
            requires
                edge * edge <= usize::MAX,
                usize::MAX >= 0xffff_ffff,
        ;
    }
    let rows_separator = rows_separator_text(edge);
    let mut rows: Vec<String> = Vec::new();
    let ghost head = seq![column_indexes(edge as int)];
    let heading = column_indexes_text(edge);
    proof {
        lemma_texts_push(rows@, heading);
        assert(texts(rows@).push(heading@) =~= head + Seq::new(
            0,
            |row: int| row_text(cells, edge as int, row),
        ));
    }
    rows.push(heading);

    // The rows of the playboard
    let mut index: usize = 0;
    while index < edge
        invariant
            index <= edge,
            edge == playboard.edge_size,
            cells == playboard.cells(),
            playboard.wf(),
            head == seq![column_indexes(edge as int)],
            texts(rows@) == head + Seq::new(
                index as nat,
                |row: int| row_text(cells, edge as int, row),
            ),
        decreases edge - index,
    {
        let row = row_to_string(playboard, index);
        proof {
            lemma_texts_push(rows@, row);
            assert((head + Seq::new(index as nat, |row: int| row_text(cells, edge as int, row))).push(
                row@,
            ) =~= head + Seq::new((index + 1) as nat, |row: int| row_text(cells, edge as int, row)));
        }
        rows.push(row);
        index += 1;
    }
    let ending = column_indexes_text(edge);
    proof {
        lemma_texts_push(rows@, ending);
        assert(texts(rows@).push(ending@) =~= board_rows(cells, edge as int));
    }
    rows.push(ending);
    join_strings(&rows, rows_separator.as_str())
}

/// Shows playboards of any edge size as text.
pub struct TextRenderer;

impl BoardRenderer<pb_n_n::Playboard> for TextRenderer {
    type FieldRepresentation = String;

    open spec fn picture(cells: Seq<Option<PlayerId>>, edge: int) -> Seq<char> {
        board_text(cells, edge)
    }

    fn render(&self, playboard: &pb_n_n::Playboard) -> (res: String) {
        pb_n_n_to_string(playboard)
    }
}

/// A way to show a playboard to a player.
pub trait BoardRenderer<B: Playboard> {
    /// The form in which the playboard is shown.
    type FieldRepresentation: View;

    /// What a playboard with the given marks and edge size looks like.
    spec fn picture(cells: Seq<Option<PlayerId>>, edge: int) -> <Self::FieldRepresentation as View>::V;

    /// Shows the playboard as it stands.
    fn render(&self, playboard: &B) -> (res: Self::FieldRepresentation)
        requires
            playboard.wf(),
        ensures
            res@ == Self::picture(playboard.cells(), playboard.edge()),
    ;
}

/// A message in which a playboard stands as its marks, with the playboard
/// shown as the renderer `R` shows it.
pub open spec fn picture_of<B: Playboard, R: BoardRenderer<B>>(
    msg: MsgToPlayer<Seq<Option<PlayerId>>>,
    edge: int,
) -> MsgToPlayer<<R::FieldRepresentation as View>::V> {
    match msg {
        MsgToPlayer::WelcomePlayer => MsgToPlayer::WelcomePlayer,
        MsgToPlayer::WaitingForOtherPlayer => MsgToPlayer::WaitingForOtherPlayer,
        MsgToPlayer::PlayersAreReady => MsgToPlayer::PlayersAreReady,
        MsgToPlayer::OtherPlayerLeave => MsgToPlayer::OtherPlayerLeave,
        MsgToPlayer::YourAreOnMove => MsgToPlayer::YourAreOnMove,
        MsgToPlayer::OtherPlayerIsOnMove => MsgToPlayer::OtherPlayerIsOnMove,
        MsgToPlayer::InvalidInput => MsgToPlayer::InvalidInput,
        MsgToPlayer::AlreadyTaken => MsgToPlayer::AlreadyTaken,
        MsgToPlayer::YouAreNotOnMove => MsgToPlayer::YouAreNotOnMove,
        MsgToPlayer::YouWon => MsgToPlayer::YouWon,
        MsgToPlayer::YouLose => MsgToPlayer::YouLose,
        MsgToPlayer::Draw => MsgToPlayer::Draw,
        MsgToPlayer::Playboard(cells) => MsgToPlayer::Playboard(R::picture(cells, edge)),
    }
}

/// A list of messages in which a playboard stands as its marks, with each
/// playboard shown as the renderer `R` shows it.
pub open spec fn pictured<B: Playboard, R: BoardRenderer<B>>(
    notices: Seq<Delivery<Seq<Option<PlayerId>>>>,
    edge: int,
) -> Seq<Delivery<<R::FieldRepresentation as View>::V>> {
    notices.map_values(
        |notice: Delivery<Seq<Option<PlayerId>>>|
            Delivery { to: notice.to, msg: picture_of::<B, R>(notice.msg, edge) },
    )
}

} // verus!
