use noughts_and_crosses::game::converters::pb_n_n_to_string;
use noughts_and_crosses::game::playboard::bp_3_3;
use noughts_and_crosses::game::playboard::pb_n_n;
use noughts_and_crosses::game::playboard::rules::Line;
use noughts_and_crosses::game::playboard::InvalidMove;
use noughts_and_crosses::game::playboard::Playboard;
use noughts_and_crosses::game::playboard::ValidMove;
use noughts_and_crosses::game::PlayerId;

fn board(edge: usize) -> pb_n_n::Playboard {
    match pb_n_n::Playboard::new(edge) {
        Ok(board) => board,
        Err(_) => panic!("a playboard of edge size {} can be built", edge),
    }
}

fn marks(board: &pb_n_n::Playboard) -> Vec<Option<PlayerId>> {
    board.fields.iter().map(|f| f.field).collect()
}

fn marks_3_3(board: &bp_3_3::Playboard) -> Vec<Option<PlayerId>> {
    board.fields.iter().map(|f| f.field).collect()
}

/// Plays the positions in turn for one player on an otherwise empty board and
/// expects a win on the last of them and no earlier.
fn fills_line(edge: usize, line: Vec<(usize, usize)>, player: PlayerId) {
    let mut b = board(edge);
    let last = line.len() - 1;
    for (n, position) in line.into_iter().enumerate() {
        let outcome = b.new_move(position, player);
        if n == last {
            assert_eq!(outcome, Ok(ValidMove::Win));
        } else {
            assert_eq!(outcome, Ok(ValidMove::Continue));
        }
    }
}

#[test]
fn valid_case() {
    let playboard = pb_n_n::Playboard::new(5).unwrap();
    println!();
    println!();

    println!("{}", pb_n_n_to_string(&playboard));
}

#[test]
fn new_playboard_is_empty() {
    for edge in 1..=6 {
        let b = board(edge);
        assert_eq!(b.edge_size, edge);
        assert_eq!(b.fields.len(), edge * edge);
        assert!(b.fields.iter().all(|f| f.field.is_none()));
    }
}

#[test]
fn playboard_with_uncountable_fields_is_refused() {
    assert!(pb_n_n::Playboard::new(usize::MAX).is_err());
    assert!(pb_n_n::Playboard::new(usize::MAX / 2).is_err());
    match pb_n_n::Playboard::new(usize::MAX) {
        Err(e) => assert_eq!(e.to_string(), "Playboard nxn is to big"),
        Ok(_) => panic!("the playboard cannot be built"),
    }
}

#[test]
fn row_completed_by_circle_wins() {
    let mut b = board(3);
    assert_eq!(b.new_move((0, 0), PlayerId::Circle), Ok(ValidMove::Continue));
    assert_eq!(b.new_move((1, 1), PlayerId::Cross), Ok(ValidMove::Continue));
    assert_eq!(b.new_move((0, 1), PlayerId::Circle), Ok(ValidMove::Continue));
    assert_eq!(b.new_move((2, 2), PlayerId::Cross), Ok(ValidMove::Continue));
    assert_eq!(b.new_move((0, 2), PlayerId::Circle), Ok(ValidMove::Win));
}

#[test]
fn full_grid_without_line_is_a_draw() {
    let mut b = board(3);
    let moves = [
        ((0, 0), PlayerId::Circle),
        ((0, 1), PlayerId::Cross),
        ((0, 2), PlayerId::Circle),
        ((1, 1), PlayerId::Cross),
        ((1, 0), PlayerId::Circle),
        ((1, 2), PlayerId::Cross),
        ((2, 1), PlayerId::Circle),
        ((2, 0), PlayerId::Cross),
    ];
    for (position, player) in moves {
        let outcome = b.new_move(position, player);
        assert!(outcome == Ok(ValidMove::Continue) || outcome == Ok(ValidMove::Draw));
    }
    assert_eq!(b.new_move((2, 2), PlayerId::Circle), Ok(ValidMove::Draw));
}

#[test]
fn draw_is_told_as_soon_as_no_line_is_open() {
    // After these moves every row, column and diagonal holds both marks,
    // though two fields are still empty.
    let mut b = board(3);
    assert_eq!(b.new_move((0, 0), PlayerId::Circle), Ok(ValidMove::Continue));
    assert_eq!(b.new_move((0, 1), PlayerId::Cross), Ok(ValidMove::Continue));
    assert_eq!(b.new_move((0, 2), PlayerId::Circle), Ok(ValidMove::Continue));
    assert_eq!(b.new_move((1, 1), PlayerId::Cross), Ok(ValidMove::Continue));
    assert_eq!(b.new_move((1, 0), PlayerId::Circle), Ok(ValidMove::Continue));
    assert_eq!(b.new_move((1, 2), PlayerId::Cross), Ok(ValidMove::Continue));
    assert_eq!(b.new_move((2, 1), PlayerId::Circle), Ok(ValidMove::Continue));
    assert_eq!(b.new_move((2, 0), PlayerId::Cross), Ok(ValidMove::Draw));
}

#[test]
fn position_outside_the_playboard_is_refused() {
    let mut b = board(3);
    let before = marks(&b);
    assert_eq!(b.new_move((3, 0), PlayerId::Circle), Err(InvalidMove::InvalidRange));
    assert_eq!(b.new_move((0, 3), PlayerId::Circle), Err(InvalidMove::InvalidRange));
    assert_eq!(b.new_move((usize::MAX, usize::MAX), PlayerId::Cross), Err(InvalidMove::InvalidRange));
    assert_eq!(marks(&b), before);
}

#[test]
fn range_is_checked_before_the_field() {
    let mut b = board(2);
    assert_eq!(b.new_move((0, 0), PlayerId::Circle), Ok(ValidMove::Continue));
    // (0, 2) would fall on the field (1, 0) if the column were not checked
    assert_eq!(b.new_move((0, 2), PlayerId::Cross), Err(InvalidMove::InvalidRange));
    assert_eq!(marks(&b), vec![Some(PlayerId::Circle), None, None, None]);
}

#[test]
fn taken_field_is_refused_however_often() {
    let mut b = board(3);
    assert_eq!(b.new_move((1, 2), PlayerId::Circle), Ok(ValidMove::Continue));
    let before = marks(&b);
    for _ in 0..5 {
        assert_eq!(b.new_move((1, 2), PlayerId::Cross), Err(InvalidMove::AlreadyUsed));
        assert_eq!(b.new_move((1, 2), PlayerId::Circle), Err(InvalidMove::AlreadyUsed));
        assert_eq!(marks(&b), before);
    }
    assert_eq!(before[5], Some(PlayerId::Circle));
}

#[test]
fn accepted_move_marks_one_field() {
    let mut b = board(4);
    assert_eq!(b.new_move((2, 1), PlayerId::Cross), Ok(ValidMove::Continue));
    let mut expected = vec![None; 16];
    expected[9] = Some(PlayerId::Cross);
    assert_eq!(marks(&b), expected);
}

#[test]
fn single_field_playboard_is_won_at_once() {
    let mut b = board(1);
    assert_eq!(b.new_move((0, 0), PlayerId::Cross), Ok(ValidMove::Win));
    assert_eq!(b.new_move((0, 0), PlayerId::Circle), Err(InvalidMove::AlreadyUsed));
    assert_eq!(b.new_move((1, 0), PlayerId::Circle), Err(InvalidMove::InvalidRange));
}

#[test]
fn every_row_and_column_can_be_won() {
    for edge in 2..=5 {
        for at in 0..edge {
            fills_line(edge, (0..edge).map(|k| (at, k)).collect(), PlayerId::Circle);
            fills_line(edge, (0..edge).map(|k| (k, at)).collect(), PlayerId::Cross);
            fills_line(edge, (0..edge).rev().map(|k| (at, k)).collect(), PlayerId::Cross);
        }
    }
}

#[test]
fn diagonals_are_won_on_odd_edge_sizes() {
    for edge in [3, 5, 7] {
        fills_line(edge, (0..edge).map(|k| (k, k)).collect(), PlayerId::Circle);
        fills_line(edge, (0..edge).map(|k| (k, edge - 1 - k)).collect(), PlayerId::Cross);
    }
}

#[test]
fn diagonals_do_not_count_on_even_edge_sizes() {
    for edge in [2, 4, 6] {
        let mut b = board(edge);
        for k in 0..edge {
            assert_eq!(b.new_move((k, k), PlayerId::Circle), Ok(ValidMove::Continue));
        }
        let mut b = board(edge);
        for k in 0..edge {
            assert_eq!(b.new_move((k, edge - 1 - k), PlayerId::Cross), Ok(ValidMove::Continue));
        }
    }
}

#[test]
fn draw_on_even_edge_size_looks_at_rows_and_columns_only() {
    let mut b = board(2);
    assert_eq!(b.new_move((0, 0), PlayerId::Circle), Ok(ValidMove::Continue));
    assert_eq!(b.new_move((0, 1), PlayerId::Cross), Ok(ValidMove::Continue));
    // Circle now holds a whole diagonal, which is no line here
    assert_eq!(b.new_move((1, 1), PlayerId::Circle), Ok(ValidMove::Continue));
    // Both rows and both columns now hold both marks
    assert_eq!(b.new_move((1, 0), PlayerId::Cross), Ok(ValidMove::Draw));
}

#[test]
fn win_comes_before_draw() {
    // The last move fills the playboard and completes the middle column.
    let mut b = board(3);
    let moves = [
        ((0, 0), PlayerId::Cross),
        ((0, 1), PlayerId::Circle),
        ((0, 2), PlayerId::Cross),
        ((1, 0), PlayerId::Cross),
        ((1, 1), PlayerId::Circle),
        ((1, 2), PlayerId::Cross),
        ((2, 0), PlayerId::Circle),
        ((2, 2), PlayerId::Circle),
    ];
    for (position, player) in moves {
        b.new_move(position, player).unwrap();
    }
    assert_eq!(b.new_move((2, 1), PlayerId::Circle), Ok(ValidMove::Win));
}

#[test]
fn reset_clears_every_field() {
    let mut b = board(3);
    b.new_move((0, 0), PlayerId::Circle).unwrap();
    b.new_move((2, 1), PlayerId::Cross).unwrap();
    b.reset();
    assert_eq!(b.edge_size, 3);
    assert_eq!(marks(&b), vec![None; 9]);
    assert_eq!(b.new_move((0, 0), PlayerId::Cross), Ok(ValidMove::Continue));
}

#[test]
fn line_index_follows_the_line() {
    assert_eq!(pb_n_n::line_index(3, Line::Row(1), 2), 5);
    assert_eq!(pb_n_n::line_index(3, Line::Column(1), 2), 7);
    assert_eq!(pb_n_n::line_index(3, Line::MainDiagonal, 1), 4);
    assert_eq!(pb_n_n::line_index(3, Line::AntiDiagonal, 0), 2);
    assert_eq!(pb_n_n::line_index(3, Line::AntiDiagonal, 2), 6);
    assert_eq!(pb_n_n::line_index(5, Line::AntiDiagonal, 1), 8);
}

#[test]
fn single_field_knows_its_user() {
    let empty = pb_n_n::SingleField::new();
    assert!(empty.field.is_none());
    assert!(!empty.used_by_user(&PlayerId::Circle));
    assert_eq!(empty.to_string(), " ");
    let circle = pb_n_n::SingleField { field: Some(PlayerId::Circle) };
    assert!(circle.used_by_user(&PlayerId::Circle));
    assert!(!circle.used_by_user(&PlayerId::Cross));
    assert_eq!(circle.to_string(), "o");
    let cross = pb_n_n::SingleField { field: Some(PlayerId::Cross) };
    assert_eq!(cross.to_string(), "x");
    let three = bp_3_3::SingleField { field: Some(PlayerId::Cross) };
    assert!(three.used_by_user(&PlayerId::Cross));
    assert!(!bp_3_3::SingleField::new().used_by_user(&PlayerId::Cross));
}

#[test]
fn three_by_three_row_wins() {
    let mut b = bp_3_3::Playboard::new();
    assert!(marks_3_3(&b).iter().all(|m| m.is_none()));
    assert_eq!(b.new_move((0, 0), PlayerId::Circle), Ok(ValidMove::Continue));
    assert_eq!(b.new_move((1, 1), PlayerId::Cross), Ok(ValidMove::Continue));
    assert_eq!(b.new_move((0, 1), PlayerId::Circle), Ok(ValidMove::Continue));
    assert_eq!(b.new_move((2, 2), PlayerId::Cross), Ok(ValidMove::Continue));
    assert_eq!(b.new_move((0, 2), PlayerId::Circle), Ok(ValidMove::Win));
}

#[test]
fn three_by_three_lines_win() {
    let lines: [[(usize, usize); 3]; 8] = [
        [(0, 0), (0, 1), (0, 2)],
        [(1, 0), (1, 1), (1, 2)],
        [(2, 0), (2, 1), (2, 2)],
        [(0, 0), (1, 0), (2, 0)],
        [(0, 1), (1, 1), (2, 1)],
        [(0, 2), (1, 2), (2, 2)],
        [(0, 0), (1, 1), (2, 2)],
        [(0, 2), (1, 1), (2, 0)],
    ];
    for line in lines {
        let mut b = bp_3_3::Playboard::new();
        assert_eq!(b.new_move(line[0], PlayerId::Cross), Ok(ValidMove::Continue));
        assert_eq!(b.new_move(line[2], PlayerId::Cross), Ok(ValidMove::Continue));
        assert_eq!(b.new_move(line[1], PlayerId::Cross), Ok(ValidMove::Win));
    }
}

#[test]
fn three_by_three_refuses_and_draws() {
    let mut b = bp_3_3::Playboard::new();
    assert_eq!(b.new_move((3, 0), PlayerId::Circle), Err(InvalidMove::InvalidRange));
    assert_eq!(b.new_move((0, 3), PlayerId::Circle), Err(InvalidMove::InvalidRange));
    let moves = [
        ((0, 0), PlayerId::Circle),
        ((0, 1), PlayerId::Cross),
        ((0, 2), PlayerId::Circle),
        ((1, 1), PlayerId::Cross),
        ((1, 0), PlayerId::Circle),
        ((1, 2), PlayerId::Cross),
        ((2, 1), PlayerId::Circle),
    ];
    for (position, player) in moves {
        assert_eq!(b.new_move(position, player), Ok(ValidMove::Continue));
    }
    let before = marks_3_3(&b);
    assert_eq!(b.new_move((1, 1), PlayerId::Circle), Err(InvalidMove::AlreadyUsed));
    assert_eq!(marks_3_3(&b), before);
    assert_eq!(b.new_move((2, 0), PlayerId::Cross), Ok(ValidMove::Draw));
    b.reset();
    assert!(marks_3_3(&b).iter().all(|m| m.is_none()));
}

#[test]
fn both_playboards_agree() {
    // The same moves lead to the same answers on the playboard of edge size
    // three and on the classic one.
    let moves = [
        ((1, 1), PlayerId::Circle),
        ((0, 0), PlayerId::Cross),
        ((1, 1), PlayerId::Cross),
        ((2, 2), PlayerId::Circle),
        ((0, 2), PlayerId::Cross),
        ((0, 1), PlayerId::Circle),
        ((5, 1), PlayerId::Circle),
        ((2, 1), PlayerId::Cross),
        ((1, 0), PlayerId::Circle),
        ((1, 2), PlayerId::Cross),
        ((2, 0), PlayerId::Circle),
    ];
    let mut general = board(3);
    let mut classic = bp_3_3::Playboard::new();
    for (position, player) in moves {
        assert_eq!(general.new_move(position, player), classic.new_move(position, player));
        assert_eq!(marks(&general), marks_3_3(&classic));
    }
}
