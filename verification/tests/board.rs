use tetra_master::{
    ArrowRelation, Arrows, BattleResult, Board, Card, Class, Color, OwnedCard, PlacedCard, Space,
};

const N: u8 = 0x80;
const E: u8 = 0x20;
const S: u8 = 0x08;
const W: u8 = 0x02;

fn open_board() -> Board {
    Board { spaces: [[Space::Empty; 4]; 4] }
}

fn card(arrows: u8) -> Card {
    Card::with_arrows(5, Class::Physical, 5, 5, Arrows::from_flags(arrows))
}

fn color_at(board: &Board, row: usize, column: usize) -> Color {
    match board.space(row, column) {
        Space::Card(placed) => placed.card.color,
        _ => panic!("no card"),
    }
}

fn cards_of(board: &Board) -> Vec<(usize, usize, Card)> {
    let mut found = Vec::new();
    for row in 1..5 {
        for column in 1..5 {
            if let Space::Card(placed) = board.space(row, column) {
                assert_eq!((placed.row, placed.column), (row, column));
                found.push((row, column, placed.card.card));
            }
        }
    }
    found
}

#[test]
fn generated_boards_hold_at_most_six_blocks() {
    let mut most = 0;
    for _ in 0..500 {
        let board = Board::generate();
        let mut blocks = 0;
        for row in 1..5 {
            for column in 1..5 {
                let space = board.space(row, column);
                assert!(space.is_block() || space.is_empty());
                assert!(!space.is_card());
                if space.is_block() {
                    blocks += 1;
                }
            }
        }
        assert!(blocks <= 6);
        if blocks > most {
            most = blocks;
        }
    }
    assert!(most >= 1);
}

#[test]
fn generate_space_blocks_until_six() {
    assert_eq!(Board::generate_space(0, true), Space::Block);
    assert_eq!(Board::generate_space(5, true), Space::Block);
    assert_eq!(Board::generate_space(6, true), Space::Empty);
    assert_eq!(Board::generate_space(0, false), Space::Empty);
}

#[test]
fn generate_row_counts_its_blocks() {
    for _ in 0..200 {
        let mut blocks = 4u8;
        let row = Board::generate_row(&mut blocks);
        let in_row = row.iter().filter(|s| s.is_block()).count() as u8;
        assert_eq!(blocks, 4 + in_row);
        assert!(blocks <= 6);
    }
    let mut full = 6u8;
    let row = Board::generate_row(&mut full);
    assert_eq!(full, 6);
    assert!(row.iter().all(|s| s.is_empty()));
}

#[test]
fn add_and_remove() {
    let mut board = open_board();
    board.add_card(2, 3, OwnedCard::red(card(N)));
    assert!(board.space(2, 3).is_card());
    assert_eq!(board.spaces[1][2], Space::Card(PlacedCard::new(OwnedCard::red(card(N)), 2, 3)));
    assert!(board.space(3, 2).is_empty());
    assert_eq!(board.remove_card(2, 3), Some(OwnedCard::red(card(N))));
    assert!(board.space(2, 3).is_empty());
    assert_eq!(board.remove_card(2, 3), None);
    board.spaces[0][0] = Space::Block;
    board.add_card(1, 1, OwnedCard::blue(card(0)));
    assert!(board.space(1, 1).is_card());
    board.spaces[3][3] = Space::Block;
    assert_eq!(board.remove_card(4, 4), None);
    assert!(board.space(4, 4).is_block());
}

#[test]
fn removing_from_a_space_without_a_card_changes_nothing() {
    let mut board = open_board();
    board.spaces[1][2] = Space::Block;
    board.add_card(3, 3, OwnedCard::red(card(N)));
    let before = board.spaces;
    assert_eq!(board.remove_card(2, 3), None);
    assert_eq!(board.spaces, before);
    assert!(board.space(2, 3).is_block());
    assert_eq!(board.remove_card(1, 1), None);
    assert_eq!(board.spaces, before);
    assert_eq!(board.remove_card(3, 3), Some(OwnedCard::red(card(N))));
    assert!(board.space(3, 3).is_empty());
    assert!(board.space(2, 3).is_block());
}

#[test]
fn rows_follow_their_draws() {
    let b = Space::Block;
    let e = Space::Empty;
    let mut blocks = 0u8;
    assert_eq!(Board::generate_row_with(&mut blocks, &[true, false, true, true]), [b, e, b, b]);
    assert_eq!(blocks, 3);
    assert_eq!(Board::generate_row_with(&mut blocks, &[true, true, false, true]), [b, b, e, b]);
    assert_eq!(blocks, 6);
    assert_eq!(Board::generate_row_with(&mut blocks, &[true, true, true, true]), [e, e, e, e]);
    assert_eq!(blocks, 6);
    let mut late = 5u8;
    assert_eq!(Board::generate_row_with(&mut late, &[false, true, true, true]), [e, b, e, e]);
    assert_eq!(late, 6);
    let mut none = 2u8;
    assert_eq!(Board::generate_row_with(&mut none, &[false; 4]), [e, e, e, e]);
    assert_eq!(none, 2);
}

#[test]
fn boards_follow_their_draws_and_count_across_rows() {
    let b = Space::Block;
    let e = Space::Empty;
    let all = Board::generate_with(&[[true; 4]; 4]);
    assert_eq!(all.spaces, [[b, b, b, b], [b, b, e, e], [e, e, e, e], [e, e, e, e]]);
    let none = Board::generate_with(&[[false; 4]; 4]);
    assert_eq!(none.spaces, [[e; 4]; 4]);
    let some = Board::generate_with(&[
        [false, true, false, false],
        [true, false, false, true],
        [false, false, true, true],
        [true, true, true, false],
    ]);
    assert_eq!(some.spaces, [[e, b, e, e], [b, e, e, b], [e, e, b, b], [b, e, e, e]]);
    assert_eq!(some.empty_spaces().len(), 10);
}

#[test]
fn space_mut_writes_in_place() {
    let mut board = open_board();
    *board.space_mut(4, 1) = Space::Block;
    assert!(board.spaces[3][0].is_block());
    assert!(board.space(4, 1).is_block());
    assert!(board.space(1, 4).is_empty());
}

#[test]
fn neighbors_come_in_the_fixed_order() {
    let mut board = open_board();
    board.add_card(2, 2, OwnedCard::blue(card(0)));
    let places = [(2, 1), (2, 3), (1, 2), (1, 1), (1, 3), (3, 2), (3, 1), (3, 3)];
    for (i, (row, column)) in places.iter().enumerate() {
        board.add_card(*row, *column, OwnedCard::red(Card::new(i as u8, Class::Magical, 0, 0)));
    }
    let found = board.neighbors(2, 2);
    assert_eq!(found.len(), 8);
    for (i, (row, column)) in places.iter().enumerate() {
        let placed = found[i].expect("a card");
        assert_eq!(placed.card.card.power, i as u8);
        assert_eq!((placed.row, placed.column), (*row, *column));
    }
}

#[test]
fn neighbors_at_the_edge_and_of_no_card() {
    let mut board = open_board();
    assert!(board.neighbors(1, 1).is_empty());
    board.spaces[0][1] = Space::Block;
    board.add_card(1, 1, OwnedCard::blue(card(0)));
    board.add_card(2, 2, OwnedCard::red(card(0)));
    let found = board.neighbors(1, 1);
    assert_eq!(found.len(), 8);
    for i in 0..7 {
        assert!(found[i].is_none());
    }
    assert_eq!(found[7].unwrap().card.color, Color::Red);
    board.add_card(4, 4, OwnedCard::blue(card(0)));
    board.add_card(3, 3, OwnedCard::red(card(0)));
    let corner = board.neighbors(4, 4);
    assert_eq!(corner.len(), 8);
    assert!(corner[3].is_some());
    assert_eq!(corner.iter().filter(|c| c.is_some()).count(), 1);
}

#[test]
fn relations_look_at_the_other_colour_only() {
    let mut board = open_board();
    board.add_card(2, 2, OwnedCard::blue(card(N | E | S | W)));
    board.add_card(2, 1, OwnedCard::red(card(E)));
    board.add_card(2, 3, OwnedCard::red(card(0)));
    board.add_card(1, 2, OwnedCard::blue(card(S)));
    board.add_card(1, 1, OwnedCard::red(card(0xFF)));
    let found = board.relations(2, 2);
    assert_eq!(
        found,
        vec![
            ArrowRelation::Battle,
            ArrowRelation::Take,
            ArrowRelation::Ignore,
            ArrowRelation::Ignore,
            ArrowRelation::Ignore,
            ArrowRelation::Ignore,
            ArrowRelation::Ignore,
            ArrowRelation::Ignore,
        ]
    );
    assert!(board.relations(4, 4).is_empty());
}

#[test]
fn combo_is_one_ply_deep() {
    let mut board = open_board();
    // A battles B to its east; B points on to C; C points down to D.
    board.add_card(2, 3, OwnedCard::red(card(W | E)));
    board.add_card(2, 4, OwnedCard::red(card(S)));
    board.add_card(3, 4, OwnedCard::red(card(0)));
    board.add_card(1, 3, OwnedCard::red(card(0)));
    board.add_card(2, 2, OwnedCard::blue(card(E)));
    let before = cards_of(&board);
    let done = board.run_battles_with(2, 2, &vec![BattleResult::Attacker]);
    assert!(done);
    assert_eq!(color_at(&board, 2, 2), Color::Blue);
    assert_eq!(color_at(&board, 2, 3), Color::Blue);
    assert_eq!(color_at(&board, 2, 4), Color::Blue);
    assert_eq!(color_at(&board, 3, 4), Color::Red);
    assert_eq!(color_at(&board, 1, 3), Color::Red);
    assert_eq!(cards_of(&board), before);
}

#[test]
fn combo_needs_an_arrow_of_the_captured_card() {
    let mut board = open_board();
    board.add_card(2, 3, OwnedCard::red(card(W)));
    board.add_card(2, 4, OwnedCard::red(card(W)));
    board.add_card(2, 2, OwnedCard::blue(card(E)));
    assert!(board.run_battles_with(2, 2, &vec![BattleResult::Attacker]));
    assert_eq!(color_at(&board, 2, 3), Color::Blue);
    assert_eq!(color_at(&board, 2, 4), Color::Red);
}

#[test]
fn do_combo_captures_around_the_loser() {
    let mut board = open_board();
    board.add_card(3, 3, OwnedCard::blue(card(N | W)));
    board.add_card(2, 3, OwnedCard::red(card(S)));
    board.add_card(3, 2, OwnedCard::red(card(0)));
    board.add_card(3, 4, OwnedCard::red(card(W)));
    board.add_card(4, 3, OwnedCard::blue(card(0)));
    let winner = PlacedCard::new(OwnedCard::blue(card(0)), 1, 1);
    let loser = PlacedCard::new(OwnedCard::blue(card(N | W)), 3, 3);
    board.do_combo(&winner, &loser);
    assert_eq!(color_at(&board, 2, 3), Color::Blue);
    assert_eq!(color_at(&board, 3, 2), Color::Blue);
    assert_eq!(color_at(&board, 3, 4), Color::Red);
    assert_eq!(color_at(&board, 4, 3), Color::Blue);
    let nowhere = PlacedCard::new(OwnedCard::blue(card(0xFF)), 1, 1);
    let red = PlacedCard::new(OwnedCard::red(card(0)), 1, 1);
    board.do_combo(&red, &nowhere);
    assert_eq!(color_at(&board, 2, 3), Color::Blue);
}

#[test]
fn draws_leave_the_board_as_it_was() {
    let mut board = open_board();
    board.add_card(2, 3, OwnedCard::red(card(W | E)));
    board.add_card(2, 4, OwnedCard::red(card(0)));
    board.add_card(2, 1, OwnedCard::red(card(0)));
    board.add_card(2, 2, OwnedCard::blue(card(E | W)));
    for draws in 0..6 {
        let outcomes = vec![BattleResult::Draw; draws];
        let done = board.run_battles_with(2, 2, &outcomes);
        assert!(!done);
        assert_eq!(color_at(&board, 2, 2), Color::Blue);
        assert_eq!(color_at(&board, 2, 3), Color::Red);
        assert_eq!(color_at(&board, 2, 4), Color::Red);
        assert_eq!(color_at(&board, 2, 1), Color::Red);
    }
    let outcomes = vec![BattleResult::Draw, BattleResult::Draw, BattleResult::Attacker];
    assert!(board.run_battles_with(2, 2, &outcomes));
    assert_eq!(color_at(&board, 2, 3), Color::Blue);
    assert_eq!(color_at(&board, 2, 4), Color::Blue);
    assert_eq!(color_at(&board, 2, 1), Color::Blue);
}

#[test]
fn a_loss_ends_the_run() {
    let mut board = open_board();
    board.add_card(2, 1, OwnedCard::red(card(E)));
    board.add_card(2, 3, OwnedCard::red(card(W)));
    board.add_card(1, 2, OwnedCard::blue(card(0)));
    board.add_card(3, 2, OwnedCard::blue(card(0)));
    board.add_card(2, 2, OwnedCard::blue(card(E | W | N)));
    let done = board.run_battles_with(2, 2, &vec![BattleResult::Defender, BattleResult::Attacker]);
    assert!(done);
    assert_eq!(color_at(&board, 2, 2), Color::Red);
    assert_eq!(color_at(&board, 2, 1), Color::Red);
    assert_eq!(color_at(&board, 2, 3), Color::Red);
    // the combo of the captured attacker reaches where it points, and no further
    assert_eq!(color_at(&board, 1, 2), Color::Red);
    assert_eq!(color_at(&board, 3, 2), Color::Blue);
}

#[test]
fn battles_come_in_neighbour_order() {
    let mut board = open_board();
    board.add_card(2, 1, OwnedCard::red(card(E)));
    board.add_card(2, 3, OwnedCard::red(card(W)));
    board.add_card(2, 2, OwnedCard::blue(card(E | W)));
    assert!(!board.run_battles_with(2, 2, &vec![BattleResult::Attacker]));
    assert_eq!(color_at(&board, 2, 1), Color::Blue);
    assert_eq!(color_at(&board, 2, 3), Color::Red);
    assert!(board.run_battles_with(2, 2, &vec![BattleResult::Attacker]));
    assert_eq!(color_at(&board, 2, 3), Color::Blue);
}

#[test]
fn takes_follow_when_no_battle_is_lost() {
    let mut board = open_board();
    board.add_card(2, 1, OwnedCard::red(card(0)));
    board.add_card(1, 2, OwnedCard::red(card(0)));
    board.add_card(2, 3, OwnedCard::red(card(W)));
    board.add_card(2, 2, OwnedCard::blue(card(E | W)));
    assert!(!board.run_battles_with(2, 2, &vec![]));
    assert_eq!(color_at(&board, 2, 1), Color::Red);
    assert!(board.run_battles_with(2, 2, &vec![BattleResult::Attacker, BattleResult::Defender]));
    assert_eq!(color_at(&board, 2, 1), Color::Blue);
    assert_eq!(color_at(&board, 2, 3), Color::Blue);
    assert_eq!(color_at(&board, 1, 2), Color::Red);
    assert_eq!(color_at(&board, 2, 2), Color::Blue);
}

#[test]
fn nothing_happens_without_a_card() {
    let mut board = open_board();
    board.add_card(2, 1, OwnedCard::red(card(E)));
    assert!(board.run_battles_with(2, 2, &vec![BattleResult::Attacker]));
    board.run_battles(2, 2);
    assert_eq!(color_at(&board, 2, 1), Color::Red);
    assert!(board.space(2, 2).is_empty());
}

#[test]
fn rolled_battles_only_change_colours() {
    for _ in 0..200 {
        let mut board = open_board();
        board.spaces[0][0] = Space::Block;
        board.add_card(2, 1, OwnedCard::red(Card::with_arrows(3, Class::Magical, 4, 5, Arrows::from_flags(0xFF))));
        board.add_card(2, 3, OwnedCard::red(Card::with_arrows(9, Class::Assault, 1, 15, Arrows::from_flags(0xFF))));
        board.add_card(1, 2, OwnedCard::red(Card::with_arrows(0, Class::Flexible, 0, 0, Arrows::from_flags(0))));
        board.add_card(3, 3, OwnedCard::blue(Card::with_arrows(7, Class::Physical, 7, 7, Arrows::from_flags(0xFF))));
        board.add_card(2, 2, OwnedCard::blue(Card::with_arrows(8, Class::Physical, 2, 2, Arrows::from_flags(0xFF))));
        let before = cards_of(&board);
        board.run_battles(2, 2);
        assert_eq!(cards_of(&board), before);
        assert!(board.space(1, 1).is_block());
        assert!(board.space(4, 4).is_empty());
        // the card either lost and changed sides, or holds every neighbour it points at
        if color_at(&board, 2, 2) == Color::Blue {
            assert_eq!(color_at(&board, 2, 1), Color::Blue);
            assert_eq!(color_at(&board, 2, 3), Color::Blue);
            assert_eq!(color_at(&board, 1, 2), Color::Blue);
        }
    }
}

#[test]
fn counts_cards_by_colour() {
    let mut board = open_board();
    assert_eq!(board.count_cards(Color::Blue), 0);
    assert_eq!(board.leader(), None);
    board.add_card(1, 1, OwnedCard::blue(card(0)));
    assert_eq!(board.leader(), Some(Color::Blue));
    board.add_card(4, 4, OwnedCard::red(card(0)));
    assert_eq!(board.leader(), None);
    board.add_card(3, 2, OwnedCard::red(card(0)));
    board.spaces[0][3] = Space::Block;
    assert_eq!(board.count_cards(Color::Blue), 1);
    assert_eq!(board.count_cards(Color::Red), 2);
    assert_eq!(board.leader(), Some(Color::Red));
}

#[test]
fn lists_empty_spaces_row_by_row() {
    let mut board = open_board();
    assert_eq!(board.empty_spaces().len(), 16);
    assert_eq!(board.empty_spaces()[0], (1, 1));
    assert_eq!(board.empty_spaces()[5], (2, 2));
    assert_eq!(board.empty_spaces()[15], (4, 4));
    for row in 1..5 {
        for column in 1..5 {
            if (row, column) != (2, 3) && (row, column) != (4, 1) {
                if (row + column) % 2 == 0 {
                    board.spaces[row - 1][column - 1] = Space::Block;
                } else {
                    board.add_card(row, column, OwnedCard::red(card(0)));
                }
            }
        }
    }
    assert_eq!(board.empty_spaces(), vec![(2, 3), (4, 1)]);
    board.add_card(2, 3, OwnedCard::blue(card(0)));
    board.add_card(4, 1, OwnedCard::blue(card(0)));
    assert!(board.empty_spaces().is_empty());
}

#[test]
fn a_draw_begins_again_on_the_board_as_it_stands() {
    const NE: u8 = 0x40;
    let mut board = open_board();
    // the first defender points at the second; the third neighbour does not point back
    board.add_card(2, 1, OwnedCard::red(card(E | NE)));
    board.add_card(1, 2, OwnedCard::red(card(S)));
    board.add_card(2, 3, OwnedCard::red(card(0)));
    board.add_card(2, 2, OwnedCard::blue(card(W | N | E)));
    assert!(!board.run_battles_with(2, 2, &vec![BattleResult::Attacker]));
    assert_eq!(color_at(&board, 2, 1), Color::Blue);
    assert_eq!(color_at(&board, 1, 2), Color::Blue);
    assert_eq!(color_at(&board, 2, 3), Color::Red);

    let mut again = open_board();
    again.add_card(2, 1, OwnedCard::red(card(E | NE)));
    again.add_card(1, 2, OwnedCard::red(card(S)));
    again.add_card(2, 3, OwnedCard::red(card(0)));
    again.add_card(2, 2, OwnedCard::blue(card(W | N | E)));
    // the battle against the second defender is drawn: no battle is left, the take follows
    let done = again.run_battles_with(2, 2, &vec![BattleResult::Attacker, BattleResult::Draw]);
    assert!(done);
    assert_eq!(color_at(&again, 2, 1), Color::Blue);
    assert_eq!(color_at(&again, 1, 2), Color::Blue);
    assert_eq!(color_at(&again, 2, 3), Color::Blue);
    assert_eq!(color_at(&again, 2, 2), Color::Blue);
}

#[test]
fn outcomes_left_over_are_not_looked_at() {
    let mut board = open_board();
    board.add_card(2, 3, OwnedCard::red(card(W)));
    board.add_card(2, 2, OwnedCard::blue(card(E)));
    let outcomes = vec![BattleResult::Attacker, BattleResult::Defender, BattleResult::Draw];
    assert!(board.run_battles_with(2, 2, &outcomes));
    assert_eq!(color_at(&board, 2, 2), Color::Blue);
    assert_eq!(color_at(&board, 2, 3), Color::Blue);
}
