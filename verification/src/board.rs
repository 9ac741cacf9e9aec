//! The board: sixteen spaces in four rows, each blocked, empty or holding a
//! card. Rows and columns are counted from 1, and (1, 1) is the top left.

use crate::arrows::Direction;
use crate::card::{Color, OwnedCard, PlacedCard};
use crate::codec::spec_card_text;
use crate::roll::random_chance;
use vstd::prelude::*;
use vstd::string::*;

verus! {

/// One space of a board.
#[derive(Clone, Copy, Debug, PartialEq, Eq, Structural)]
pub enum Space {
    Block,
    Card(PlacedCard),
    Empty,
}

impl Space {
    /// The card on this space, if it holds one.
    pub open spec fn card(self) -> Option<PlacedCard> {
        match self {
            Space::Card(placed) => Some(placed),
            _ => None,
        }
    }

    /// The four characters that stand for this space.
    pub open spec fn text(self) -> Seq<char> {
        match self {
            Space::Block => seq!['X', 'X', 'X', 'X'],
            Space::Empty => seq![' ', ' ', ' ', ' '],
            Space::Card(placed) => spec_card_text(placed.card.card),
        }
    }

    pub fn is_block(&self) -> (b: bool)
        ensures
            b == (*self == Space::Block),
    {
        match *self {
            Space::Block => true,
            _ => false,
        }
    }

    pub fn is_empty(&self) -> (b: bool)
        ensures
            b == (*self == Space::Empty),
    {
        match *self {
            Space::Empty => true,
            _ => false,
        }
    }

    pub fn is_card(&self) -> (b: bool)
        ensures
            b == self.card().is_some(),
    {
        match *self {
            Space::Card(_) => true,
            _ => false,
        }
    }

    pub fn to_string(&self) -> (text: String)
        ensures
            text@ == self.text(),
    {
        match *self {
            Space::Block => {
                proof {
                    reveal_strlit("XXXX");
                }
                assert("XXXX"@ =~= seq!['X', 'X', 'X', 'X']);
                String::from_str("XXXX")
            },
            Space::Empty => {
                proof {
                    reveal_strlit("    ");
                }
                assert("    "@ =~= seq![' ', ' ', ' ', ' ']);
                String::from_str("    ")
            },
            Space::Card(ref placed) => placed.card.card.to_string(),
        }
    }
}

/// Whether a row and a column name a space of the board.
pub open spec fn on_board(row: int, column: int) -> bool {
    1 <= row <= 4 && 1 <= column <= 4
}

/// The place of a space in the row-by-row list of all sixteen.
pub open spec fn cell(row: int, column: int) -> int {
    (row - 1) * 4 + (column - 1)
}

/// The place in the list of the neighbour in the `i`-th direction, where that
/// neighbour is on the board.
pub open spec fn neighbor_cell(row: int, column: int, i: int) -> Option<int> {
    let direction = Direction::spec_from_index(i);
    let r = row + direction.row_offset();
    let c = column + direction.column_offset();
    if on_board(r, c) {
        Some(cell(r, c))
    } else {
        None
    }
}

/// The card that is the neighbour in the `i`-th direction, if a card lies
/// there.
pub open spec fn neighbor(grid: Seq<Space>, row: int, column: int, i: int) -> Option<PlacedCard> {
    match neighbor_cell(row, column, i) {
        Some(k) => grid[k].card(),
        None => None,
    }
}

/// The number of blocked spaces among the first `n` of a list.
pub open spec fn count_blocks(spaces: Seq<Space>, n: int) -> int
    decreases n,
{
    if n <= 0 {
        0
    } else {
        count_blocks(spaces, n - 1) + if spaces[n - 1] == Space::Block {
            1int
        } else {
            0int
        }
    }
}

/// The number of cards of `color` among the first `n` spaces of a list.
pub open spec fn count_color(spaces: Seq<Space>, color: Color, n: int) -> int
    decreases n,
{
    if n <= 0 {
        0
    } else {
        count_color(spaces, color, n - 1) + match spaces[n - 1] {
            Space::Card(placed) => if placed.card.color == color {
                1int
            } else {
                0int
            },
            _ => 0int,
        }
    }
}

/// The places of the empty spaces among the first `n` of a list, in order.
pub open spec fn empty_cells(spaces: Seq<Space>, n: int) -> Seq<int>
    decreases n,
{
    if n <= 0 {
        Seq::empty()
    } else if spaces[n - 1] == Space::Empty {
        empty_cells(spaces, n - 1).push(n - 1)
    } else {
        empty_cells(spaces, n - 1)
    }
}

/// The side that holds more cards, if one does.
pub open spec fn spec_leader(spaces: Seq<Space>) -> Option<Color> {
    let blue = count_color(spaces, Color::Blue, 16);
    let red = count_color(spaces, Color::Red, 16);
    if blue > red {
        Some(Color::Blue)
    } else if red > blue {
        Some(Color::Red)
    } else {
        None
    }
}

/// Whether a list of spaces is a board in order: sixteen spaces, every card
/// well-formed and marked with the row and column of the space it lies on.
pub open spec fn grid_well_formed(grid: Seq<Space>) -> bool {
    &&& grid.len() == 16
    &&& forall|k: int|
        0 <= k < 16 ==> match #[trigger] grid[k] {
            Space::Card(placed) => placed.row == k / 4 + 1 && placed.column == k % 4 + 1
                && placed.card.card.well_formed(),
            _ => true,
        }
}

/// The most blocked spaces that a generated board holds.
pub const MAX_BLOCKS: u8 = 6;

/// The board.
#[derive(Debug)]
pub struct Board {
    pub spaces: [[Space; 4]; 4],
}

impl View for Board {
    type V = Seq<Space>;

    /// The sixteen spaces row by row.
    open spec fn view(&self) -> Seq<Space> {
        Seq::new(16, |k: int| self.spaces[k / 4][k % 4])
    }
}

impl Board {
    /// Every card is well-formed and knows the space it lies on.
    pub open spec fn well_formed(&self) -> bool {
        grid_well_formed(self@)
    }

    /// Fills one space of a new board: blocked if fewer than six spaces are
    /// blocked so far and the draw says so, else empty.
    pub fn generate_space(blocks: u8, blocked: bool) -> (space: Space)
        ensures
            space == (if blocks < MAX_BLOCKS && blocked {
                Space::Block
            } else {
                Space::Empty
            }),
    {
        if blocks < MAX_BLOCKS && blocked {
            Space::Block
        } else {
            Space::Empty
        }
    }

    /// Fills one row of a new board from four draws. `blocks` counts the
    /// blocked spaces of the whole board. A space is blocked where its draw
    /// says so and fewer than six spaces are blocked before it.
    pub fn generate_row_with(blocks: &mut u8, draws: &[bool; 4]) -> (row: [Space; 4])
        requires
            *old(blocks) <= MAX_BLOCKS,
        ensures
            forall|i: int|
                0 <= i < 4 ==> (#[trigger] row[i] == Space::Block <==> draws[i] && *old(blocks)
                    + count_blocks(row@, i) < MAX_BLOCKS),
            forall|i: int| 0 <= i < 4 ==> row[i] == Space::Block || row[i] == Space::Empty,
            *final(blocks) == *old(blocks) + count_blocks(row@, 4),
            *final(blocks) <= MAX_BLOCKS,
    {
        let mut row: [Space; 4] = [Space::Empty, Space::Empty, Space::Empty, Space::Empty];
        let mut i: usize = 0;
        while i < 4
            invariant
                i <= 4,
                *blocks <= MAX_BLOCKS,
                *blocks == *old(blocks) + count_blocks(row@, i as int),
                forall|j: int| 0 <= j < 4 ==> row[j] == Space::Block || row[j] == Space::Empty,
                forall|j: int|
                    0 <= j < i ==> (#[trigger] row[j] == Space::Block <==> draws[j] && *old(blocks)
                        + count_blocks(row@, j) < MAX_BLOCKS),
            decreases 4 - i,
        {
            let ghost before = row@;
            let space = Self::generate_space(*blocks, draws[i]);
            if space.is_block() {
                *blocks += 1;
            }
            row[i] = space;
            proof {
                assert forall|j: int| 0 <= j <= i implies count_blocks(row@, j) == count_blocks(
                    before,
                    j,
                ) by {
                    lemma_count_blocks_prefix(before, row@, j);
                }
                lemma_count_blocks_prefix(before, row@, i as int);
            }
            i += 1;
        }
        row
    }

    /// Fills one row of a new board. `blocks` counts the blocked spaces of
    /// the whole board. A space is blocked one time in four, until six are.
    pub fn generate_row(blocks: &mut u8) -> (row: [Space; 4])
        requires
            *old(blocks) <= MAX_BLOCKS,
        ensures
            *final(blocks) <= MAX_BLOCKS,
            *final(blocks) == *old(blocks) + count_blocks(row@, 4),
            forall|i: int| 0 <= i < 4 ==> row[i] == Space::Block || row[i] == Space::Empty,
    {
        let mut draws: [bool; 4] = [false, false, false, false];
        let mut i: usize = 0;
        while i < 4
            invariant
                i <= 4,
            decreases 4 - i,
        {
            draws[i] = random_chance(4);
            i += 1;
        }
        Self::generate_row_with(blocks, &draws)
    }

    /// A new board without cards from sixteen draws, four for each row. A
    /// space is blocked where its draw says so and fewer than six spaces are
    /// blocked before it, counted row by row over the whole board.
    pub fn generate_with(draws: &[[bool; 4]; 4]) -> (board: Board)
        ensures
            forall|k: int|
                0 <= k < 16 ==> (#[trigger] board@[k] == Space::Block <==> draws[k / 4][k % 4]
                    && count_blocks(board@, k) < MAX_BLOCKS),
            forall|k: int|
                0 <= k < 16 ==> #[trigger] board@[k] == Space::Block || board@[k] == Space::Empty,
            count_blocks(board@, 16) <= MAX_BLOCKS,
            board.well_formed(),
    {
        let mut blocks: u8 = 0;
        let first = Board::generate_row_with(&mut blocks, &draws[0]);
        let ghost after_first = blocks;
        let second = Board::generate_row_with(&mut blocks, &draws[1]);
        let ghost after_second = blocks;
        let third = Board::generate_row_with(&mut blocks, &draws[2]);
        let ghost after_third = blocks;
        let fourth = Board::generate_row_with(&mut blocks, &draws[3]);
        let board = Board { spaces: [first, second, third, fourth] };
        proof {
            assert(count_blocks(board@, 0) == 0);
            assert forall|k: int| 0 <= k < 16 implies (#[trigger] board@[k] == Space::Block
                <==> draws[k / 4][k % 4] && count_blocks(board@, k) < MAX_BLOCKS) by {
                lemma_count_blocks_row(board@, first@, 0, 4);
                lemma_count_blocks_row(board@, second@, 4, 4);
                lemma_count_blocks_row(board@, third@, 8, 4);
                if k < 4 {
                    lemma_count_blocks_row(board@, first@, 0, k);
                    assert(board@[k] == first[k]);
                } else if k < 8 {
                    lemma_count_blocks_row(board@, second@, 4, k - 4);
                    assert(board@[k] == second[k - 4]);
                } else if k < 12 {
                    lemma_count_blocks_row(board@, third@, 8, k - 8);
                    assert(board@[k] == third[k - 8]);
                } else {
                    lemma_count_blocks_row(board@, fourth@, 12, k - 12);
                    assert(board@[k] == fourth[k - 12]);
                }
            }
            lemma_count_blocks_row(board@, first@, 0, 4);
            lemma_count_blocks_row(board@, second@, 4, 4);
            lemma_count_blocks_row(board@, third@, 8, 4);
            lemma_count_blocks_row(board@, fourth@, 12, 4);
        }
        board
    }

    /// A new board without cards. At most six of its spaces are blocked.
    pub fn generate() -> (board: Board)
        ensures
            forall|k: int|
                0 <= k < 16 ==> #[trigger] board@[k] == Space::Block || board@[k] == Space::Empty,
            count_blocks(board@, 16) <= MAX_BLOCKS,
            board.well_formed(),
    {
        let mut draws: [[bool; 4]; 4] = [
            [false, false, false, false],
            [false, false, false, false],
            [false, false, false, false],
            [false, false, false, false],
        ];
        let mut k: usize = 0;
        while k < 16
            invariant
                k <= 16,
            decreases 16 - k,
        {
            draws[k / 4][k % 4] = random_chance(4);
            k += 1;
        }
        Board::generate_with(&draws)
    }

    /// Puts a card on a space. Whatever the space held before is gone: the
    /// caller looks first whether the space is empty.
    pub fn add_card(&mut self, row: usize, column: usize, card: OwnedCard)
        requires
            on_board(row as int, column as int),
        ensures
            final(self)@ == old(self)@.update(
                cell(row as int, column as int),
                Space::Card(PlacedCard { card, row, column }),
            ),
            old(self).well_formed() && card.card.well_formed() ==> final(self).well_formed(),
    {
        self.spaces[row - 1][column - 1] = Space::Card(PlacedCard::new(card, row, column));
        assert(self@ =~= old(self)@.update(
            cell(row as int, column as int),
            Space::Card(PlacedCard { card, row, column }),
        ));
    }

    /// Takes the card off a space and leaves the space empty. A space
    /// without a card stays as it is: a blocked space stays blocked.
    pub fn remove_card(&mut self, row: usize, column: usize) -> (card: Option<OwnedCard>)
        requires
            on_board(row as int, column as int),
        ensures
            final(self)@ == match old(self)@[cell(row as int, column as int)] {
                Space::Card(_) => old(self)@.update(cell(row as int, column as int), Space::Empty),
                _ => old(self)@,
            },
            card == match old(self)@[cell(row as int, column as int)] {
                Space::Card(placed) => Some(placed.card),
                _ => None,
            },
            old(self).well_formed() ==> final(self).well_formed(),
    {
        match self.spaces[row - 1][column - 1] {
            Space::Card(placed) => {
                self.spaces[row - 1][column - 1] = Space::Empty;
                assert(self@ =~= old(self)@.update(
                    cell(row as int, column as int),
                    Space::Empty,
                ));
                Some(placed.card)
            },
            _ => None,
        }
    }

    pub fn space(&self, row: usize, column: usize) -> (space: &Space)
        requires
            on_board(row as int, column as int),
        ensures
            *space == self@[cell(row as int, column as int)],
    {
        &self.spaces[row - 1][column - 1]
    }

    /// The space itself, to be changed in place. What the caller writes there
    /// is the caller's to keep in order.
    pub fn space_mut(&mut self, row: usize, column: usize) -> (space: &mut Space)
        requires
            on_board(row as int, column as int),
        ensures
            *space == old(self)@[cell(row as int, column as int)],
            final(self)@ == old(self)@.update(cell(row as int, column as int), *final(space)),
    {
        proof {
            assert forall|after: Board|
                after.spaces[row - 1][column - 1] == #[trigger] after@[cell(
                    row as int,
                    column as int,
                )] by {}
        }
        &mut self.spaces[row - 1][column - 1]
    }

    /// The number of cards on the board that `color` holds.
    pub fn count_cards(&self, color: Color) -> (count: usize)
        ensures
            count == count_color(self@, color, 16),
    {
        let mut count: usize = 0;
        let mut k: usize = 0;
        while k < 16
            invariant
                k <= 16,
                count <= k,
                count == count_color(self@, color, k as int),
            decreases 16 - k,
        {
            if let Space::Card(placed) = self.spaces[k / 4][k % 4] {
                if placed.card.color == color {
                    count += 1;
                }
            }
            k += 1;
        }
        count
    }

    /// The side that holds more cards: the winner once every card is
    /// played. With as many cards on either side there is none.
    pub fn leader(&self) -> (side: Option<Color>)
        ensures
            side == spec_leader(self@),
    {
        let blue = self.count_cards(Color::Blue);
        let red = self.count_cards(Color::Red);
        if blue > red {
            Some(Color::Blue)
        } else if red > blue {
            Some(Color::Red)
        } else {
            None
        }
    }

    /// The row and column of every empty space, row by row.
    pub fn empty_spaces(&self) -> (found: Vec<(usize, usize)>)
        ensures
            found@.len() == empty_cells(self@, 16).len(),
            forall|i: int|
                0 <= i < found@.len() ==> on_board(
                    (#[trigger] found@[i]).0 as int,
                    found@[i].1 as int,
                ) && cell(found@[i].0 as int, found@[i].1 as int) == empty_cells(self@, 16)[i],
    {
        let mut found: Vec<(usize, usize)> = Vec::new();
        let mut k: usize = 0;
        while k < 16
            invariant
                k <= 16,
                found@.len() == empty_cells(self@, k as int).len(),
                forall|i: int|
                    0 <= i < found@.len() ==> on_board(
                        (#[trigger] found@[i]).0 as int,
                        found@[i].1 as int,
                    ) && cell(found@[i].0 as int, found@[i].1 as int) == empty_cells(
                        self@,
                        k as int,
                    )[i],
            decreases 16 - k,
        {
            if self.spaces[k / 4][k % 4].is_empty() {
                found.push((k / 4 + 1, k % 4 + 1));
            }
            k += 1;
        }
        found
    }

    /// Finds neighboring cards of the card at the given location.
    ///
    /// In relation to the given location, the order of the cards returned is
    /// West, East, North, Northwest, Northeast, South, Southwest, Southeast.
    /// A direction in which no card lies, or which leaves the board, holds
    /// nothing.
    ///
    /// If the location isn't a card, an empty vector is returned.
    pub fn neighbors(&self, row: usize, column: usize) -> (cards: Vec<Option<&PlacedCard>>)
        requires
            on_board(row as int, column as int),
        ensures
            self@[cell(row as int, column as int)].card().is_none() ==> cards@.len() == 0,
            self@[cell(row as int, column as int)].card().is_some() ==> cards@.len() == 8,
            forall|i: int|
                0 <= i < cards@.len() ==> match #[trigger] cards@[i] {
                    Some(placed) => neighbor(self@, row as int, column as int, i) == Some(*placed),
                    None => neighbor(self@, row as int, column as int, i).is_none(),
                },
    {
        let mut cards: Vec<Option<&PlacedCard>> = Vec::new();
        if !self.space(row, column).is_card() {
            return cards;
        }
        let mut i: usize = 0;
        while i < 8
            invariant
                i <= 8,
                on_board(row as int, column as int),
                cards@.len() == i,
                forall|j: int|
                    0 <= j < i ==> match #[trigger] cards@[j] {
                        Some(placed) => neighbor(self@, row as int, column as int, j) == Some(
                            *placed,
                        ),
                        None => neighbor(self@, row as int, column as int, j).is_none(),
                    },
            decreases 8 - i,
        {
            let direction = Direction::from_index(i);
            let r: usize = (row + 1) - direction.row_toward_top();
            let c: usize = (column + 1) - direction.column_toward_left();
            if r > 4 || c > 4 || r < 1 || c < 1 {
                cards.push(None);
            } else {
                let card = match *self.space(r, c) {
                    Space::Card(ref placed) => Some(placed),
                    _ => None,
                };
                cards.push(card);
            }
            i += 1;
        }
        cards
    }
}

/// The list of empty spaces names every empty space among the first `n`,
/// and no other.
pub proof fn lemma_empty_cells(spaces: Seq<Space>, n: int, k: int)
    requires
        0 <= n <= spaces.len(),
    ensures
        empty_cells(spaces, n).contains(k) <==> 0 <= k < n && spaces[k] == Space::Empty,
    decreases n,
{
    if n > 0 {
        lemma_empty_cells(spaces, n - 1, k);
        let before = empty_cells(spaces, n - 1);
        if spaces[n - 1] == Space::Empty {
            let now = before.push(n - 1);
            assert(now[now.len() - 1] == n - 1);
            if before.contains(k) {
                let i = choose|i: int| 0 <= i < before.len() && before[i] == k;
                assert(now[i] == k);
            }
        }
    }
}

/// Seen from a neighbour, the space lies in the opposite direction.
pub proof fn lemma_neighbor_looks_back(row: int, column: int, direction: Direction)
    requires
        on_board(row, column),
        on_board(row + direction.row_offset(), column + direction.column_offset()),
    ensures
        neighbor_cell(row, column, direction.index()) == Some(
            cell(row + direction.row_offset(), column + direction.column_offset()),
        ),
        neighbor_cell(
            row + direction.row_offset(),
            column + direction.column_offset(),
            direction.opposite().index(),
        ) == Some(cell(row, column)),
{
    direction.lemma_index_round_trip();
    direction.opposite().lemma_index_round_trip();
    direction.lemma_opposite();
}

/// Spaces of a list that are a row add the row's blocks to the count, space
/// by space.
proof fn lemma_count_blocks_row(spaces: Seq<Space>, row: Seq<Space>, base: int, i: int)
    requires
        0 <= base,
        base + 4 <= spaces.len(),
        row.len() == 4,
        0 <= i <= 4,
        forall|j: int| 0 <= j < 4 ==> spaces[base + j] == row[j],
    ensures
        count_blocks(spaces, base + i) == count_blocks(spaces, base) + count_blocks(row, i),
    decreases i,
{
    if i > 0 {
        lemma_count_blocks_row(spaces, row, base, i - 1);
        assert(spaces[base + (i - 1)] == row[i - 1]);
    }
}

/// Writing one space of a list changes the count of blocks of the spaces
/// before it by nothing and the count up to it by what was written.
proof fn lemma_count_blocks_prefix(before: Seq<Space>, after: Seq<Space>, i: int)
    requires
        0 <= i < before.len(),
        after.len() == before.len(),
        forall|j: int| 0 <= j < i ==> after[j] == before[j],
    ensures
        count_blocks(after, i) == count_blocks(before, i),
        count_blocks(after, i + 1) == count_blocks(before, i) + if after[i] == Space::Block {
            1int
        } else {
            0int
        },
    decreases i,
{
    if i > 0 {
        lemma_count_blocks_prefix(before, after, i - 1);
    }
}

} // verus!
