//! Captures on the board: the relations of a card to its neighbours, the
//! combo that follows a capture, and the battles of a card that was just
//! placed.

use crate::arrows::{ArrowRelation, Arrows, Direction};
use crate::battle::BattleResult;
use crate::board::{
    cell, grid_well_formed, lemma_neighbor_looks_back, neighbor, neighbor_cell, on_board, Board,
    Space,
};
use crate::card::{Color, OwnedCard, PlacedCard};
use crate::codec::TetraMaster;
use vstd::prelude::*;

verus! {

/// A space with the colour of its card, if it holds one, set aside.
pub open spec fn uncolored(space: Space) -> Space {
    match space {
        Space::Card(placed) => Space::Card(placed.recolored(Color::Blue)),
        _ => space,
    }
}

/// What captures never change: which spaces are blocked, which are empty,
/// and which card lies where.
pub open spec fn layout(grid: Seq<Space>) -> Seq<Space> {
    Seq::new(grid.len(), |k: int| uncolored(grid[k]))
}

/// The grid with the card on space `k`, if there is one, given to `color`.
pub open spec fn recolor(grid: Seq<Space>, k: int, color: Color) -> Seq<Space> {
    match grid[k] {
        Space::Card(placed) => grid.update(k, Space::Card(placed.recolored(color))),
        _ => grid,
    }
}

/// The relation of a card of `color` with `arrows` on (row, column) to its
/// neighbour in the `i`-th direction. Only a card of the other colour is
/// looked at.
pub open spec fn contest(
    grid: Seq<Space>,
    arrows: Arrows,
    color: Color,
    row: int,
    column: int,
    i: int,
) -> ArrowRelation {
    match neighbor(grid, row, column, i) {
        Some(placed) => if placed.card.color != color {
            arrows.relation(Direction::spec_from_index(i), placed.card.card.arrows)
        } else {
            ArrowRelation::Ignore
        },
        None => ArrowRelation::Ignore,
    }
}

/// The eight relations of a card of `color` with `arrows` on (row, column).
pub open spec fn relations_of(
    grid: Seq<Space>,
    arrows: Arrows,
    color: Color,
    row: int,
    column: int,
) -> Seq<ArrowRelation> {
    Seq::new(8, |i: int| contest(grid, arrows, color, row, column, i))
}

/// The eight relations of the card on (row, column) to its neighbours;
/// none where no card lies there.
pub open spec fn relations(grid: Seq<Space>, row: int, column: int) -> Seq<ArrowRelation> {
    match grid[cell(row, column)].card() {
        Some(placed) => relations_of(grid, placed.card.card.arrows, placed.card.color, row, column),
        None => Seq::empty(),
    }
}

/// Whether a relation leads to a capture without a battle: a take, or in a
/// combo anything but ignore.
pub open spec fn captures(relation: ArrowRelation, take_only: bool) -> bool {
    if take_only {
        relation == ArrowRelation::Take
    } else {
        relation != ArrowRelation::Ignore
    }
}

/// The grid after the neighbours of (row, column) in the first `n` directions
/// were given to `color`, each where its relation captures.
pub open spec fn capture(
    grid: Seq<Space>,
    row: int,
    column: int,
    relations: Seq<ArrowRelation>,
    take_only: bool,
    color: Color,
    n: int,
) -> Seq<Space>
    decreases n,
{
    if n <= 0 {
        grid
    } else {
        let before = capture(grid, row, column, relations, take_only, color, n - 1);
        match neighbor_cell(row, column, n - 1) {
            Some(k) => if captures(relations[n - 1], take_only) {
                recolor(before, k, color)
            } else {
                before
            },
            None => before,
        }
    }
}

/// The grid after the combo that follows the capture of `loser`: every
/// neighbour of `loser` that is not of the winner's colour, and to which
/// `loser` has an arrow, goes to the winner. The neighbours of those cards
/// are not looked at.
pub open spec fn combo(grid: Seq<Space>, winner: Color, loser: PlacedCard) -> Seq<Space> {
    let row = loser.row as int;
    let column = loser.column as int;
    if grid[cell(row, column)].card().is_some() {
        capture(
            grid,
            row,
            column,
            relations_of(grid, loser.card.card.arrows, winner, row, column),
            false,
            winner,
            8,
        )
    } else {
        grid
    }
}

/// The grid after the card on (row, column) won its battle against the
/// neighbour in the `i`-th direction: the neighbour changes sides, and its
/// combo follows.
pub open spec fn attacker_wins(grid: Seq<Space>, row: int, column: int, i: int) -> Seq<Space> {
    let attacker = grid[cell(row, column)].card().unwrap();
    let k = neighbor_cell(row, column, i).unwrap();
    let defender = grid[k].card().unwrap();
    combo(recolor(grid, k, attacker.card.color), attacker.card.color, defender)
}

/// The grid after the card on (row, column) lost its battle against the
/// neighbour in the `i`-th direction: the card changes sides, and its combo
/// follows.
pub open spec fn defender_wins(grid: Seq<Space>, row: int, column: int, i: int) -> Seq<Space> {
    let attacker = grid[cell(row, column)].card().unwrap();
    let k = neighbor_cell(row, column, i).unwrap();
    let defender = grid[k].card().unwrap();
    combo(recolor(grid, cell(row, column), defender.card.color), defender.card.color, attacker)
}

/// The grid after the card on (row, column) took every neighbour that
/// `relations` marks as a take.
pub open spec fn takes(grid: Seq<Space>, relations: Seq<ArrowRelation>, row: int, column: int) -> Seq<
    Space,
> {
    capture(
        grid,
        row,
        column,
        relations,
        true,
        grid[cell(row, column)].card().unwrap().card.color,
        8,
    )
}

/// One run through the battles of a placed card, as far as it has come: the
/// grid, the relations found when the run began, and the direction of the
/// battle that is fought next. From 8 on the run is over.
pub struct Pass {
    pub grid: Seq<Space>,
    pub relations: Seq<ArrowRelation>,
    pub next: int,
}

impl Pass {
    /// Whether no battle is left to fight.
    pub open spec fn done(self) -> bool {
        self.next >= 8
    }
}

/// Goes on from direction `next` to the first battle. Where none is left the
/// run ends with the takes.
pub open spec fn settle(
    grid: Seq<Space>,
    relations: Seq<ArrowRelation>,
    row: int,
    column: int,
    next: int,
) -> Pass
    decreases 8 - next,
{
    if next >= 8 {
        Pass { grid: takes(grid, relations, row, column), relations, next: 8 }
    } else if relations[next] == ArrowRelation::Battle {
        Pass { grid, relations, next }
    } else {
        settle(grid, relations, row, column, next + 1)
    }
}

/// Begins a run for the card on (row, column): finds its relations and goes
/// to the first battle. Without a card there the run is over at once.
pub open spec fn begin(grid: Seq<Space>, row: int, column: int) -> Pass {
    if grid[cell(row, column)].card().is_some() {
        settle(grid, relations(grid, row, column), row, column, 0)
    } else {
        Pass { grid, relations: relations(grid, row, column), next: 8 }
    }
}

/// The run after the battle it waited for has ended as `outcome` says. A win
/// goes on to the next battle, a loss ends the run without takes, and a draw
/// begins a new run on the grid as it is. A run that is over stays as it is.
pub open spec fn step(pass: Pass, row: int, column: int, outcome: BattleResult) -> Pass {
    if pass.done() {
        pass
    } else {
        match outcome {
            BattleResult::Attacker => settle(
                attacker_wins(pass.grid, row, column, pass.next),
                pass.relations,
                row,
                column,
                pass.next + 1,
            ),
            BattleResult::Defender => Pass {
                grid: defender_wins(pass.grid, row, column, pass.next),
                relations: pass.relations,
                next: 8,
            },
            BattleResult::Draw => begin(pass.grid, row, column),
        }
    }
}

/// The run for the card on (row, column) after its battles ended as
/// `outcomes` says, one after the other.
pub open spec fn play(grid: Seq<Space>, row: int, column: int, outcomes: Seq<BattleResult>) -> Pass
    decreases outcomes.len(),
{
    if outcomes.len() == 0 {
        begin(grid, row, column)
    } else {
        step(play(grid, row, column, outcomes.drop_last()), row, column, outcomes.last())
    }
}

/// Whether every relation that is not ignore has a card to meet.
pub open spec fn relations_fit(
    grid: Seq<Space>,
    relations: Seq<ArrowRelation>,
    row: int,
    column: int,
) -> bool {
    &&& relations.len() == 8
    &&& forall|i: int|
        0 <= i < 8 && #[trigger] relations[i] != ArrowRelation::Ignore ==> neighbor(
            grid,
            row,
            column,
            i,
        ).is_some()
}

/// Whether a run that waits for a battle has both cards of that battle on
/// the grid.
pub open spec fn pass_ready(pass: Pass, row: int, column: int) -> bool {
    pass.done() || {
        &&& 0 <= pass.next
        &&& pass.grid[cell(row, column)].card().is_some()
        &&& relations_fit(pass.grid, pass.relations, row, column)
        &&& pass.relations[pass.next] == ArrowRelation::Battle
    }
}

/// The neighbour of a space of the board lies on the board.
pub proof fn lemma_neighbor_cell_range(row: int, column: int, i: int)
    requires
        on_board(row, column),
    ensures
        match neighbor_cell(row, column, i) {
            Some(k) => 0 <= k < 16 && k != cell(row, column),
            None => true,
        },
{
}

/// Two grids of one layout hold cards on the same spaces, and the same
/// cards but for their colours.
pub proof fn lemma_layout_at(a: Seq<Space>, b: Seq<Space>, k: int)
    requires
        layout(a) == layout(b),
        0 <= k < a.len(),
    ensures
        a.len() == b.len(),
        uncolored(a[k]) == uncolored(b[k]),
{
    assert(layout(a).len() == a.len());
    assert(layout(b).len() == b.len());
    assert(layout(a)[k] == uncolored(a[k]));
    assert(layout(b)[k] == uncolored(b[k]));
}

/// A change of colour leaves the layout as it is.
pub proof fn lemma_recolor_layout(grid: Seq<Space>, k: int, color: Color)
    requires
        0 <= k < grid.len(),
    ensures
        layout(recolor(grid, k, color)) == layout(grid),
        recolor(grid, k, color).len() == grid.len(),
{
    assert(layout(recolor(grid, k, color)) =~= layout(grid));
}

/// Captures leave the layout as it is.
pub proof fn lemma_capture_layout(
    grid: Seq<Space>,
    row: int,
    column: int,
    relations: Seq<ArrowRelation>,
    take_only: bool,
    color: Color,
    n: int,
)
    requires
        grid.len() == 16,
        on_board(row, column),
    ensures
        layout(capture(grid, row, column, relations, take_only, color, n)) == layout(grid),
        capture(grid, row, column, relations, take_only, color, n).len() == 16,
    decreases n,
{
    if n > 0 {
        lemma_capture_layout(grid, row, column, relations, take_only, color, n - 1);
        lemma_neighbor_cell_range(row, column, n - 1);
        let before = capture(grid, row, column, relations, take_only, color, n - 1);
        match neighbor_cell(row, column, n - 1) {
            Some(k) => {
                lemma_recolor_layout(before, k, color);
            },
            None => {},
        }
    }
}

/// Captures reach the neighbours of (row, column) and no other space.
pub proof fn lemma_capture_reach(
    grid: Seq<Space>,
    row: int,
    column: int,
    relations: Seq<ArrowRelation>,
    take_only: bool,
    color: Color,
    n: int,
    k: int,
)
    requires
        grid.len() == 16,
        on_board(row, column),
        0 <= k < 16,
        forall|i: int| 0 <= i < n ==> neighbor_cell(row, column, i) != Some(k),
    ensures
        capture(grid, row, column, relations, take_only, color, n)[k] == grid[k],
    decreases n,
{
    if n > 0 {
        lemma_capture_reach(grid, row, column, relations, take_only, color, n - 1, k);
        lemma_capture_layout(grid, row, column, relations, take_only, color, n - 1);
        lemma_neighbor_cell_range(row, column, n - 1);
        assert(neighbor_cell(row, column, n - 1) != Some(k));
    }
}

/// Different directions lead to different spaces.
pub proof fn lemma_neighbor_cells_differ(row: int, column: int, i: int, j: int)
    requires
        on_board(row, column),
        0 <= i < 8,
        0 <= j < 8,
        i != j,
        neighbor_cell(row, column, i).is_some(),
    ensures
        neighbor_cell(row, column, i) != neighbor_cell(row, column, j),
{
}

/// What captures do to one neighbour: the neighbour in the `i`-th direction
/// changes sides once the captures have come to that direction, if its
/// relation captures, and is else as it was.
pub proof fn lemma_capture_at(
    grid: Seq<Space>,
    row: int,
    column: int,
    relations: Seq<ArrowRelation>,
    take_only: bool,
    color: Color,
    n: int,
    i: int,
)
    requires
        grid.len() == 16,
        on_board(row, column),
        0 <= i < 8,
        0 <= n <= 8,
        neighbor_cell(row, column, i).is_some(),
    ensures
        ({
            let k = neighbor_cell(row, column, i).unwrap();
            capture(grid, row, column, relations, take_only, color, n)[k] == (if i < n && captures(
                relations[i],
                take_only,
            ) {
                recolor(grid, k, color)[k]
            } else {
                grid[k]
            })
        }),
    decreases n,
{
    if n > 0 {
        lemma_capture_at(grid, row, column, relations, take_only, color, n - 1, i);
        lemma_capture_layout(grid, row, column, relations, take_only, color, n - 1);
        lemma_neighbor_cell_range(row, column, n - 1);
        lemma_neighbor_cell_range(row, column, i);
        if n - 1 != i {
            lemma_neighbor_cells_differ(row, column, i, n - 1);
        }
    }
}

/// What a combo does to one neighbour of the card that was captured: the
/// neighbour goes to the winner exactly if it is a card of another colour to
/// which the captured card has an arrow.
pub proof fn lemma_combo_at(grid: Seq<Space>, winner: Color, loser: PlacedCard, i: int)
    requires
        grid.len() == 16,
        on_board(loser.row as int, loser.column as int),
        grid[cell(loser.row as int, loser.column as int)].card().is_some(),
        0 <= i < 8,
        neighbor_cell(loser.row as int, loser.column as int, i).is_some(),
    ensures
        ({
            let k = neighbor_cell(loser.row as int, loser.column as int, i).unwrap();
            combo(grid, winner, loser)[k] == (match grid[k] {
                Space::Card(placed) => if placed.card.color != winner
                    && loser.card.card.arrows.points(Direction::spec_from_index(i)) {
                    Space::Card(placed.recolored(winner))
                } else {
                    grid[k]
                },
                _ => grid[k],
            })
        }),
{
    let row = loser.row as int;
    let column = loser.column as int;
    lemma_neighbor_cell_range(row, column, i);
    lemma_capture_at(
        grid,
        row,
        column,
        relations_of(grid, loser.card.card.arrows, winner, row, column),
        false,
        winner,
        8,
        i,
    );
}

/// A combo is one ply deep: it changes no space but the neighbours of the
/// card that was captured, whatever arrows those neighbours have.
pub proof fn lemma_combo_one_ply(grid: Seq<Space>, winner: Color, loser: PlacedCard, k: int)
    requires
        grid.len() == 16,
        on_board(loser.row as int, loser.column as int),
        0 <= k < 16,
        forall|i: int|
            0 <= i < 8 ==> neighbor_cell(loser.row as int, loser.column as int, i) != Some(k),
    ensures
        combo(grid, winner, loser)[k] == grid[k],
{
    let row = loser.row as int;
    let column = loser.column as int;
    lemma_capture_reach(
        grid,
        row,
        column,
        relations_of(grid, loser.card.card.arrows, winner, row, column),
        false,
        winner,
        8,
        k,
    );
}

/// A combo leaves the captured card itself as it is.
pub proof fn lemma_combo_spares_loser(grid: Seq<Space>, winner: Color, loser: PlacedCard)
    requires
        grid.len() == 16,
        on_board(loser.row as int, loser.column as int),
    ensures
        combo(grid, winner, loser)[cell(loser.row as int, loser.column as int)] == grid[cell(
            loser.row as int,
            loser.column as int,
        )],
{
    let row = loser.row as int;
    let column = loser.column as int;
    assert forall|i: int| 0 <= i < 8 implies neighbor_cell(row, column, i) != Some(
        cell(row, column),
    ) by {
        lemma_neighbor_cell_range(row, column, i);
    }
    lemma_combo_one_ply(grid, winner, loser, cell(row, column));
}

/// After a battle that the attacker won, the defender is of the attacker's
/// colour and the attacker is as it was.
pub proof fn lemma_attacker_wins_at(grid: Seq<Space>, row: int, column: int, i: int)
    requires
        grid_well_formed(grid),
        on_board(row, column),
        0 <= i < 8,
        grid[cell(row, column)].card().is_some(),
        neighbor(grid, row, column, i).is_some(),
    ensures
        ({
            let attacker = grid[cell(row, column)].card().unwrap();
            let k = neighbor_cell(row, column, i).unwrap();
            let defender = grid[k].card().unwrap();
            let after = attacker_wins(grid, row, column, i);
            &&& after[k] == Space::Card(defender.recolored(attacker.card.color))
            &&& after[cell(row, column)] == grid[cell(row, column)]
        }),
{
    let attacker = grid[cell(row, column)].card().unwrap();
    let k = neighbor_cell(row, column, i).unwrap();
    let defender = grid[k].card().unwrap();
    let direction = Direction::spec_from_index(i);
    lemma_neighbor_cell_range(row, column, i);
    let turned = recolor(grid, k, attacker.card.color);
    lemma_combo_spares_loser(turned, attacker.card.color, defender);
    direction.lemma_index_round_trip();
    lemma_neighbor_looks_back(row, column, direction);
    lemma_combo_at(turned, attacker.card.color, defender, direction.opposite().index());
}

/// After a battle that the attacker lost, the attacker is of the defender's
/// colour and the defender is as it was.
pub proof fn lemma_defender_wins_at(grid: Seq<Space>, row: int, column: int, i: int)
    requires
        grid_well_formed(grid),
        on_board(row, column),
        0 <= i < 8,
        grid[cell(row, column)].card().is_some(),
        neighbor(grid, row, column, i).is_some(),
    ensures
        ({
            let attacker = grid[cell(row, column)].card().unwrap();
            let k = neighbor_cell(row, column, i).unwrap();
            let defender = grid[k].card().unwrap();
            let after = defender_wins(grid, row, column, i);
            &&& after[cell(row, column)] == Space::Card(attacker.recolored(defender.card.color))
            &&& after[k] == grid[k]
        }),
{
    let attacker = grid[cell(row, column)].card().unwrap();
    let k = neighbor_cell(row, column, i).unwrap();
    let defender = grid[k].card().unwrap();
    lemma_neighbor_cell_range(row, column, i);
    let turned = recolor(grid, cell(row, column), defender.card.color);
    lemma_combo_spares_loser(turned, defender.card.color, attacker);
    lemma_combo_at(turned, defender.card.color, attacker, i);
}

/// A combo leaves the layout as it is.
pub proof fn lemma_combo_layout(grid: Seq<Space>, winner: Color, loser: PlacedCard)
    requires
        grid.len() == 16,
        on_board(loser.row as int, loser.column as int),
    ensures
        layout(combo(grid, winner, loser)) == layout(grid),
        combo(grid, winner, loser).len() == 16,
{
    let row = loser.row as int;
    let column = loser.column as int;
    lemma_capture_layout(
        grid,
        row,
        column,
        relations_of(grid, loser.card.card.arrows, winner, row, column),
        false,
        winner,
        8,
    );
}

/// A grid with the layout of a well-formed grid is well-formed.
pub proof fn lemma_layout_well_formed(a: Seq<Space>, b: Seq<Space>)
    requires
        grid_well_formed(a),
        layout(a) == layout(b),
    ensures
        grid_well_formed(b),
{
    assert(layout(a).len() == a.len());
    assert(layout(b).len() == b.len());
    assert forall|k: int| 0 <= k < 16 implies match #[trigger] b[k] {
        Space::Card(placed) => placed.row == k / 4 + 1 && placed.column == k % 4 + 1
            && placed.card.card.well_formed(),
        _ => true,
    } by {
        lemma_layout_at(a, b, k);
        assert(match a[k] {
            Space::Card(placed) => placed.row == k / 4 + 1 && placed.column == k % 4 + 1
                && placed.card.card.well_formed(),
            _ => true,
        });
    }
}

/// Relations that fit a grid fit every grid of the same layout.
pub proof fn lemma_layout_fit(
    a: Seq<Space>,
    b: Seq<Space>,
    relations: Seq<ArrowRelation>,
    row: int,
    column: int,
)
    requires
        a.len() == 16,
        on_board(row, column),
        layout(a) == layout(b),
        relations_fit(a, relations, row, column),
    ensures
        relations_fit(b, relations, row, column),
        a[cell(row, column)].card().is_some() == b[cell(row, column)].card().is_some(),
{
    lemma_layout_at(a, b, cell(row, column));
    assert forall|i: int|
        0 <= i < 8 && #[trigger] relations[i] != ArrowRelation::Ignore implies neighbor(
        b,
        row,
        column,
        i,
    ).is_some() by {
        lemma_neighbor_cell_range(row, column, i);
        assert(neighbor(a, row, column, i).is_some());
        lemma_layout_at(a, b, neighbor_cell(row, column, i).unwrap());
    }
}

/// The relations of a card fit the grid they were found on.
pub proof fn lemma_relations_fit(grid: Seq<Space>, row: int, column: int)
    requires
        grid[cell(row, column)].card().is_some(),
    ensures
        relations_fit(grid, relations(grid, row, column), row, column),
{
}

/// The most battles that one call of [`Board::run_battles`] fights.
pub const MAX_BATTLES: u64 = 0xffff_ffff_ffff_ffff;

/// A run through the battles of a placed card: the relations found when it
/// began and the direction of the battle that is fought next.
struct Pending {
    relations: Vec<ArrowRelation>,
    next: usize,
}

impl Pending {
    /// The run on the grid it works on.
    spec fn on(self, grid: Seq<Space>) -> Pass {
        Pass { grid, relations: self.relations@, next: self.next as int }
    }
}

impl Board {
    /// Gives the card on a space, if there is one, to `color`.
    fn recolor_at(&mut self, row: usize, column: usize, color: Color)
        requires
            on_board(row as int, column as int),
        ensures
            final(self)@ == recolor(old(self)@, cell(row as int, column as int), color),
    {
        let space = self.spaces[row - 1][column - 1];
        if let Space::Card(placed) = space {
            let card = OwnedCard { card: placed.card.card, color };
            self.spaces[row - 1][column - 1] = Space::Card(
                PlacedCard { card, row: placed.row, column: placed.column },
            );
        }
        assert(self@ =~= recolor(old(self)@, cell(row as int, column as int), color));
    }

    /// The relations of a card of `color` with `arrows` that lies on
    /// (row, column) to its eight neighbours. Without a card on the space
    /// there are none.
    fn relations_for(&self, arrows: &Arrows, color: Color, row: usize, column: usize) -> (found:
        Vec<ArrowRelation>)
        requires
            on_board(row as int, column as int),
        ensures
            self@[cell(row as int, column as int)].card().is_some() ==> found@ == relations_of(
                self@,
                *arrows,
                color,
                row as int,
                column as int,
            ),
            self@[cell(row as int, column as int)].card().is_none() ==> found@.len() == 0,
    {
        let cards = self.neighbors(row, column);
        let mut found: Vec<ArrowRelation> = Vec::new();
        let mut i: usize = 0;
        while i < cards.len()
            invariant
                i <= cards@.len(),
                cards@.len() == 0 || cards@.len() == 8,
                found@.len() == i,
                forall|j: int|
                    0 <= j < cards@.len() ==> match #[trigger] cards@[j] {
                        Some(placed) => neighbor(self@, row as int, column as int, j) == Some(
                            *placed,
                        ),
                        None => neighbor(self@, row as int, column as int, j).is_none(),
                    },
                forall|j: int|
                    0 <= j < i ==> found@[j] == contest(
                        self@,
                        *arrows,
                        color,
                        row as int,
                        column as int,
                        j,
                    ),
            decreases cards@.len() - i,
        {
            let relation = match cards[i] {
                Some(placed) => if placed.card.color != color {
                    arrows.relation_from(Direction::from_index(i), &placed.card.card.arrows)
                } else {
                    ArrowRelation::Ignore
                },
                None => ArrowRelation::Ignore,
            };
            found.push(relation);
            i += 1;
        }
        proof {
            if self@[cell(row as int, column as int)].card().is_some() {
                assert(found@ =~= relations_of(self@, *arrows, color, row as int, column as int));
            }
        }
        found
    }

    /// The relations of the card on (row, column) to its eight neighbours,
    /// in the order of [`Board::neighbors`]. A neighbour of the card's own
    /// colour, an empty or blocked space and the edge of the board count as
    /// ignore. Without a card on the space there are none.
    pub fn relations(&self, row: usize, column: usize) -> (found: Vec<ArrowRelation>)
        requires
            on_board(row as int, column as int),
        ensures
            found@ == relations(self@, row as int, column as int),
    {
        match *self.space(row, column) {
            Space::Card(ref placed) => self.relations_for(
                &placed.card.card.arrows,
                placed.card.color,
                row,
                column,
            ),
            _ => {
                let found: Vec<ArrowRelation> = Vec::new();
                assert(found@ =~= relations(self@, row as int, column as int));
                found
            },
        }
    }

    /// Gives to `color` every neighbour of (row, column) whose relation
    /// captures.
    fn capture_all(
        &mut self,
        row: usize,
        column: usize,
        relations: &Vec<ArrowRelation>,
        take_only: bool,
        color: Color,
    )
        requires
            on_board(row as int, column as int),
            relations@.len() == 8,
        ensures
            final(self)@ == capture(
                old(self)@,
                row as int,
                column as int,
                relations@,
                take_only,
                color,
                8,
            ),
    {
        let mut i: usize = 0;
        while i < 8
            invariant
                i <= 8,
                on_board(row as int, column as int),
                relations@.len() == 8,
                self@ == capture(
                    old(self)@,
                    row as int,
                    column as int,
                    relations@,
                    take_only,
                    color,
                    i as int,
                ),
            decreases 8 - i,
        {
            let direction = Direction::from_index(i);
            let r: usize = (row + 1) - direction.row_toward_top();
            let c: usize = (column + 1) - direction.column_toward_left();
            let relation = relations[i];
            let marked: bool = if take_only {
                relation == ArrowRelation::Take
            } else {
                relation != ArrowRelation::Ignore
            };
            if 1 <= r && r <= 4 && 1 <= c && c <= 4 && marked {
                self.recolor_at(r, c, color);
            }
            i += 1;
        }
    }

    /// The combo that follows a capture: every neighbour of `loser` that is
    /// not of the winner's colour, and to which `loser` has an arrow, goes to
    /// the winner. Nothing happens where the space of `loser` holds no card.
    pub fn do_combo(&mut self, winner: &PlacedCard, loser: &PlacedCard)
        requires
            on_board(loser.row as int, loser.column as int),
        ensures
            final(self)@ == combo(old(self)@, winner.card.color, *loser),
            layout(final(self)@) == layout(old(self)@),
            old(self).well_formed() ==> final(self).well_formed(),
    {
        proof {
            lemma_combo_layout(self@, winner.card.color, *loser);
            if self.well_formed() {
                lemma_layout_well_formed(self@, combo(self@, winner.card.color, *loser));
            }
        }
        let found = self.relations_for(
            &loser.card.card.arrows,
            winner.card.color,
            loser.row,
            loser.column,
        );
        if found.len() == 8 {
            self.capture_all(loser.row, loser.column, &found, false, winner.card.color);
        }
    }

    /// Goes on to the next battle of a run, or ends the run with its takes.
    fn settle_run(&mut self, row: usize, column: usize, relations: Vec<ArrowRelation>, from: usize) -> (pending:
        Pending)
        requires
            on_board(row as int, column as int),
            from <= 8,
            old(self)@[cell(row as int, column as int)].card().is_some(),
            relations@.len() == 8,
        ensures
            pending.on(final(self)@) == settle(
                old(self)@,
                relations@,
                row as int,
                column as int,
                from as int,
            ),
            pending.relations@ == relations@,
            layout(final(self)@) == layout(old(self)@),
            pending.next < 8 ==> relations@[pending.next as int] == ArrowRelation::Battle,
    {
        let mut next: usize = from;
        while next < 8 && !(relations[next] == ArrowRelation::Battle)
            invariant
                from <= next <= 8,
                relations@.len() == 8,
                settle(self@, relations@, row as int, column as int, next as int) == settle(
                    self@,
                    relations@,
                    row as int,
                    column as int,
                    from as int,
                ),
            decreases 8 - next,
        {
            next += 1;
        }
        if next >= 8 {
            let color = match *self.space(row, column) {
                Space::Card(ref placed) => placed.card.color,
                _ => unreached(),
            };
            proof {
                lemma_capture_layout(self@, row as int, column as int, relations@, true, color, 8);
            }
            self.capture_all(row, column, &relations, true, color);
            Pending { relations, next: 8 }
        } else {
            Pending { relations, next }
        }
    }

    /// Begins a run for the card on (row, column).
    fn begin_run(&mut self, row: usize, column: usize) -> (pending: Pending)
        requires
            on_board(row as int, column as int),
            old(self).well_formed(),
        ensures
            pending.on(final(self)@) == begin(old(self)@, row as int, column as int),
            pass_ready(pending.on(final(self)@), row as int, column as int),
            layout(final(self)@) == layout(old(self)@),
            final(self).well_formed(),
    {
        let found = self.relations(row, column);
        if found.len() == 8 {
            proof {
                lemma_relations_fit(self@, row as int, column as int);
            }
            let pending = self.settle_run(row, column, found, 0);
            proof {
                lemma_layout_fit(old(self)@, self@, pending.relations@, row as int, column as int);
                lemma_layout_well_formed(old(self)@, self@);
            }
            pending
        } else {
            Pending { relations: found, next: 8 }
        }
    }

    /// Takes a run one battle further.
    fn resolve(&mut self, row: usize, column: usize, pending: Pending, outcome: BattleResult) -> (after:
        Pending)
        requires
            on_board(row as int, column as int),
            old(self).well_formed(),
            pass_ready(pending.on(old(self)@), row as int, column as int),
        ensures
            after.on(final(self)@) == step(
                pending.on(old(self)@),
                row as int,
                column as int,
                outcome,
            ),
            pass_ready(after.on(final(self)@), row as int, column as int),
            layout(final(self)@) == layout(old(self)@),
            final(self).well_formed(),
    {
        if pending.next >= 8 {
            return pending;
        }
        proof {
            lemma_neighbor_cell_range(row as int, column as int, pending.next as int);
        }
        let attacker = match *self.space(row, column) {
            Space::Card(placed) => placed,
            _ => unreached(),
        };
        let direction = Direction::from_index(pending.next);
        let r: usize = (row + 1) - direction.row_toward_top();
        let c: usize = (column + 1) - direction.column_toward_left();
        let defender = match *self.space(r, c) {
            Space::Card(placed) => placed,
            _ => unreached(),
        };
        match outcome {
            BattleResult::Attacker => {
                self.recolor_at(r, c, attacker.card.color);
                proof {
                    lemma_recolor_layout(old(self)@, cell(r as int, c as int), attacker.card.color);
                }
                self.do_combo(&attacker, &defender);
                proof {
                    lemma_layout_fit(
                        old(self)@,
                        self@,
                        pending.relations@,
                        row as int,
                        column as int,
                    );
                    lemma_layout_well_formed(old(self)@, self@);
                }
                let ghost middle = self@;
                let after = self.settle_run(row, column, pending.relations, pending.next + 1);
                proof {
                    lemma_layout_fit(middle, self@, after.relations@, row as int, column as int);
                    lemma_layout_well_formed(middle, self@);
                }
                after
            },
            BattleResult::Defender => {
                self.recolor_at(row, column, defender.card.color);
                proof {
                    lemma_recolor_layout(
                        old(self)@,
                        cell(row as int, column as int),
                        defender.card.color,
                    );
                }
                self.do_combo(&defender, &attacker);
                proof {
                    lemma_layout_well_formed(old(self)@, self@);
                }
                Pending { relations: pending.relations, next: 8 }
            },
            BattleResult::Draw => self.begin_run(row, column),
        }
    }

    /// Resolves the battles of the card on (row, column) with the given
    /// outcomes in place of rolls: the first battle ends as the first outcome
    /// says, and so on. The board is left as it stands when the battles are
    /// over or the outcomes are used up; outcomes that are left over are not
    /// looked at. Returns whether the battles are over.
    pub fn run_battles_with(&mut self, row: usize, column: usize, outcomes: &Vec<BattleResult>) -> (done:
        bool)
        requires
            on_board(row as int, column as int),
            old(self).well_formed(),
        ensures
            final(self)@ == play(old(self)@, row as int, column as int, outcomes@).grid,
            done == play(old(self)@, row as int, column as int, outcomes@).done(),
            layout(final(self)@) == layout(old(self)@),
            final(self).well_formed(),
    {
        let mut pending = self.begin_run(row, column);
        let mut used: usize = 0;
        assert(outcomes@.take(0) =~= Seq::empty());
        while used < outcomes.len()
            invariant
                used <= outcomes@.len(),
                on_board(row as int, column as int),
                self.well_formed(),
                layout(self@) == layout(old(self)@),
                pass_ready(pending.on(self@), row as int, column as int),
                pending.on(self@) == play(
                    old(self)@,
                    row as int,
                    column as int,
                    outcomes@.take(used as int),
                ),
            decreases outcomes@.len() - used,
        {
            let outcome = outcomes[used];
            proof {
                let longer = outcomes@.take(used + 1);
                assert(longer.drop_last() =~= outcomes@.take(used as int));
                assert(longer.last() == outcome);
            }
            pending = self.resolve(row, column, pending, outcome);
            used += 1;
        }
        assert(outcomes@.take(used as int) =~= outcomes@);
        pending.next >= 8
    }

    /// Resolves the battles of the card that was just placed on
    /// (row, column). Each neighbour of the other colour that the card
    /// battles is fought in the order of [`Board::neighbors`]. A neighbour
    /// that loses changes sides, and its combo follows. Where the card loses,
    /// it changes sides, its combo follows, and nothing more happens. A draw
    /// begins the whole again on the board as it is. A card that has lost no
    /// battle takes the neighbours that it points at and that do not point
    /// back.
    ///
    /// The board ends as [`Board::run_battles_with`] leaves it for some
    /// outcomes. The call fights at most [`MAX_BATTLES`] battles.
    pub fn run_battles(&mut self, row: usize, column: usize)
        requires
            on_board(row as int, column as int),
            old(self).well_formed(),
        ensures
            exists|outcomes: Seq<BattleResult>|
                {
                    let pass = #[trigger] play(old(self)@, row as int, column as int, outcomes);
                    &&& final(self)@ == pass.grid
                    &&& outcomes.len() <= MAX_BATTLES
                    &&& pass.done() || outcomes.len() == MAX_BATTLES
                },
            layout(final(self)@) == layout(old(self)@),
            final(self).well_formed(),
    {
        let mut pending = self.begin_run(row, column);
        let mut fought: u64 = 0;
        let ghost mut outcomes: Seq<BattleResult> = Seq::empty();
        while pending.next < 8 && fought < MAX_BATTLES
            invariant
                on_board(row as int, column as int),
                self.well_formed(),
                layout(self@) == layout(old(self)@),
                outcomes.len() == fought,
                pass_ready(pending.on(self@), row as int, column as int),
                pending.on(self@) == play(old(self)@, row as int, column as int, outcomes),
            decreases MAX_BATTLES - fought,
        {
            let outcome = self.fight(row, column, pending.next);
            proof {
                let longer = outcomes.push(outcome);
                assert(longer.drop_last() =~= outcomes);
                assert(longer.last() == outcome);
                outcomes = longer;
            }
            pending = self.resolve(row, column, pending, outcome);
            fought += 1;
        }
    }

    /// Fights the battle of the card on (row, column) against its neighbour
    /// in the `i`-th direction.
    fn fight(&self, row: usize, column: usize, i: usize) -> (outcome: BattleResult)
        requires
            on_board(row as int, column as int),
            self.well_formed(),
            i < 8,
            self@[cell(row as int, column as int)].card().is_some(),
            neighbor(self@, row as int, column as int, i as int).is_some(),
    {
        let direction = Direction::from_index(i);
        let r: usize = (row + 1) - direction.row_toward_top();
        let c: usize = (column + 1) - direction.column_toward_left();
        match (*self.space(row, column), *self.space(r, c)) {
            (Space::Card(attacker), Space::Card(defender)) => {
                proof {
                    attacker.card.card.lemma_levels_in_range(defender.card.card);
                }
                TetraMaster::battle(&attacker.card.card, &defender.card.card)
            },
            _ => unreached(),
        }
    }
}

/// However many battles in a row end in a draw, the board is as it was
/// before the first of them, and the run stands where it began.
pub proof fn lemma_draws_change_nothing(
    grid: Seq<Space>,
    row: int,
    column: int,
    outcomes: Seq<BattleResult>,
)
    requires
        forall|i: int| 0 <= i < outcomes.len() ==> outcomes[i] == BattleResult::Draw,
    ensures
        play(grid, row, column, outcomes) == begin(grid, row, column),
        !begin(grid, row, column).done() ==> play(grid, row, column, outcomes).grid == grid,
    decreases outcomes.len(),
{
    if grid[cell(row, column)].card().is_some() {
        lemma_settle_waits(grid, relations(grid, row, column), row, column, 0);
    }
    if outcomes.len() > 0 {
        lemma_draws_change_nothing(grid, row, column, outcomes.drop_last());
    }
}

/// A draw begins a new run on the board as it stands. The board stays as it
/// is unless no battle is left on it: then the new run ends at once, with
/// its takes.
pub proof fn lemma_draw_restarts(pass: Pass, row: int, column: int)
    requires
        !pass.done(),
    ensures
        step(pass, row, column, BattleResult::Draw) == begin(pass.grid, row, column),
        !begin(pass.grid, row, column).done() ==> step(
            pass,
            row,
            column,
            BattleResult::Draw,
        ).grid == pass.grid,
{
    if pass.grid[cell(row, column)].card().is_some() {
        lemma_settle_waits(pass.grid, relations(pass.grid, row, column), row, column, 0);
    }
}

/// Once a run is over, further outcomes change nothing.
pub proof fn lemma_play_stays_done(
    grid: Seq<Space>,
    row: int,
    column: int,
    outcomes: Seq<BattleResult>,
    more: Seq<BattleResult>,
)
    requires
        play(grid, row, column, outcomes).done(),
    ensures
        play(grid, row, column, outcomes + more) == play(grid, row, column, outcomes),
    decreases more.len(),
{
    if more.len() == 0 {
        assert(outcomes + more =~= outcomes);
    } else {
        lemma_play_stays_done(grid, row, column, outcomes, more.drop_last());
        assert((outcomes + more).drop_last() =~= outcomes + more.drop_last());
    }
}

/// A run that waits for a battle has changed nothing on the way there.
pub proof fn lemma_settle_waits(
    grid: Seq<Space>,
    relations: Seq<ArrowRelation>,
    row: int,
    column: int,
    next: int,
)
    ensures
        !settle(grid, relations, row, column, next).done() ==> settle(
            grid,
            relations,
            row,
            column,
            next,
        ).grid == grid,
    decreases 8 - next,
{
    if next < 8 && relations[next] != ArrowRelation::Battle {
        lemma_settle_waits(grid, relations, row, column, next + 1);
    }
}

} // verus!
