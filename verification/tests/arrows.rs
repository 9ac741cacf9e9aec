use tetra_master::{ArrowRelation, Arrows, Direction};

const PAIRS: [(Direction, u8, u8); 8] = [
    (Direction::North, 0x80, 0x08),
    (Direction::Northeast, 0x40, 0x04),
    (Direction::East, 0x20, 0x02),
    (Direction::Southeast, 0x10, 0x01),
    (Direction::South, 0x08, 0x80),
    (Direction::Southwest, 0x04, 0x40),
    (Direction::West, 0x02, 0x20),
    (Direction::Northwest, 0x01, 0x10),
];

#[test]
fn relation_truth_table() {
    for (direction, attack, defend) in PAIRS {
        let with = Arrows::from_flags(attack);
        let without = Arrows::from_flags(!attack);
        let back = Arrows::from_flags(defend);
        let away = Arrows::from_flags(!defend);
        assert_eq!(with.relation_from(direction, &back), ArrowRelation::Battle);
        assert_eq!(with.relation_from(direction, &away), ArrowRelation::Take);
        assert_eq!(without.relation_from(direction, &back), ArrowRelation::Ignore);
        assert_eq!(without.relation_from(direction, &away), ArrowRelation::Ignore);
    }
}

#[test]
fn getters_read_their_bit() {
    let checks: [(u8, fn(&Arrows) -> bool); 8] = [
        (0x80, Arrows::north),
        (0x40, Arrows::northeast),
        (0x20, Arrows::east),
        (0x10, Arrows::southeast),
        (0x08, Arrows::south),
        (0x04, Arrows::southwest),
        (0x02, Arrows::west),
        (0x01, Arrows::northwest),
    ];
    for (bit, getter) in checks {
        assert!(getter(&Arrows::from_flags(bit)));
        assert!(!getter(&Arrows::from_flags(!bit)));
        assert!(getter(&Arrows::from_flags(0xFF)));
        assert!(!getter(&Arrows::from_flags(0)));
    }
}

#[test]
fn setters_change_their_bit_alone() {
    let setters: [(u8, fn(&mut Arrows, bool)); 8] = [
        (0x80, Arrows::set_north),
        (0x40, Arrows::set_northeast),
        (0x20, Arrows::set_east),
        (0x10, Arrows::set_southeast),
        (0x08, Arrows::set_south),
        (0x04, Arrows::set_southwest),
        (0x02, Arrows::set_west),
        (0x01, Arrows::set_northwest),
    ];
    for (bit, setter) in setters {
        for start in [0x00u8, 0xFF, 0xA5, 0x5A] {
            let mut arrows = Arrows::from_flags(start);
            setter(&mut arrows, true);
            assert_eq!(arrows.flags, start | bit);
            setter(&mut arrows, false);
            assert_eq!(arrows.flags, start & !bit);
        }
    }
}

#[test]
fn set_and_has_by_direction() {
    let mut arrows = Arrows::default();
    assert_eq!(arrows.flags, 0);
    arrows.set(Direction::Southwest, true);
    assert!(arrows.has(Direction::Southwest));
    assert!(arrows.southwest());
    assert!(!arrows.has(Direction::Northeast));
    assert_eq!(arrows.flags, 0x04);
    assert_eq!(Direction::Southwest.arrow_mask(), 0x04);
}

#[test]
fn directions_by_index() {
    let order = [
        Direction::West,
        Direction::East,
        Direction::North,
        Direction::Northwest,
        Direction::Northeast,
        Direction::South,
        Direction::Southwest,
        Direction::Southeast,
    ];
    for (i, direction) in order.iter().enumerate() {
        assert_eq!(Direction::from_index(i), *direction);
    }
    assert_eq!(Direction::North.row_toward_top(), 2);
    assert_eq!(Direction::South.row_toward_top(), 0);
    assert_eq!(Direction::West.column_toward_left(), 2);
    assert_eq!(Direction::East.column_toward_left(), 0);
    assert_eq!(Direction::North.column_toward_left(), 1);
}
