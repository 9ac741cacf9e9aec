use tetra_master::roll::{roll_up_to, stat, stat_range};
use tetra_master::{BattleResult, Card, Class, TetraMaster};

#[test]
fn judge_compares_final_scores() {
    assert_eq!(TetraMaster::judge(7, 7), BattleResult::Draw);
    assert_eq!(TetraMaster::judge(0, 0), BattleResult::Draw);
    assert_eq!(TetraMaster::judge(8, 7), BattleResult::Attacker);
    assert_eq!(TetraMaster::judge(7, 8), BattleResult::Defender);
    assert_eq!(TetraMaster::judge(255, 0), BattleResult::Attacker);
}

#[test]
fn stat_ranges_are_sixteen_wide() {
    assert_eq!(stat_range(0), (0, 15));
    assert_eq!(stat_range(1), (16, 31));
    assert_eq!(stat_range(7), (112, 127));
    assert_eq!(stat_range(15), (240, 255));
    for level in 0..16u8 {
        let (low, high) = stat_range(level);
        assert_eq!(low as u16, 16 * level as u16);
        assert_eq!(high as u16, 16 * level as u16 + 15);
    }
}

#[test]
fn stat_stays_in_its_range() {
    for level in 0..16u8 {
        let (low, high) = stat_range(level);
        for _ in 0..200 {
            let score = stat(level).expect("a score");
            assert!(low <= score && score <= high);
        }
    }
}

#[test]
fn stat_refuses_what_is_no_level() {
    assert_eq!(stat(16), None);
    assert_eq!(stat(255), None);
}

#[test]
fn rolls_vary_and_stay_below_the_ceiling() {
    let mut seen = [false; 256];
    for _ in 0..2000 {
        let score = roll_up_to(9);
        assert!(score <= 9);
        seen[score as usize] = true;
    }
    assert!(seen[0] && seen[9]);
    assert_eq!(roll_up_to(0), 0);
    let mut top = [false; 16];
    for _ in 0..2000 {
        top[(stat(15).unwrap() - 240) as usize] = true;
    }
    assert!(top[0] && top[15]);
    for _ in 0..200 {
        assert!(roll_up_to(255) <= 255);
    }
}

#[test]
fn score_battle_works_out_one_battle() {
    let attacker = Card::new(5, Class::Assault, 9, 2);
    let defender = Card::new(8, Class::Flexible, 3, 7);
    let e = TetraMaster::score_battle(&attacker, &defender, 150, 60, 100, 20);
    assert_eq!(e.attacker_level, 9);
    assert_eq!((e.attacker_low, e.attacker_high), (144, 159));
    assert_eq!(e.defender_level, 3);
    assert_eq!((e.defender_low, e.defender_high), (48, 63));
    assert_eq!(e.max_attacker_score, 150);
    assert_eq!(e.max_defender_score, 60);
    assert_eq!(e.attacker_score, 100);
    assert_eq!(e.defender_score, 20);
    assert_eq!(e.final_attack_score, 50);
    assert_eq!(e.final_defense_score, 40);
    assert_eq!(e.result, BattleResult::Attacker);
    let lost = TetraMaster::score_battle(&attacker, &defender, 150, 60, 120, 20);
    assert_eq!(lost.final_attack_score, 30);
    assert_eq!(lost.result, BattleResult::Defender);
    let draw = TetraMaster::score_battle(&attacker, &defender, 150, 60, 110, 20);
    assert_eq!(draw.result, BattleResult::Draw);
}

#[test]
fn explained_battle_is_consistent() {
    let attacker = TetraMaster::parse_card("7X3A").unwrap();
    let defender = TetraMaster::parse_card("2M94").unwrap();
    for _ in 0..500 {
        let e = TetraMaster::explain_battle(&attacker, &defender);
        assert_eq!(e.attacker_level, 7);
        assert_eq!(e.defender_level, 4);
        assert_eq!((e.attacker_low, e.attacker_high), (112, 127));
        assert_eq!((e.defender_low, e.defender_high), (64, 79));
        assert!(e.attacker_low <= e.max_attacker_score && e.max_attacker_score <= e.attacker_high);
        assert!(e.defender_low <= e.max_defender_score && e.max_defender_score <= e.defender_high);
        assert!(e.attacker_score <= e.max_attacker_score);
        assert!(e.defender_score <= e.max_defender_score);
        assert_eq!(e.final_attack_score, e.max_attacker_score - e.attacker_score);
        assert_eq!(e.final_defense_score, e.max_defender_score - e.defender_score);
        assert_eq!(e.result, TetraMaster::judge(e.final_attack_score, e.final_defense_score));
    }
}

#[test]
fn battle_gives_one_of_three_results() {
    for power in [0u8, 7, 15] {
        for defense in [0u8, 7, 15] {
            let attacker = Card::new(power, Class::Physical, 0, 0);
            let defender = Card::new(0, Class::Magical, defense, 0);
            for _ in 0..50 {
                let result = TetraMaster::battle(&attacker, &defender);
                assert!(matches!(
                    result,
                    BattleResult::Attacker | BattleResult::Defender | BattleResult::Draw
                ));
            }
        }
    }
}

#[test]
fn strong_attacker_is_favoured() {
    let attacker = TetraMaster::parse_card("FP00").unwrap();
    let defender = TetraMaster::parse_card("0P0F").unwrap();
    assert_eq!(attacker.offense_level(), 15);
    // a physical attacker meets the physical defense, which this text gives as 0
    assert_eq!(attacker.defense_level(&defender), 0);
    let mut wins = 0;
    let mut losses = 0;
    for _ in 0..4000 {
        match TetraMaster::battle(&attacker, &defender) {
            BattleResult::Attacker => wins += 1,
            BattleResult::Defender => losses += 1,
            BattleResult::Draw => {}
        }
    }
    assert!(wins >= 1 && losses >= 1);
    assert!(wins > 4 * losses);
}

#[test]
fn even_levels_let_both_sides_win() {
    let attacker = TetraMaster::parse_card("FM00").unwrap();
    let defender = TetraMaster::parse_card("0P0F").unwrap();
    assert_eq!(attacker.defense_level(&defender), 15);
    let mut wins = 0;
    let mut losses = 0;
    for _ in 0..2000 {
        match TetraMaster::battle(&attacker, &defender) {
            BattleResult::Attacker => wins += 1,
            BattleResult::Defender => losses += 1,
            BattleResult::Draw => {}
        }
    }
    assert!(wins > 100 && losses > 100);
}
