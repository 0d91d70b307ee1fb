use ultramap::level::is_valid_level;
use ultramap::pattern::{MAP_SIDE, MAP_SIZE};
use ultramap::{MapPattern, Prefab};

#[test]
fn default_pattern_is_flat_and_empty() {
    let pattern = MapPattern::default();
    assert_eq!(pattern.get_level_map().len(), 256);
    assert_eq!(pattern.get_prefab_map().len(), 256);
    assert!(pattern.get_level_map().iter().all(|level| *level == 0));
    assert!(pattern.get_prefab_map().iter().all(|prefab| *prefab == Prefab::Empty));
}

#[test]
fn grid_is_sixteen_by_sixteen() {
    assert_eq!(MAP_SIDE, 16);
    assert_eq!(MAP_SIZE, 256);
    assert_eq!(MAP_SIDE * MAP_SIDE, MAP_SIZE);
}

#[test]
fn set_level_at_index_accepts_the_last_cell_and_the_highest_level() {
    let mut pattern = MapPattern::default();
    assert!(MapPattern::contains_index(255));
    assert!(is_valid_level(50));
    pattern.set_level_at_index(255, 50);
    assert_eq!(pattern.get_level_map()[255], 50);
    assert!(pattern.get_level_map()[..255].iter().all(|level| *level == 0));
}

#[test]
fn index_past_the_grid_is_refused() {
    assert!(!MapPattern::contains_index(256));
    assert!(!MapPattern::contains_index(usize::MAX));
    assert!(MapPattern::contains_index(0));
}

#[test]
fn level_out_of_range_is_refused() {
    assert!(!is_valid_level(51));
    assert!(!is_valid_level(-51));
    assert!(!is_valid_level(i8::MAX));
    assert!(!is_valid_level(i8::MIN));
    assert!(is_valid_level(-50));
    assert!(is_valid_level(0));
}

#[test]
fn cells_are_those_of_sixteen_rows_and_columns() {
    assert!(MapPattern::contains_cell(0, 0));
    assert!(MapPattern::contains_cell(15, 15));
    assert!(!MapPattern::contains_cell(16, 0));
    assert!(!MapPattern::contains_cell(0, 16));
    assert!(!MapPattern::contains_cell(0, 255));
    assert!(!MapPattern::contains_cell(usize::MAX, usize::MAX));
}

#[test]
fn set_level_at_counts_rows_first() {
    let mut pattern = MapPattern::default();
    pattern.set_level_at(0, 0, 1);
    pattern.set_level_at(0, 15, 2);
    pattern.set_level_at(1, 0, 3);
    pattern.set_level_at(3, 5, -50);
    pattern.set_level_at(15, 15, 50);
    let levels = pattern.get_level_map();
    assert_eq!(levels[0], 1);
    assert_eq!(levels[15], 2);
    assert_eq!(levels[16], 3);
    assert_eq!(levels[3 * 16 + 5], -50);
    assert_eq!(levels[255], 50);
    assert_eq!(levels.iter().filter(|level| **level != 0).count(), 5);
}

#[test]
fn set_level_at_every_cell() {
    let mut pattern = MapPattern::default();
    for x in 0..16 {
        for y in 0..16 {
            pattern.set_level_at(x, y, (x as i8) - (y as i8));
        }
    }
    for index in 0..256usize {
        assert_eq!(pattern.get_level_map()[index], (index / 16) as i8 - (index % 16) as i8);
    }
}

#[test]
fn set_level_leaves_the_prefabs_alone() {
    let mut pattern = MapPattern::default();
    pattern.set_prefab_at(2, 3, Prefab::Stairs);
    pattern.set_level_at(2, 3, 7);
    pattern.set_level_at_index(36, 8);
    assert_eq!(pattern.get_prefab_map()[35], Prefab::Stairs);
    assert_eq!(pattern.get_level_map()[35], 7);
    assert_eq!(pattern.get_level_map()[36], 8);
    assert_eq!(pattern.get_prefab_map()[36], Prefab::Empty);
}

#[test]
fn set_prefab_at_counts_rows_first() {
    let mut pattern = MapPattern::default();
    pattern.set_prefab_at(0, 1, Prefab::Melee);
    pattern.set_prefab_at(1, 0, Prefab::Projectile);
    pattern.set_prefab_at(15, 15, Prefab::Hideous);
    let prefabs = pattern.get_prefab_map();
    assert_eq!(prefabs[1], Prefab::Melee);
    assert_eq!(prefabs[16], Prefab::Projectile);
    assert_eq!(prefabs[255], Prefab::Hideous);
    assert_eq!(prefabs.iter().filter(|prefab| **prefab != Prefab::Empty).count(), 3);
    assert!(pattern.get_level_map().iter().all(|level| *level == 0));
}

#[test]
fn writing_through_the_level_map_changes_the_pattern() {
    let mut pattern = MapPattern::default();
    pattern.set_prefab_at(0, 0, Prefab::JumpPad);
    {
        let levels = pattern.get_level_map_mut();
        assert_eq!(levels.len(), 256);
        levels[0] = -3;
        levels[255] = 100;
    }
    assert_eq!(pattern.get_level_map()[0], -3);
    assert_eq!(pattern.get_level_map()[255], 100);
    assert_eq!(pattern.get_level_map()[1], 0);
    assert_eq!(pattern.get_prefab_map()[0], Prefab::JumpPad);
}

#[test]
fn writing_through_the_prefab_map_changes_the_pattern() {
    let mut pattern = MapPattern::default();
    pattern.set_level_at_index(4, 4);
    {
        let prefabs = pattern.get_prefab_map_mut();
        assert_eq!(prefabs.len(), 256);
        prefabs[4] = Prefab::Stairs;
        prefabs.fill(Prefab::Melee);
        prefabs[5] = Prefab::Hideous;
    }
    assert_eq!(pattern.get_prefab_map()[4], Prefab::Melee);
    assert_eq!(pattern.get_prefab_map()[5], Prefab::Hideous);
    assert_eq!(pattern.get_level_map()[4], 4);
}

#[test]
fn clone_is_equal_and_independent() {
    let mut pattern = MapPattern::default();
    pattern.set_level_at(1, 1, 11);
    pattern.set_prefab_at(2, 2, Prefab::Projectile);
    let mut copy = pattern.clone();
    assert_eq!(copy, pattern);
    copy.set_level_at(1, 1, 12);
    assert_ne!(copy, pattern);
    assert_eq!(pattern.get_level_map()[17], 11);
}

#[test]
fn patterns_differ_by_one_level_or_one_prefab() {
    let base = MapPattern::default();
    let mut other = MapPattern::default();
    assert_eq!(base, other);
    other.set_level_at_index(255, 1);
    assert_ne!(base, other);
    other.set_level_at_index(255, 0);
    assert_eq!(base, other);
    other.set_prefab_at(15, 15, Prefab::Melee);
    assert_ne!(base, other);
}
