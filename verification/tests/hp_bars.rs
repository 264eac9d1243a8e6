use oplus_combat::combat::Actor;
use oplus_combat::geometry::Vec2;
use oplus_combat::health::Health;
use oplus_combat::hp_bars::{
    check_player_death, process_enemy_death, sync_enemy_hp_bars, EnemyHpBar, EnemyHpBarMap,
};

fn actor(handle: u64, current: i64, max: i64) -> Actor {
    Actor { handle, position: Vec2::new(0, 0), health: Health { current, max } }
}

fn sorted(mut pairs: Vec<(u64, u64)>) -> Vec<(u64, u64)> {
    pairs.sort();
    pairs
}

#[test]
fn hp_bar_lifecycle() {
    let mut bars = EnemyHpBarMap::new();
    let mut enemies = vec![actor(1, 100_000, 100_000)];
    let full = sync_enemy_hp_bars(&mut bars, &enemies);
    assert!(full.create.is_empty());
    assert!(full.update.is_empty());
    assert!(full.remove.is_empty());
    assert!(bars.0.is_empty());

    enemies[0].health.apply_damage(1_000);
    let hurt = sync_enemy_hp_bars(&mut bars, &enemies);
    assert_eq!(hurt.create, vec![EnemyHpBar { owner: 1, ratio: 990_000 }]);
    assert!(hurt.update.is_empty());
    assert!(hurt.remove.is_empty());
    bars.attach(1, 501);
    assert_eq!(bars.bar(1), Some(501));

    let still = sync_enemy_hp_bars(&mut bars, &enemies);
    assert!(still.create.is_empty());
    assert_eq!(still.update, vec![(501, EnemyHpBar { owner: 1, ratio: 990_000 })]);
    assert!(still.remove.is_empty());
    assert_eq!(bars.bar(1), Some(501));

    enemies[0].health.current = enemies[0].health.max;
    let healed = sync_enemy_hp_bars(&mut bars, &enemies);
    assert!(healed.create.is_empty());
    assert!(healed.update.is_empty());
    assert_eq!(healed.remove, vec![(1, 501)]);
    assert_eq!(bars.bar(1), None);
    assert!(bars.0.is_empty());
}

#[test]
fn sync_purges_entries_of_enemies_that_are_gone_or_dead() {
    let mut bars = EnemyHpBarMap::new();
    bars.attach(1, 11);
    bars.attach(2, 12);
    bars.attach(3, 13);
    bars.attach(4, 14);
    let enemies = vec![actor(1, 5, 10), actor(2, 0, 10), actor(4, -3, 10), actor(5, 9, 10)];
    let sync = sync_enemy_hp_bars(&mut bars, &enemies);
    assert_eq!(sync.create, vec![EnemyHpBar { owner: 5, ratio: 900_000 }]);
    assert_eq!(sync.update, vec![(11, EnemyHpBar { owner: 1, ratio: 500_000 })]);
    assert_eq!(sorted(sync.remove), vec![(2, 12), (3, 13), (4, 14)]);
    assert_eq!(bars.0.len(), 1);
    assert_eq!(bars.bar(1), Some(11));
}

#[test]
fn sync_with_no_enemies_empties_the_mapping() {
    let mut bars = EnemyHpBarMap::new();
    bars.attach(1, 11);
    bars.attach(2, 12);
    let sync = sync_enemy_hp_bars(&mut bars, &Vec::new());
    assert!(sync.create.is_empty());
    assert!(sync.update.is_empty());
    assert_eq!(sorted(sync.remove), vec![(1, 11), (2, 12)]);
    assert!(bars.0.is_empty());
}

#[test]
fn attach_replaces_an_older_indicator() {
    let mut bars = EnemyHpBarMap::new();
    bars.attach(1, 11);
    bars.attach(1, 12);
    assert_eq!(bars.bar(1), Some(12));
    assert_eq!(bars.bar(2), None);
    assert_eq!(bars.0.len(), 1);
}

#[test]
fn death_pass_removes_the_dead_and_their_bars() {
    let mut bars = EnemyHpBarMap::new();
    bars.attach(1, 11);
    bars.attach(2, 12);
    bars.attach(9, 19);
    let mut enemies =
        vec![actor(1, 5, 10), actor(2, 0, 10), actor(3, -7, 10), actor(4, 10, 10), actor(5, 1, 10)];
    let report = process_enemy_death(&mut bars, &mut enemies);
    assert_eq!(report.dead, vec![2, 3]);
    assert_eq!(sorted(report.remove), vec![(2, 12), (9, 19)]);
    assert_eq!(enemies, vec![actor(1, 5, 10), actor(4, 10, 10), actor(5, 1, 10)]);
    assert_eq!(bars.0.len(), 1);
    assert_eq!(bars.bar(1), Some(11));
    let quiet = process_enemy_death(&mut bars, &mut enemies);
    assert!(quiet.dead.is_empty());
    assert!(quiet.remove.is_empty());
    assert_eq!(enemies.len(), 3);
}

#[test]
fn player_death_is_the_terminal_condition() {
    assert!(!check_player_death(&None));
    assert!(!check_player_death(&Some(actor(1, 1, 10))));
    assert!(check_player_death(&Some(actor(1, 0, 10))));
    assert!(check_player_death(&Some(actor(1, -5, 10))));
}
