use roguelike::enemy::{
    armed_with_rocketlauncher, boss_delay, enemy_delay, next_bomb_status, next_shooter_status,
    next_tower_status, Status,
};
use roguelike::random::Random;
use roguelike::weapon::{after_shot, Pistol, Rocketlauncher, Weapon};

#[test]
fn shooter_that_cannot_see_walks_without_drawing() {
    for current in [Status::Idle, Status::Shooting, Status::Walking] {
        let mut rng = Random::new();
        assert_eq!(next_shooter_status(current, false, &mut rng), Status::Walking);
        assert_eq!(rng.0, 666);
    }
}

#[test]
fn shooter_that_sees_draws_its_next_status() {
    // The first draw from 666 is 501757899, which ends in 9.
    let mut rng = Random::new();
    assert_eq!(next_shooter_status(Status::Idle, true, &mut rng), Status::Shooting);
    assert_eq!(rng.0, 501757899);

    let mut rng = Random::new();
    assert_eq!(next_shooter_status(Status::Walking, true, &mut rng), Status::Idle);
    let mut rng = Random::new();
    assert_eq!(next_shooter_status(Status::Shooting, true, &mut rng), Status::Idle);

    // The second draw is 786549672, which ends in 2.
    let mut rng = Random(501757899);
    assert_eq!(next_shooter_status(Status::Idle, true, &mut rng), Status::Walking);
    let mut rng = Random(501757899);
    assert_eq!(next_shooter_status(Status::Shooting, true, &mut rng), Status::Walking);
}

#[test]
fn idle_shooter_never_stays_idle() {
    let mut rng = Random::new();
    for _ in 0..1000 {
        assert_ne!(next_shooter_status(Status::Idle, true, &mut rng), Status::Idle);
    }
}

#[test]
fn towers_and_bombs_follow_sight() {
    assert_eq!(next_tower_status(true), Status::Shooting);
    assert_eq!(next_tower_status(false), Status::Idle);
    assert_eq!(next_bomb_status(true), Status::Walking);
    assert_eq!(next_bomb_status(false), Status::Idle);
}

#[test]
fn decision_delays() {
    assert_eq!(boss_delay(Status::Idle), 500);
    assert_eq!(boss_delay(Status::Shooting), 500);
    assert_eq!(boss_delay(Status::Walking), 1000);
    assert_eq!(enemy_delay(Status::Idle), 500);
    assert_eq!(enemy_delay(Status::Shooting), 1000);
    assert_eq!(enemy_delay(Status::Walking), 1000);
}

#[test]
fn rocketlauncher_chance_grows_with_level() {
    // The first draw is 501757899, 100 modulo 101.
    let mut rng = Random::new();
    assert!(armed_with_rocketlauncher(10, &mut rng));
    assert_eq!(rng.0, 501757899);
    let mut rng = Random::new();
    assert!(!armed_with_rocketlauncher(9, &mut rng));
    let mut rng = Random::new();
    assert!(!armed_with_rocketlauncher(1, &mut rng));

    // The second draw is 786549672, 52 modulo 101.
    let mut rng = Random(501757899);
    assert!(armed_with_rocketlauncher(6, &mut rng));
    let mut rng = Random(501757899);
    assert!(!armed_with_rocketlauncher(5, &mut rng));

    // From level 10 on every plain enemy carries one; huge levels do not overflow.
    let mut rng = Random::new();
    for _ in 0..200 {
        assert!(armed_with_rocketlauncher(u32::MAX, &mut rng));
    }
}

#[test]
fn rocketlauncher_with_powerups() {
    let l = Rocketlauncher::with_powerups(0);
    assert_eq!((l.max_clip_ammo(), l.ammo_in_clip()), (1, 1));
    let l = Rocketlauncher::with_powerups(3);
    assert_eq!((l.max_clip_ammo(), l.ammo_in_clip()), (4, 1));
    let l = Rocketlauncher::with_powerups(4);
    assert_eq!((l.max_clip_ammo(), l.ammo_in_clip()), (5, 1));
    let l = Rocketlauncher::with_powerups(5);
    assert_eq!((l.max_clip_ammo(), l.ammo_in_clip()), (5, 5));
    let l = Rocketlauncher::with_powerups(1000);
    assert_eq!((l.max_clip_ammo(), l.ammo_in_clip()), (5, 5));
}

#[test]
fn boss_reloads_and_switches_when_the_clip_runs_empty() {
    let mut launcher = Rocketlauncher::with_powerups(2);
    let mut pistol = Pistol::new();
    // The launcher (weapon 0) still holds its one rocket: nothing happens.
    assert_eq!(after_shot(0, &mut launcher, &mut pistol), 0);
    assert_eq!(launcher.ammo_in_clip(), 1);
    // Fired empty: reloaded to its clip of three, and the boss takes the pistol.
    launcher.shoot().unwrap();
    assert_eq!(after_shot(0, &mut launcher, &mut pistol), 1);
    assert_eq!(launcher.ammo_in_clip(), 3);
    assert_eq!(pistol.ammo_in_clip(), 5);
    // The pistol, once empty, is reloaded and the boss goes back to the launcher.
    for _ in 0..5 {
        pistol.shoot().unwrap();
    }
    assert_eq!(after_shot(1, &mut launcher, &mut pistol), 0);
    assert_eq!(pistol.ammo_in_clip(), 5);
}
