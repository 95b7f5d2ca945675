use roguelike::level::{next_structure_is_chest, population, Population};
use roguelike::powerup::{maybe_drop_powerup, Powerup, PowerupType};
use roguelike::projectile::Team;
use roguelike::random::Random;
use roguelike::refcell::RefCell;
use roguelike::weapon::{Pistol, Rocketlauncher, Weapon};

#[test]
fn pistol_shoots_until_empty_and_reloads() {
    let mut p = Pistol::new();
    assert_eq!(p.max_clip_ammo(), 5);
    assert_eq!(p.total_ammo(), 9001);
    for left in (0..5).rev() {
        assert_eq!(p.shoot(), Ok(()));
        assert_eq!(p.ammo_in_clip(), left);
    }
    assert_eq!(p.shoot(), Err(()));
    assert_eq!(p.ammo_in_clip(), 0);
    p.reload();
    assert_eq!(p.ammo_in_clip(), 5);
}

#[test]
fn pistol_powerups_grow_clip_to_fourteen() {
    let mut p = Pistol::new();
    p.shoot().unwrap();
    for _ in 0..9 {
        p.on_powerup_pickup();
    }
    assert_eq!(p.max_clip_ammo(), 14);
    assert_eq!(p.ammo_in_clip(), 4);
    // At the cap a power-up refills the clip.
    p.on_powerup_pickup();
    assert_eq!(p.max_clip_ammo(), 14);
    assert_eq!(p.ammo_in_clip(), 14);
}

#[test]
fn rocketlauncher_clip_and_reload() {
    let mut r = Rocketlauncher::new();
    assert_eq!(r.ammo_in_clip(), 1);
    assert_eq!(r.total_ammo(), 5);
    assert_eq!(r.shoot(), Ok(()));
    assert_eq!(r.shoot(), Err(()));
    for _ in 0..10 {
        r.on_powerup_pickup();
    }
    assert_eq!(r.max_clip_ammo(), 5);
    assert_eq!(r.ammo_in_clip(), 5);
    r.shoot().unwrap();
    r.reload();
    assert_eq!(r.ammo_in_clip(), 5);
}

#[test]
fn powerup_kind_comes_from_generator() {
    // 501757899 % 10 == 9: a rocket clip.
    let p = Powerup::new_random((1, 2), &mut Random::new());
    assert_eq!(p.poweruptype, PowerupType::RocketClip);
    assert_eq!(p.position, (1, 2));
}

#[test]
fn maybe_drop_powerup_uses_probability() {
    // The first roll is 501757899 % 101 == 100.
    let mut list: Vec<Powerup<u8>> = Vec::new();
    let mut rng = Random::new();
    maybe_drop_powerup(7u8, 99, &mut rng, &mut list);
    assert!(list.is_empty());
    assert_eq!(rng.0, 501757899);
    let mut rng = Random::new();
    maybe_drop_powerup(7u8, 100, &mut rng, &mut list);
    assert_eq!(list.len(), 1);
    // The kind comes from the second number: 786549672 % 10 == 2.
    assert_eq!(list[0].poweruptype, PowerupType::Health);
    assert_eq!(list[0].position, 7);
}

#[test]
fn health_powerup_heals_up_to_twenty() {
    let p = Powerup { position: (), poweruptype: PowerupType::Health };
    let mut pistol = Pistol::new();
    let mut launcher = Rocketlauncher::new();
    let mut hp: isize = 19;
    p.on_pickup(&mut hp, &mut pistol, &mut launcher);
    assert_eq!(hp, 20);
    p.on_pickup(&mut hp, &mut pistol, &mut launcher);
    assert_eq!(hp, 20);
    assert_eq!(pistol.max_clip_ammo(), 5);
}

#[test]
fn clip_powerups_go_to_their_weapon() {
    let mut pistol = Pistol::new();
    let mut launcher = Rocketlauncher::new();
    let mut hp: isize = 3;
    Powerup { position: (), poweruptype: PowerupType::PistolClip }.on_pickup(&mut hp, &mut pistol, &mut launcher);
    assert_eq!(pistol.max_clip_ammo(), 6);
    assert_eq!(launcher.max_clip_ammo(), 1);
    Powerup { position: (), poweruptype: PowerupType::RocketClip }.on_pickup(&mut hp, &mut pistol, &mut launcher);
    assert_eq!(launcher.max_clip_ammo(), 2);
    assert_eq!(hp, 3);
}

#[test]
fn teams_do_not_hit_themselves() {
    assert!(!Team::Player.can_hit(Team::Player));
    assert!(!Team::Villain.can_hit(Team::Villain));
    assert!(Team::Player.can_hit(Team::Villain));
    assert!(Team::Villain.can_hit(Team::Player));
    assert!(Team::Neutral.can_hit(Team::Player));
    assert!(Team::Neutral.can_hit(Team::Neutral));
}

#[test]
fn level_population() {
    assert_eq!(population(1), Population { bosses: 0, bombs: 0, towers: 0, stupid: 1 });
    assert_eq!(population(4), Population { bosses: 0, bombs: 2, towers: 1, stupid: 2 });
    assert_eq!(population(5), Population { bosses: 1, bombs: 0, towers: 0, stupid: 3 });
    assert_eq!(population(10), Population { bosses: 2, bombs: 5, towers: 3, stupid: 5 });
    assert_eq!(population(0), Population { bosses: 0, bombs: 0, towers: 0, stupid: 0 });
}

#[test]
fn early_levels_only_have_chests() {
    let mut rng = Random::new();
    for level in 0..5 {
        assert!(next_structure_is_chest(level, &mut rng));
    }
    assert_eq!(rng.0, 666);
    // Level 5: one in (5 - 3) / 2 == 1, always a chest, but a number is drawn.
    assert!(next_structure_is_chest(5, &mut rng));
    assert_eq!(rng.0, 501757899);
    // Level 9: one in 3; 786549672 % 3 == 0.
    assert!(next_structure_is_chest(9, &mut rng));
    // 1847662273 % 3 == 1: a barrel.
    assert!(!next_structure_is_chest(9, &mut rng));
}

#[test]
fn refcell_borrows() {
    let mut c = RefCell::new(3);
    assert_eq!(*c.borrow(), 3);
    *c.borrow_mut() += 4;
    assert_eq!(*c.borrow(), 7);
}
