use terminoids::asteroid::{color_for_roll, drops_powerup, get_random_color, wins, AsteroidSize};
use terminoids::bullet::BulletType;
use terminoids::drawables::ColorPalette;
use terminoids::enemy::{Arrival, Waves, CROWD};
use terminoids::palette::{decode, palette_code, Paint};
use terminoids::powerup::PowerupSize;
use terminoids::starship::{drops_powerup as ship_drops_powerup, StarShipSize};

const ASTEROIDS: [AsteroidSize; 5] = [
    AsteroidSize::Tiny,
    AsteroidSize::Small,
    AsteroidSize::Medium,
    AsteroidSize::Big,
    AsteroidSize::Huge,
];

const SHIPS: [StarShipSize; 4] = [
    StarShipSize::Flying,
    StarShipSize::SmallCluster,
    StarShipSize::MediumCluster,
    StarShipSize::BigCluster,
];

#[test]
fn asteroid_shapes() {
    assert_eq!(AsteroidSize::Tiny.get_description(), (3, 486));
    assert_eq!(AsteroidSize::Small.get_description(), (4, 537));
    assert_eq!(AsteroidSize::Medium.get_description(), (5, 665));
    assert_eq!(AsteroidSize::Big.get_description(), (6, 844));
    assert_eq!(AsteroidSize::Huge.get_description(), (7, 1024));
    // 1.9, 2.1, 2.6, 3.3 and 4.0 in fixed point
    let radii = [1.9f64, 2.1, 2.6, 3.3, 4.0];
    for (size, radius) in ASTEROIDS.iter().zip(radii) {
        assert_eq!(size.get_description().1, (radius * 256.0).floor() as i32);
    }
}

#[test]
fn asteroids_break_into_the_next_smaller_size() {
    assert_eq!(AsteroidSize::Huge.split(), Some(AsteroidSize::Big));
    assert_eq!(AsteroidSize::Big.split(), Some(AsteroidSize::Medium));
    assert_eq!(AsteroidSize::Medium.split(), Some(AsteroidSize::Small));
    assert_eq!(AsteroidSize::Small.split(), Some(AsteroidSize::Tiny));
    assert_eq!(AsteroidSize::Tiny.split(), None);
    let mut size = AsteroidSize::Huge;
    let mut hits = 0;
    while let Some(smaller) = size.split() {
        size = smaller;
        hits += 1;
    }
    assert_eq!(hits, 4);
}

#[test]
fn asteroid_scores_and_weights() {
    assert_eq!(AsteroidSize::Huge.score(), 200);
    assert_eq!(AsteroidSize::Big.score(), 150);
    assert_eq!(AsteroidSize::Medium.score(), 100);
    assert_eq!(AsteroidSize::Small.score(), 75);
    assert_eq!(AsteroidSize::Tiny.score(), 50);
    assert!(AsteroidSize::Huge.is_large());
    assert!(AsteroidSize::Big.is_large());
    assert!(AsteroidSize::Medium.is_large());
    assert!(!AsteroidSize::Small.is_large());
    assert!(!AsteroidSize::Tiny.is_large());
}

#[test]
fn a_larger_asteroid_has_more_of_everything() {
    for pair in ASTEROIDS.windows(2) {
        let (small, large) = (pair[0], pair[1]);
        assert!(small.get_description().0 < large.get_description().0);
        assert!(small.get_description().1 < large.get_description().1);
        assert!(small.score() < large.score());
    }
}

#[test]
fn colours_by_roll() {
    assert_eq!(color_for_roll(0), ColorPalette::Red);
    assert_eq!(color_for_roll(1), ColorPalette::Green);
    assert_eq!(color_for_roll(2), ColorPalette::Blue);
    assert_eq!(color_for_roll(3), ColorPalette::Yellow);
    assert_eq!(color_for_roll(4), ColorPalette::Magenta);
    assert_eq!(color_for_roll(5), ColorPalette::Cyan);
    assert_eq!(color_for_roll(6), ColorPalette::Gray);
    assert_eq!(color_for_roll(u32::MAX), ColorPalette::Gray);
}

#[test]
fn a_random_colour_is_one_of_the_six_hues() {
    let mut seen = Vec::new();
    for _ in 0..2000 {
        let color = get_random_color();
        assert_ne!(color, ColorPalette::Custom);
        assert_ne!(color, ColorPalette::Gray);
        if !seen.contains(&color) {
            seen.push(color);
        }
    }
    // with six faces and two thousand rolls every hue shows up
    assert_eq!(seen.len(), 6);
}

#[test]
fn only_the_smallest_leave_powerups() {
    assert!(wins(0));
    assert!(!wins(1));
    assert!(!wins(19));
    for _ in 0..500 {
        assert!(!drops_powerup(AsteroidSize::Small));
        assert!(!drops_powerup(AsteroidSize::Huge));
        assert!(!ship_drops_powerup(StarShipSize::SmallCluster));
        assert!(!ship_drops_powerup(StarShipSize::BigCluster));
    }
    let mut drops = 0;
    let mut ship_drops = 0;
    for _ in 0..4000 {
        if drops_powerup(AsteroidSize::Tiny) {
            drops += 1;
        }
        if ship_drops_powerup(StarShipSize::Flying) {
            ship_drops += 1;
        }
    }
    // one in twenty and one in twenty-five: some, and by far not all
    assert!(0 < drops && drops < 1000);
    assert!(0 < ship_drops && ship_drops < 1000);
}

#[test]
fn star_ship_shapes() {
    assert_eq!(StarShipSize::Flying.get_description(), (2, 512));
    assert_eq!(StarShipSize::SmallCluster.get_description(), (8, 844));
    assert_eq!(StarShipSize::MediumCluster.get_description(), (16, 1152));
    assert_eq!(StarShipSize::BigCluster.get_description(), (18, 1331));
    let radii = [2.0f64, 3.3, 4.5, 5.2];
    for (size, radius) in SHIPS.iter().zip(radii) {
        assert_eq!(size.get_description().1, (radius * 256.0).floor() as i32);
    }
}

#[test]
fn clusters_shrink_and_release_ships() {
    assert_eq!(StarShipSize::BigCluster.split(), (Some(StarShipSize::MediumCluster), 2));
    assert_eq!(StarShipSize::MediumCluster.split(), (Some(StarShipSize::SmallCluster), 2));
    assert_eq!(StarShipSize::SmallCluster.split(), (None, 4));
    assert_eq!(StarShipSize::Flying.split(), (None, 0));
}

#[test]
fn star_ship_scores_and_weights() {
    assert_eq!(StarShipSize::BigCluster.score(), 250);
    assert_eq!(StarShipSize::MediumCluster.score(), 200);
    assert_eq!(StarShipSize::SmallCluster.score(), 150);
    assert_eq!(StarShipSize::Flying.score(), 100);
    assert!(StarShipSize::BigCluster.is_large());
    assert!(StarShipSize::MediumCluster.is_large());
    assert!(StarShipSize::SmallCluster.is_large());
    assert!(!StarShipSize::Flying.is_large());
}

#[test]
fn bullet_speeds_and_lives() {
    assert_eq!(BulletType::Normal.linear_speed(), 15 * 256);
    assert_eq!(BulletType::Piercing.linear_speed(), 20 * 256);
    assert_eq!(BulletType::Normal.lifetime(), 2 * 256);
    assert_eq!(BulletType::Piercing.lifetime(), 3 * 256);
}

#[test]
fn a_hit_spends_a_normal_bullet_and_wears_a_piercing_one() {
    assert_eq!(BulletType::Normal.destroy(512), 0);
    assert_eq!(BulletType::Normal.destroy(-3), 0);
    assert_eq!(BulletType::Piercing.destroy(768), 666);
    assert_eq!(BulletType::Piercing.destroy(100), -2);
    assert_eq!(BulletType::Piercing.destroy(i32::MIN), i32::MIN);
    assert_eq!(BulletType::Piercing.destroy(i32::MIN + 102), i32::MIN);
    assert_eq!(BulletType::Piercing.destroy(i32::MIN + 103), i32::MIN + 1);
}

#[test]
fn a_normal_bullet_is_a_ball() {
    let point = BulletType::Normal.get_drawable_point((5, -7), 300);
    assert_eq!(point.position, (5, -7));
    assert_eq!(point.color, 128 * 256);
    assert_eq!(point.color_palette, ColorPalette::Custom);
    assert_eq!(palette_code(point.color_palette, point.color), 128);
    assert_eq!(decode(128), Paint::Ball);
}

#[test]
fn a_piercing_bullet_alternates_its_two_frames() {
    // life * 30, taken modulo 2.0: the frame changes every thirtieth of a unit
    let frames = [(0, 129), (8, 129), (9, 130), (17, 130), (18, 129), (768, 129), (777, 130)];
    for (life, code) in frames {
        let point = BulletType::Piercing.get_drawable_point((0, 0), life);
        assert_eq!(point.color, code * 256);
        assert_eq!(palette_code(point.color_palette, point.color) as i32, code);
    }
    let spent = BulletType::Piercing.get_drawable_point((0, 0), -1);
    assert_eq!(spent.color, 130 * 256);
    assert_eq!(decode(129), Paint::Piercing { frame: 0 });
    assert_eq!(decode(130), Paint::Piercing { frame: 1 });
    for life in [i32::MIN, i32::MAX, -777, 123456] {
        let point = BulletType::Piercing.get_drawable_point((0, 0), life);
        assert!(point.color == 129 * 256 || point.color == 130 * 256);
    }
}

#[test]
fn powerups_by_roll() {
    assert_eq!(PowerupSize::for_roll(0), PowerupSize::PiercingBullets);
    assert_eq!(PowerupSize::for_roll(1), PowerupSize::PiercingBullets);
    assert_eq!(PowerupSize::for_roll(2), PowerupSize::RapidFire);
    assert_eq!(PowerupSize::for_roll(4), PowerupSize::RapidFire);
    assert_eq!(PowerupSize::for_roll(5), PowerupSize::SplitFire);
    assert_eq!(PowerupSize::for_roll(8), PowerupSize::SplitFire);
    assert_eq!(PowerupSize::for_roll(9), PowerupSize::Shield);
    assert_eq!(PowerupSize::for_roll(14), PowerupSize::Shield);
    assert_eq!(PowerupSize::for_roll(1000), PowerupSize::Shield);
}

#[test]
fn every_kind_of_powerup_appears() {
    let mut seen = Vec::new();
    for _ in 0..3000 {
        let kind = PowerupSize::spawn();
        if !seen.contains(&kind) {
            seen.push(kind);
        }
    }
    assert_eq!(seen.len(), 4);
}

#[test]
fn powerup_colours_and_durations() {
    assert_eq!(PowerupSize::Shield.color_palette(), ColorPalette::Blue);
    assert_eq!(PowerupSize::SplitFire.color_palette(), ColorPalette::Green);
    assert_eq!(PowerupSize::PiercingBullets.color_palette(), ColorPalette::Red);
    assert_eq!(PowerupSize::RapidFire.color_palette(), ColorPalette::Gray);
    assert_eq!(PowerupSize::Shield.duration(), 10 * 256);
    assert_eq!(PowerupSize::PiercingBullets.duration(), 5 * 256);
    assert_eq!(PowerupSize::SplitFire.duration(), 7 * 256);
    assert_eq!(PowerupSize::RapidFire.duration(), 5 * 256);
}

#[test]
fn arrivals_wait_for_room() {
    assert_eq!(CROWD, 8);
    assert!(Waves::has_room(0, false));
    assert!(Waves::has_room(0, true));
    assert!(!Waves::has_room(1, false));
    assert!(Waves::has_room(1, true));
    assert!(Waves::has_room(7, true));
    assert!(!Waves::has_room(8, true));
    assert!(!Waves::has_room(usize::MAX, true));
}

#[test]
fn a_zero_brings_a_star_ship() {
    assert_eq!(Waves::arrival_for_roll(0), Arrival::StarShip);
    assert_eq!(Waves::arrival_for_roll(1), Arrival::Asteroid);
    assert_eq!(Waves::arrival_for_roll(7), Arrival::Asteroid);
}

#[test]
fn the_die_loses_a_side_after_a_full_count() {
    let mut waves = Waves::new();
    assert_eq!(waves.get_sides(), 8);
    // nine asteroids use up the die of eight sides, then eight that of seven, ...
    let mut arrived = 0;
    for sides in (3..=8).rev() {
        assert_eq!(waves.get_sides(), sides);
        for _ in 0..sides {
            waves.asteroid_arrived();
            arrived += 1;
            assert_eq!(waves.get_sides(), sides);
        }
        waves.asteroid_arrived();
        arrived += 1;
        assert_eq!(waves.get_sides(), sides - 1);
    }
    assert_eq!(arrived, 9 + 8 + 7 + 6 + 5 + 4);
    for _ in 0..100 {
        waves.asteroid_arrived();
        assert_eq!(waves.get_sides(), 2);
    }
}

#[test]
fn both_kinds_arrive() {
    let waves = Waves::new();
    let mut asteroids = 0;
    let mut ships = 0;
    for _ in 0..4000 {
        match waves.next_arrival() {
            Arrival::Asteroid => asteroids += 1,
            Arrival::StarShip => ships += 1,
        }
    }
    // one face in eight brings a star ship
    assert!(ships > 0);
    assert!(asteroids > ships);
}
