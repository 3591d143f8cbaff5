use crab_invaders::powerups::{Effects, PowerKind, MAX_LIVES};

#[test]
fn all_nine_kinds_reachable() {
    let total = PowerKind::total_weight(3);
    assert!(total > 0);
    // sweep the whole range: every kind must be picked somewhere
    let mut seen = [false; 9];
    let steps = 2000;
    for i in 0..steps {
        let r = total * i / steps;
        let k = PowerKind::pick_weighted(r, 3);
        seen[k as usize] = true;
    }
    assert!(seen.iter().all(|&s| s), "some kind unreachable: {seen:?}");
}

#[test]
fn life_never_drops_at_max_lives() {
    let total = PowerKind::total_weight(MAX_LIVES);
    let steps = 2000;
    for i in 0..steps {
        let r = total * i / steps;
        assert_ne!(PowerKind::pick_weighted(r, MAX_LIVES), PowerKind::Life);
    }
}

#[test]
fn effects_tick_down_and_clear() {
    let mut fx = Effects::new();
    fx.spread = 5000;
    fx.shield = true;
    fx.tick(2000);
    assert_eq!(fx.spread, 3000);
    assert!(fx.shield); // shield is until-hit, not timed
    fx.tick(10000);
    assert_eq!(fx.spread, 0);
    fx.clear();
    assert!(fx.active().is_empty());
}

#[test]
fn hud_lists_only_active_effects() {
    let mut fx = Effects::new();
    assert!(fx.active().is_empty());
    fx.double = 4000;
    fx.shield = true;
    let a = fx.active();
    assert_eq!(a.len(), 2);
    assert!(a.iter().any(|&(c, _, _)| c == '2'));
    assert!(a.iter().any(|&(c, _, _)| c == 'H'));
}

#[test]
fn letters_are_unique() {
    let mut letters: Vec<char> = PowerKind::ALL.iter().map(|k| k.letter()).collect();
    letters.sort();
    letters.dedup();
    assert_eq!(letters.len(), 9);
}

#[test]
fn weighted_pick_boundaries() {
    assert_eq!(PowerKind::total_weight(3), 200);
    assert_eq!(PowerKind::total_weight(5), 192);
    assert_eq!(PowerKind::pick_weighted(0, 3), PowerKind::Spread);
    assert_eq!(PowerKind::pick_weighted(29, 3), PowerKind::Spread);
    assert_eq!(PowerKind::pick_weighted(30, 3), PowerKind::Rapid);
    assert_eq!(PowerKind::pick_weighted(80, 3), PowerKind::Bomb);
    assert_eq!(PowerKind::pick_weighted(92, 3), PowerKind::Life);
    assert_eq!(PowerKind::pick_weighted(92, 5), PowerKind::Magnet);
    assert_eq!(PowerKind::pick_weighted(199, 3), PowerKind::Double);
    // past the total nothing matches: Spread
    assert_eq!(PowerKind::pick_weighted(500, 3), PowerKind::Spread);
}

#[test]
fn rolls_pick_kinds_with_weight() {
    for _ in 0..500 {
        assert_ne!(PowerKind::roll(MAX_LIVES), PowerKind::Life);
    }
}

#[test]
fn hud_order_and_totals() {
    let mut fx = Effects::new();
    fx.spread = 1;
    fx.rapid = 2;
    fx.magnet = 3;
    fx.freeze = 4;
    fx.pierce = 5;
    fx.double = 6;
    fx.shield = true;
    assert_eq!(
        fx.active(),
        vec![
            ('S', 1, 12000),
            ('R', 2, 10000),
            ('M', 3, 12000),
            ('F', 4, 8000),
            ('P', 5, 12000),
            ('2', 6, 15000),
            ('H', 1, 1)
        ]
    );
}

#[test]
fn names_and_letters() {
    assert_eq!(PowerKind::Life.letter(), '+');
    assert_eq!(PowerKind::Double.name(), "DOUBLE SCORE");
    assert_eq!(PowerKind::Pierce.name(), "PIERCING");
}

#[test]
fn rolls_reach_every_kind() {
    let mut seen = [false; 9];
    for _ in 0..6000 {
        seen[PowerKind::roll(3) as usize] = true;
    }
    assert!(seen.iter().all(|&s| s), "{seen:?}");
}
