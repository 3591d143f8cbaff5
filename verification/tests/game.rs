use crab_invaders::game::{
    bullet_hit, can_touch, drop_for_roll, enemy_kind_for_roll, enemy_points, may_fire,
    player_contact, strike, wave_size, BulletHit, Contact, EnemyKind, HitResult, NavAction,
    NavInput, PickupResult, Session, State,
};
use crab_invaders::menu::MenuScreen;
use crab_invaders::powerups::{PowerKind, MAX_LIVES};
use crab_invaders::save::Save;

fn idle() -> NavInput {
    NavInput {
        mute: false,
        back: false,
        pause: false,
        quit: false,
        up: false,
        down: false,
        left: false,
        right: false,
        hover: None,
        activate: false,
        clicked: None,
    }
}

fn fresh() -> Session {
    Session::new(&Save::default())
}

#[test]
fn waves_grow_and_cap() {
    assert_eq!(wave_size(1), 6);
    assert_eq!(wave_size(5), 14);
    assert_eq!(wave_size(12), 28);
    assert_eq!(wave_size(100), 28);
}

#[test]
fn enemy_tables() {
    assert_eq!(enemy_points(EnemyKind::Diver), 50);
    assert_eq!(enemy_points(EnemyKind::Weaver), 100);
    assert_eq!(enemy_points(EnemyKind::Tank), 250);
    assert_eq!(enemy_kind_for_roll(4), EnemyKind::Diver);
    assert_eq!(enemy_kind_for_roll(5), EnemyKind::Weaver);
    assert_eq!(enemy_kind_for_roll(8), EnemyKind::Tank);
    assert!(drop_for_roll(EnemyKind::Tank, 17));
    assert!(!drop_for_roll(EnemyKind::Diver, 10));
}

#[test]
fn extra_life_every_fifth_wave_up_to_max() {
    let mut s = fresh();
    s.reset();
    assert_eq!(s.lives, 3);
    for _ in 0..3 {
        assert!(!s.wave_tick(600, true));
        assert!(s.wave_tick(601, true));
    }
    assert_eq!(s.wave, 4);
    assert_eq!(s.lives, 3);
    s.wave_tick(2000, true);
    assert_eq!(s.wave, 5);
    assert_eq!(s.lives, 4);
    s.lives = MAX_LIVES;
    for _ in 0..5 {
        s.wave_tick(2000, true);
    }
    assert_eq!(s.wave, 10);
    assert_eq!(s.lives, MAX_LIVES);
    // enemies on the field hold the clock at zero
    assert!(!s.wave_tick(5000, false));
    assert_eq!(s.spawn_timer_ms, 0);
}

#[test]
fn shield_absorbs_one_hit() {
    let mut s = fresh();
    s.reset();
    s.apply_powerup(PowerKind::Shield, &vec![]);
    assert_eq!(s.take_hit(), HitResult::Absorbed);
    assert_eq!(s.lives, 3);
    assert_eq!(s.take_hit(), HitResult::Hurt);
    assert_eq!(s.lives, 2);
    assert_eq!(s.take_hit(), HitResult::Hurt);
    assert_eq!(s.take_hit(), HitResult::Died);
    assert_eq!(s.lives, 0);
}

#[test]
fn pickups_and_scoring() {
    let mut s = fresh();
    s.reset();
    assert_eq!(s.apply_powerup(PowerKind::Double, &vec![]), PickupResult::Timed(PowerKind::Double));
    assert_eq!(s.fx.double, 15000);
    let r = s.apply_powerup(PowerKind::Bomb, &vec![EnemyKind::Diver, EnemyKind::Tank]);
    assert_eq!(r, PickupResult::Bomb(600));
    assert_eq!(s.score, 600);
    s.lives = MAX_LIVES;
    assert_eq!(s.apply_powerup(PowerKind::Life, &vec![]), PickupResult::Bonus(1000));
    assert_eq!(s.score, 1600);
    s.tick_timers(15000);
    s.award(100);
    assert_eq!(s.score, 1700);
    s.lives = 2;
    assert_eq!(s.apply_powerup(PowerKind::Life, &vec![]), PickupResult::ExtraLife);
    assert_eq!(s.lives, 3);
}

#[test]
fn gun_cooldown() {
    let mut s = fresh();
    s.reset();
    assert!(s.try_fire(true));
    assert_eq!(s.cooldown_ms, 160);
    assert!(!s.try_fire(true));
    s.tick_timers(160);
    s.apply_powerup(PowerKind::Rapid, &vec![]);
    assert!(!s.try_fire(false));
    assert!(s.try_fire(true));
    assert_eq!(s.cooldown_ms, 80);
}

#[test]
fn menu_start_settings_and_quit() {
    let mut s = Session::new(&Save { hi: 10, muted: false, volume: 80 });
    // go to settings and turn the volume down twice, once by key, once by click
    let mut i = idle();
    i.clicked = Some(2);
    let o = s.menu_step(&i);
    assert!(o.select);
    assert_eq!(s.menu.screen, MenuScreen::Settings);
    let mut i = idle();
    i.left = true;
    let o = s.menu_step(&i);
    assert!(o.volume_changed);
    assert_eq!(s.volume, 70);
    let mut i = idle();
    i.clicked = Some(0);
    let o = s.menu_step(&i);
    assert!(o.mute_toggled);
    assert!(s.muted);
    let mut i = idle();
    i.back = true;
    s.menu_step(&i);
    assert_eq!(s.menu.screen, MenuScreen::Main);
    // quit from the bottom item, reached by wrapping up
    let mut i = idle();
    i.up = true;
    let o = s.menu_step(&i);
    assert_eq!(o.moves, 1);
    assert_eq!(s.menu.selected, 3);
    let mut i = idle();
    i.activate = true;
    let o = s.menu_step(&i);
    assert_eq!(o.action, NavAction::Quit);
    assert!(s.quit);
    assert_eq!(s.hi_score, 10);
}

#[test]
fn pause_and_game_over_menus() {
    let mut s = fresh();
    let mut i = idle();
    i.activate = true;
    let o = s.menu_step(&i);
    assert_eq!(o.action, NavAction::StartRun);
    assert_eq!(s.state, State::Playing);
    s.award(300);
    s.pause();
    let mut i = idle();
    i.down = true;
    i.up = true;
    let o = s.pause_step(&i);
    assert_eq!(o.moves, 2);
    assert_eq!(s.pause_sel, 0);
    let mut i = idle();
    i.quit = true;
    let o = s.pause_step(&i);
    assert_eq!(o.action, NavAction::ToMenu);
    assert!(o.hi_changed);
    assert_eq!(s.hi_score, 300);
    assert_eq!(s.state, State::Menu);
    s.state = State::Playing;
    s.die();
    assert_eq!(s.state, State::GameOver);
    let mut i = idle();
    i.down = true;
    let o = s.gameover_step(&i);
    assert_eq!(o.moves, 1);
    assert_eq!(s.over_sel, 1);
    let mut i = idle();
    i.clicked = Some(0);
    let o = s.gameover_step(&i);
    assert_eq!(o.action, NavAction::StartRun);
    assert_eq!(s.state, State::Playing);
    assert_eq!(s.score, 0);
    assert_eq!(s.lives, 3);
}

#[test]
fn random_rolls_cover_their_outcomes() {
    let mut kinds = [false; 3];
    let mut drops = [false; 2];
    for _ in 0..3000 {
        let k = crab_invaders::game::roll_enemy_kind();
        let i = match k {
            EnemyKind::Diver => 0,
            EnemyKind::Weaver => 1,
            EnemyKind::Tank => 2,
        };
        kinds[i] = true;
        drops[crab_invaders::game::roll_drop(EnemyKind::Tank) as usize] = true;
    }
    assert!(kinds.iter().all(|&b| b), "{kinds:?}");
    assert!(drops.iter().all(|&b| b), "{drops:?}");
}

#[test]
fn pickups_near_the_score_limit() {
    let mut s = fresh();
    s.reset();
    s.score = u32::MAX;
    let many = vec![EnemyKind::Tank; 40];
    // timed kinds, the shield and a life below the maximum add no points
    assert_eq!(s.apply_powerup(PowerKind::Spread, &many), PickupResult::Timed(PowerKind::Spread));
    assert_eq!(s.fx.spread, 12000);
    assert_eq!(s.apply_powerup(PowerKind::Shield, &many), PickupResult::ShieldUp);
    assert!(s.fx.shield);
    let lives = s.lives;
    assert_eq!(s.apply_powerup(PowerKind::Life, &many), PickupResult::ExtraLife);
    assert_eq!(s.lives, lives + 1);
    assert_eq!(s.score, u32::MAX);
    // a bomb needs only room for what it actually scores
    s.score = u32::MAX - 300;
    assert_eq!(s.apply_powerup(PowerKind::Bomb, &vec![EnemyKind::Tank, EnemyKind::Diver]), PickupResult::Bomb(300));
    assert_eq!(s.score, u32::MAX);
    // without double score a large award is taken as it is
    s.score = 0;
    s.award(u32::MAX / 2 + 10);
    assert_eq!(s.score, u32::MAX / 2 + 10);
    assert_eq!(s.score_for(u32::MAX), u32::MAX);
}

#[test]
fn strikes_count_down_hit_points() {
    assert_eq!(strike(3, EnemyKind::Tank), (2, 0));
    assert_eq!(strike(2, EnemyKind::Tank), (1, 0));
    assert_eq!(strike(1, EnemyKind::Tank), (0, 250));
    assert_eq!(strike(1, EnemyKind::Diver), (0, 50));
    assert_eq!(strike(0, EnemyKind::Weaver), (-1, 100));
}

#[test]
fn a_new_session_starts_on_the_main_menu() {
    let s = Session::new(&Save { hi: 77, muted: true, volume: 40 });
    assert_eq!(s.state, State::Menu);
    assert_eq!(s.menu.screen, MenuScreen::Main);
    assert_eq!(s.menu.selected, 0);
    assert_eq!((s.pause_sel, s.over_sel), (0, 0));
    assert_eq!((s.invincible_ms, s.cooldown_ms, s.spawn_timer_ms), (0, 0, 0));
    assert_eq!((s.hi_score, s.muted, s.volume, s.score, s.wave), (77, true, 40, 0, 1));
}

#[test]
fn bullets_and_contacts() {
    assert!(can_touch(false, true));
    assert!(can_touch(true, false));
    assert!(!can_touch(true, true));
    assert_eq!(
        bullet_hit(false, 3, EnemyKind::Tank),
        BulletHit { bullet_dies: true, enemy_cools: false, stop: true, hp_left: 2, killed: false, points: 0 }
    );
    assert_eq!(
        bullet_hit(true, 1, EnemyKind::Weaver),
        BulletHit { bullet_dies: false, enemy_cools: true, stop: false, hp_left: 0, killed: true, points: 100 }
    );
    assert!(may_fire(false, EnemyKind::Tank));
    assert!(may_fire(false, EnemyKind::Weaver));
    assert!(!may_fire(false, EnemyKind::Diver));
    assert!(!may_fire(true, EnemyKind::Tank));
    assert_eq!(player_contact(5, true, true), Contact::Clear);
    assert_eq!(player_contact(0, true, true), Contact::Bullet);
    assert_eq!(player_contact(0, false, true), Contact::Ram);
    assert_eq!(player_contact(0, false, false), Contact::Clear);
}
