//! The rules of a run and of the screens around it: lives, score, waves,
//! pickups and hits, and what each key or click on a menu does. The
//! world's motion and collisions are left to the caller, which reports
//! what happened; durations are in milliseconds.
use vstd::prelude::*;
use crate::menu::{MenuScreen, MenuState, item_count, wrap_up, wrap_down};
use crate::powerups::{
    Effects, PowerKind, gen_below, no_effects, tick_spec, count_down, MAX_LIVES, SPREAD_MS,
    RAPID_MS, MAGNET_MS, FREEZE_MS, PIERCE_MS, DOUBLE_MS, DROP_CHANCE_PCT, TANK_DROP_CHANCE_PCT,
};
use crate::save::Save;

verus! {

/// Lives at the start of a run.
pub const START_LIVES: i32 = 3;

/// Time between shots.
pub const FIRE_COOLDOWN_MS: u32 = 160;

/// Time between shots with rapid fire.
pub const RAPID_COOLDOWN_MS: u32 = 80;

/// Pause after a cleared field before the next wave.
pub const WAVE_DELAY_MS: u32 = 1200;

/// Invincibility at the start of a run.
pub const SPAWN_GRACE_MS: u32 = 1000;

/// Invincibility after the shield absorbs a hit.
pub const SHIELD_GRACE_MS: u32 = 1500;

/// Invincibility after losing a life.
pub const HIT_GRACE_MS: u32 = 2000;

/// Bonus for an extra life picked up at full lives.
pub const LIFE_BONUS: u32 = 500;

/// Most enemies in one wave.
pub const MAX_WAVE_SIZE: u32 = 28;

/// Items of the pause menu: RESUME, RESTART, QUIT TO MENU.
pub const PAUSE_ITEMS: usize = 3;

/// Items of the game-over menu: RETRY, MENU.
pub const OVER_ITEMS: usize = 2;

/// Which screen the game is on.
#[derive(PartialEq, Eq, Clone, Copy, Debug, Structural)]
pub enum State {
    Menu,
    Playing,
    Paused,
    GameOver,
}

/// The kinds of enemy.
#[derive(PartialEq, Eq, Clone, Copy, Debug, Structural)]
pub enum EnemyKind {
    Diver,  // chases player slowly, 1 hp
    Weaver,  // sine movement, 1 hp, shoots
    Tank,  // slow, 3 hp, shoots often
}

/// Points for destroying an enemy.
pub open spec fn points_spec(kind: EnemyKind) -> u32 {
    match kind {
        EnemyKind::Diver => 50,
        EnemyKind::Weaver => 100,
        EnemyKind::Tank => 250,
    }
}

/// Points for destroying an enemy of `kind`.
pub fn enemy_points(kind: EnemyKind) -> (p: u32)
    ensures
        p == points_spec(kind),
{
    match kind {
        EnemyKind::Diver => 50,
        EnemyKind::Weaver => 100,
        EnemyKind::Tank => 250,
    }
}

/// A bullet strikes an enemy of `kind` with `hp` hits left: it loses one,
/// and when none remain it dies and its points are scored. Returns the
/// hits left and the points earned.
pub fn strike(hp: i32, kind: EnemyKind) -> (r: (i32, u32))
    requires
        hp > i32::MIN,
    ensures
        r.0 == hp - 1,
        r.1 == (if hp - 1 <= 0 {
            points_spec(kind)
        } else {
            0
        }),
{
    let left = hp - 1;
    if left <= 0 {
        (left, enemy_points(kind))
    } else {
        (left, 0)
    }
}

/// Whether a friendly bullet can touch an enemy: a piercing bullet skips
/// an enemy it has just passed through (`cooling`).
pub fn can_touch(piercing: bool, cooling: bool) -> (r: bool)
    ensures
        r == !(piercing && cooling),
{
    !(piercing && cooling)
}

/// What a friendly bullet touching an enemy did.
#[derive(PartialEq, Eq, Clone, Copy, Debug, Structural)]
pub struct BulletHit {
    /// The bullet is spent.
    pub bullet_dies: bool,
    /// The enemy starts its short cooldown against piercing bullets.
    pub enemy_cools: bool,
    /// The bullet looks at no further enemy this frame.
    pub stop: bool,
    /// Hits the enemy has left.
    pub hp_left: i32,
    /// The enemy is destroyed.
    pub killed: bool,
    /// Points earned (before double score).
    pub points: u32,
}

/// A friendly bullet (`piercing` or not) touches an enemy of `kind` with
/// `hp` hits left: a plain bullet is spent and stops there, a piercing one
/// flies on and the enemy cools down; the enemy loses a hit and, when none
/// remain, dies and scores its points.
pub fn bullet_hit(piercing: bool, hp: i32, kind: EnemyKind) -> (r: BulletHit)
    requires
        hp > i32::MIN,
    ensures
        r.bullet_dies == !piercing,
        r.enemy_cools == piercing,
        r.stop == !piercing,
        r.hp_left == hp - 1,
        r.killed == (hp - 1 <= 0),
        r.points == (if hp - 1 <= 0 {
            points_spec(kind)
        } else {
            0
        }),
{
    let (left, points) = strike(hp, kind);
    BulletHit {
        bullet_dies: !piercing,
        enemy_cools: piercing,
        stop: !piercing,
        hp_left: left,
        killed: left <= 0,
        points,
    }
}

/// Whether an enemy of `kind` may shoot this frame: divers never do, and
/// nobody shoots while frozen.
pub fn may_fire(frozen: bool, kind: EnemyKind) -> (r: bool)
    ensures
        r == (!frozen && kind != EnemyKind::Diver),
{
    !frozen && kind != EnemyKind::Diver
}

/// What touched the player this frame.
#[derive(PartialEq, Eq, Clone, Copy, Debug, Structural)]
pub enum Contact {
    /// Nothing, or the player is invincible.
    Clear,
    /// An enemy bullet: it is spent.
    Bullet,
    /// An enemy's body: it is destroyed, without points or a drop.
    Ram,
}

/// The one contact the player takes this frame: none while invincible,
/// else an enemy bullet in reach before an enemy body in reach.
pub fn player_contact(invincible_ms: u32, bullet_near: bool, body_near: bool) -> (c: Contact)
    ensures
        c == (if invincible_ms > 0 {
            Contact::Clear
        } else if bullet_near {
            Contact::Bullet
        } else if body_near {
            Contact::Ram
        } else {
            Contact::Clear
        }),
{
    if invincible_ms > 0 {
        Contact::Clear
    } else if bullet_near {
        Contact::Bullet
    } else if body_near {
        Contact::Ram
    } else {
        Contact::Clear
    }
}

/// Hits an enemy of `kind` takes.
pub fn enemy_hp(kind: EnemyKind) -> (hp: i32)
    ensures
        hp == (match kind {
            EnemyKind::Tank => 3i32,
            _ => 1i32,
        }),
{
    match kind {
        EnemyKind::Tank => 3,
        _ => 1,
    }
}

/// The kind a spawn roll `r` in `0..10` gives: half divers, three in ten
/// weavers, two in ten tanks.
pub open spec fn kind_for_roll_spec(r: u32) -> EnemyKind {
    if r <= 4 {
        EnemyKind::Diver
    } else if r <= 7 {
        EnemyKind::Weaver
    } else {
        EnemyKind::Tank
    }
}

/// The kind a spawn roll `r` in `0..10` gives.
pub fn enemy_kind_for_roll(r: u32) -> (k: EnemyKind)
    ensures
        k == kind_for_roll_spec(r),
{
    if r <= 4 {
        EnemyKind::Diver
    } else if r <= 7 {
        EnemyKind::Weaver
    } else {
        EnemyKind::Tank
    }
}

/// Roll the kind of a newly spawned enemy: `enemy_kind_for_roll` of a
/// draw in `0..10`.
pub fn roll_enemy_kind() -> (k: EnemyKind)
    ensures
        exists|r: u32| r < 10 && k == #[trigger] kind_for_roll_spec(r),
{
    let r = gen_below(10);
    enemy_kind_for_roll(r)
}

/// Chance in percent that a killed enemy of `kind` drops a pickup.
pub open spec fn drop_chance_spec(kind: EnemyKind) -> u32 {
    if kind == EnemyKind::Tank {
        TANK_DROP_CHANCE_PCT
    } else {
        DROP_CHANCE_PCT
    }
}

/// A draw `r` in `0..100` makes a killed enemy of `kind` drop a pickup
/// when it is below its chance.
pub open spec fn drops_on(kind: EnemyKind, r: u32) -> bool {
    r < drop_chance_spec(kind)
}

/// Whether a killed enemy of `kind` drops a pickup on a draw `r` in
/// `0..100`.
pub fn drop_for_roll(kind: EnemyKind, r: u32) -> (dropped: bool)
    ensures
        dropped == drops_on(kind, r),
{
    let chance = if kind == EnemyKind::Tank {
        TANK_DROP_CHANCE_PCT
    } else {
        DROP_CHANCE_PCT
    };
    r < chance
}

/// Whether a killed enemy of `kind` drops a pickup: `drop_for_roll` of a
/// draw in `0..100`.
pub fn roll_drop(kind: EnemyKind) -> (dropped: bool)
    ensures
        exists|r: u32| r < 100 && dropped == #[trigger] drops_on(kind, r),
{
    let r = gen_below(100);
    drop_for_roll(kind, r)
}

/// Enemies in wave `wave`: two more each wave, capped.
pub open spec fn wave_size_spec(wave: u32) -> int {
    if 4 + 2 * wave < MAX_WAVE_SIZE {
        4 + 2 * wave
    } else {
        MAX_WAVE_SIZE as int
    }
}

/// Enemies in wave `wave`.
pub fn wave_size(wave: u32) -> (n: usize)
    ensures
        n == wave_size_spec(wave),
{
    if wave < 12 {
        (4 + 2 * wave) as usize
    } else {
        MAX_WAVE_SIZE as usize
    }
}

/// Points actually scored for `base`: doubled while double score runs.
pub open spec fn score_for_spec(base: int, double_ms: u32) -> int {
    if double_ms > 0 {
        base * 2
    } else {
        base
    }
}

/// What a pickup did, for the caller to show.
#[derive(PartialEq, Eq, Clone, Copy, Debug, Structural)]
pub enum PickupResult {
    /// A timed effect started or restarted.
    Timed(PowerKind),
    /// The shield is up.
    ShieldUp,
    /// The bomb went off; these points were scored.
    Bomb(u32),
    /// One more life.
    ExtraLife,
    /// Lives were full; these points were scored instead.
    Bonus(u32),
}

/// What an enemy hit did to the player.
#[derive(PartialEq, Eq, Clone, Copy, Debug, Structural)]
pub enum HitResult {
    /// The shield took it.
    Absorbed,
    /// A life was lost.
    Hurt,
    /// The last life was lost: the run is over.
    Died,
}

/// What a menu step asks of the caller besides the session's own changes.
#[derive(PartialEq, Eq, Clone, Copy, Debug, Structural)]
pub enum NavAction {
    /// Nothing more.
    Stay,
    /// A new run began: spawn its first wave, start the music.
    StartRun,
    /// The run restarted from the pause menu: spawn its first wave.
    Restart,
    /// Back to playing.
    Resume,
    /// Back to the main menu: start the music.
    ToMenu,
    /// Leave the game.
    Quit,
}

/// Input of one frame on a menu screen.
#[derive(Clone, Copy, Debug)]
pub struct NavInput {
    /// M: toggle mute.
    pub mute: bool,
    /// Escape.
    pub back: bool,
    /// P.
    pub pause: bool,
    /// Q.
    pub quit: bool,
    /// Up or W.
    pub up: bool,
    /// Down or S.
    pub down: bool,
    /// Left or A.
    pub left: bool,
    /// Right or D.
    pub right: bool,
    /// Item under the mouse.
    pub hover: Option<usize>,
    /// Enter or Space.
    pub activate: bool,
    /// Item clicked.
    pub clicked: Option<usize>,
}

/// What a menu step did, for the caller to play, save and perform.
#[derive(Clone, Copy, Debug)]
pub struct NavOutcome {
    /// How many cursor-move blips to play.
    pub moves: u32,
    /// Play the select sound.
    pub select: bool,
    /// Mute was toggled: start or stop the music and save.
    pub mute_toggled: bool,
    /// Volume changed: adjust the music and save.
    pub volume_changed: bool,
    /// The hi-score rose: save.
    pub hi_changed: bool,
    pub action: NavAction,
}

/// The state of play that the rules decide on.
pub struct Session {
    pub state: State,
    pub menu: MenuState,
    pub pause_sel: usize,
    pub over_sel: usize,
    pub score: u32,
    pub hi_score: u32,
    pub wave: u32,
    pub lives: i32,
    pub invincible_ms: u32,
    pub cooldown_ms: u32,
    pub spawn_timer_ms: u32,
    pub fx: Effects,
    pub muted: bool,
    /// Percent.
    pub volume: u32,
    pub quit: bool,
}

impl Session {
    /// The session's invariant: lives within `0..=MAX_LIVES`, the volume a
    /// percentage, every highlighted item on its screen, the wave counter
    /// and the wave timer in range.
    pub open spec fn wf(&self) -> bool {
        &&& 0 <= self.lives <= MAX_LIVES
        &&& self.volume <= 100
        &&& self.menu.selected < item_count(self.menu.screen)
        &&& self.pause_sel < PAUSE_ITEMS
        &&& self.over_sel < OVER_ITEMS
        &&& 1 <= self.wave
        &&& self.spawn_timer_ms <= WAVE_DELAY_MS
    }

    /// A session on the main menu with the saved hi-score and settings.
    pub fn new(saved: &Save) -> (s: Self)
        requires
            saved.volume <= 100,
        ensures
            s.wf(),
            s.state == State::Menu,
            s.hi_score == saved.hi,
            s.muted == saved.muted,
            s.volume == saved.volume,
            s.score == 0,
            s.wave == 1,
            s.lives == START_LIVES,
            s.fx == no_effects(),
            !s.quit,
            s.menu.screen == MenuScreen::Main,
            s.menu.selected == 0,
            s.pause_sel == 0,
            s.over_sel == 0,
            s.invincible_ms == 0,
            s.cooldown_ms == 0,
            s.spawn_timer_ms == 0,
    {
        Session {
            state: State::Menu,
            menu: MenuState::new(),
            pause_sel: 0,
            over_sel: 0,
            score: 0,
            hi_score: saved.hi,
            wave: 1,
            lives: START_LIVES,
            invincible_ms: 0,
            cooldown_ms: 0,
            spawn_timer_ms: 0,
            fx: Effects::new(),
            muted: saved.muted,
            volume: saved.volume,
            quit: false,
        }
    }

    /// The settings to save.
    pub fn to_save(&self) -> (s: Save)
        ensures
            s.hi == self.hi_score,
            s.muted == self.muted,
            s.volume == self.volume,
    {
        Save { hi: self.hi_score, muted: self.muted, volume: self.volume }
    }

    /// Raise the hi-score to the score if it beats it; true when it did
    /// (the caller then saves).
    pub fn save_hi(&mut self) -> (changed: bool)
        ensures
            changed == (old(self).score > old(self).hi_score),
            final(self).hi_score == (if changed {
                old(self).score
            } else {
                old(self).hi_score
            }),
            final(self).hi_score >= final(self).score,
            final(self).hi_score >= old(self).hi_score,
            *final(self) == (Session { hi_score: final(self).hi_score, ..*old(self) }),
    {
        if self.score > self.hi_score {
            self.hi_score = self.score;
            true
        } else {
            false
        }
    }

    /// Flip mute (the caller starts or stops the music and saves).
    pub fn toggle_mute(&mut self)
        ensures
            final(self).muted == !old(self).muted,
            *final(self) == (Session { muted: final(self).muted, ..*old(self) }),
    {
        self.muted = !self.muted;
    }

    /// Volume up or down by ten points, within `0..=100`.
    pub fn bump_volume(&mut self, up: bool)
        requires
            old(self).volume <= 100,
        ensures
            final(self).volume == (if up {
                if old(self).volume + 10 > 100 {
                    100
                } else {
                    old(self).volume + 10
                }
            } else {
                if old(self).volume < 10 {
                    0
                } else {
                    old(self).volume - 10
                }
            }),
            final(self).volume <= 100,
            *final(self) == (Session { volume: final(self).volume, ..*old(self) }),
    {
        if up {
            self.volume = if self.volume + 10 > 100 {
                100
            } else {
                self.volume + 10
            };
        } else {
            self.volume = if self.volume < 10 {
                0
            } else {
                self.volume - 10
            };
        }
    }

    /// Start a fresh run: the hi-score is kept, everything else starts over.
    pub fn reset(&mut self) -> (hi_changed: bool)
        requires
            old(self).wf(),
        ensures
            final(self).wf(),
            hi_changed == (old(self).score > old(self).hi_score),
            final(self).hi_score >= old(self).hi_score,
            final(self).hi_score >= old(self).score,
            *final(self) == reset_spec(*old(self)),
            final(self).state == State::Playing,
            final(self).lives == START_LIVES,
            final(self).invincible_ms == SPAWN_GRACE_MS,
            final(self).cooldown_ms == 0,
            final(self).score == 0,
            final(self).wave == 1,
            final(self).spawn_timer_ms == 0,
            final(self).fx == no_effects(),
            final(self).pause_sel == 0,
            final(self).over_sel == 0,
            final(self).menu == old(self).menu,
            final(self).muted == old(self).muted,
            final(self).volume == old(self).volume,
            final(self).quit == old(self).quit,
    {
        let changed = self.save_hi();
        self.lives = START_LIVES;
        self.invincible_ms = SPAWN_GRACE_MS;
        self.cooldown_ms = 0;
        self.fx.clear();
        self.score = 0;
        self.wave = 1;
        self.spawn_timer_ms = 0;
        self.pause_sel = 0;
        self.over_sel = 0;
        self.state = State::Playing;
        changed
    }

    /// Back to the main menu (the caller starts the music).
    pub fn to_menu(&mut self) -> (hi_changed: bool)
        requires
            old(self).wf(),
        ensures
            final(self).wf(),
            hi_changed == (old(self).score > old(self).hi_score),
            final(self).hi_score >= old(self).hi_score,
            final(self).hi_score >= old(self).score,
            *final(self) == to_menu_spec(*old(self)),
            final(self).state == State::Menu,
            final(self).menu.screen == MenuScreen::Main,
            final(self).menu.selected == 0,
            final(self).score == old(self).score,
            final(self).lives == old(self).lives,
            final(self).muted == old(self).muted,
            final(self).volume == old(self).volume,
    {
        let changed = self.save_hi();
        self.menu.goto(MenuScreen::Main);
        self.state = State::Menu;
        changed
    }

    /// The run is over (the caller stops the music and plays the dirge).
    pub fn die(&mut self) -> (hi_changed: bool)
        requires
            old(self).wf(),
        ensures
            final(self).wf(),
            hi_changed == (old(self).score > old(self).hi_score),
            final(self).hi_score >= old(self).hi_score,
            final(self).hi_score >= old(self).score,
            *final(self) == (Session { hi_score: best(*old(self)), state: State::GameOver, ..*old(self) }),
            final(self).state == State::GameOver,
            final(self).score == old(self).score,
            final(self).lives == old(self).lives,
    {
        let changed = self.save_hi();
        self.state = State::GameOver;
        changed
    }

    /// Pause the run.
    pub fn pause(&mut self)
        requires
            old(self).wf(),
        ensures
            final(self).wf(),
            final(self).state == State::Paused,
            final(self).pause_sel == 0,
            *final(self) == (Session { state: State::Paused, pause_sel: 0, ..*old(self) }),
    {
        self.pause_sel = 0;
        self.state = State::Paused;
    }

    /// Points actually scored for `base` right now.
    pub fn score_for(&self, base: u32) -> (p: u32)
        requires
            self.fx.double > 0 ==> base <= u32::MAX / 2,
        ensures
            p == score_for_spec(base as int, self.fx.double),
    {
        if self.fx.double > 0 {
            base * 2
        } else {
            base
        }
    }

    /// Score `base` points (doubled while double score runs).
    pub fn award(&mut self, base: u32)
        requires
            old(self).score + score_for_spec(base as int, old(self).fx.double) <= u32::MAX,
        ensures
            final(self).score == old(self).score + score_for_spec(base as int, old(self).fx.double),
            *final(self) == (Session { score: final(self).score, ..*old(self) }),
    {
        let p = self.score_for(base);
        self.score = self.score + p;
    }

    /// Let `dt` milliseconds of play pass: effects, invincibility and the
    /// gun cooldown count down.
    pub fn tick_timers(&mut self, dt: u32)
        ensures
            final(self).fx == tick_spec(old(self).fx, dt),
            final(self).invincible_ms == count_down(old(self).invincible_ms, dt),
            final(self).cooldown_ms == count_down(old(self).cooldown_ms, dt),
            *final(self) == (Session {
                fx: final(self).fx,
                invincible_ms: final(self).invincible_ms,
                cooldown_ms: final(self).cooldown_ms,
                ..*old(self)
            }),
    {
        self.fx.tick(dt);
        self.invincible_ms = if self.invincible_ms > dt {
            self.invincible_ms - dt
        } else {
            0
        };
        self.cooldown_ms = if self.cooldown_ms > dt {
            self.cooldown_ms - dt
        } else {
            0
        };
    }

    /// Fire if the trigger is held and the gun is ready; the gun then waits
    /// its cooldown (shorter with rapid fire).
    pub fn try_fire(&mut self, trigger: bool) -> (fired: bool)
        ensures
            fired == (trigger && old(self).cooldown_ms == 0),
            final(self).cooldown_ms == (if fired {
                if old(self).fx.rapid > 0 {
                    RAPID_COOLDOWN_MS
                } else {
                    FIRE_COOLDOWN_MS
                }
            } else {
                old(self).cooldown_ms
            }),
            *final(self) == (Session { cooldown_ms: final(self).cooldown_ms, ..*old(self) }),
    {
        if trigger && self.cooldown_ms == 0 {
            self.cooldown_ms = if self.fx.rapid > 0 {
                RAPID_COOLDOWN_MS
            } else {
                FIRE_COOLDOWN_MS
            };
            true
        } else {
            false
        }
    }

    /// Advance the wave clock by `dt`: once the field has stayed clear for
    /// `WAVE_DELAY_MS` the next wave comes (true), with a life back every
    /// fifth wave while below the maximum.
    pub fn wave_tick(&mut self, dt: u32, field_clear: bool) -> (next: bool)
        requires
            old(self).wf(),
            field_clear && old(self).spawn_timer_ms + dt > WAVE_DELAY_MS ==> old(self).wave < u32::MAX,
        ensures
            final(self).wf(),
            next == (field_clear && old(self).spawn_timer_ms + dt > WAVE_DELAY_MS),
            final(self).spawn_timer_ms == (if field_clear && !next {
                old(self).spawn_timer_ms + dt
            } else {
                0
            }),
            final(self).wave == (if next {
                old(self).wave + 1
            } else {
                old(self).wave as int
            }),
            final(self).lives == (if next && final(self).wave % 5 == 0 && old(self).lives < MAX_LIVES {
                old(self).lives + 1
            } else {
                old(self).lives as int
            }),
            *final(self) == (Session {
                wave: final(self).wave,
                spawn_timer_ms: final(self).spawn_timer_ms,
                lives: final(self).lives,
                ..*old(self)
            }),
    {
        if field_clear {
            let t = self.spawn_timer_ms as u64 + dt as u64;
            if t > WAVE_DELAY_MS as u64 {
                self.wave = self.wave + 1;
                self.spawn_timer_ms = 0;
                if self.wave % 5 == 0 && self.lives < MAX_LIVES {
                    self.lives = self.lives + 1;
                }
                true
            } else {
                self.spawn_timer_ms = t as u32;
                false
            }
        } else {
            self.spawn_timer_ms = 0;
            false
        }
    }

    /// Bomb: every enemy still alive (`killed`) is destroyed and scored.
    pub fn detonate(&mut self, killed: &Vec<EnemyKind>) -> (gained: u32)
        requires
            old(self).score + score_for_spec(points_total(killed@), old(self).fx.double) <= u32::MAX,
        ensures
            gained == score_for_spec(points_total(killed@), old(self).fx.double),
            final(self).score == old(self).score + gained,
            *final(self) == (Session { score: final(self).score, ..*old(self) }),
    {
        let mut sum: u32 = 0;
        let mut i: usize = 0;
        while i < killed.len()
            invariant
                i <= killed@.len(),
                sum == points_total(killed@.take(i as int)),
                points_total(killed@) <= u32::MAX,
            decreases killed@.len() - i,
        {
            assert(killed@.take(i + 1).drop_last() =~= killed@.take(i as int));
            proof {
                lemma_points_prefix(killed@, i + 1);
            }
            sum = sum + enemy_points(killed[i]);
            i += 1;
        }
        assert(killed@.take(killed@.len() as int) =~= killed@);
        let g = self.score_for(sum);
        self.score = self.score + g;
        g
    }

    /// Apply a collected pickup. `killed` lists the enemies alive, which a
    /// bomb destroys.
    pub fn apply_powerup(&mut self, kind: PowerKind, killed: &Vec<EnemyKind>) -> (r: PickupResult)
        requires
            old(self).wf(),
            kind == PowerKind::Bomb ==> old(self).score + score_for_spec(
                points_total(killed@),
                old(self).fx.double,
            ) <= u32::MAX,
            kind == PowerKind::Life && old(self).lives >= MAX_LIVES ==> old(self).score
                + score_for_spec(LIFE_BONUS as int, old(self).fx.double) <= u32::MAX,
        ensures
            final(self).wf(),
            final(self).hi_score == old(self).hi_score,
            final(self).state == old(self).state,
            match kind {
                PowerKind::Spread => r == PickupResult::Timed(kind) && final(self).fx == (Effects { spread: SPREAD_MS, ..old(self).fx }),
                PowerKind::Rapid => r == PickupResult::Timed(kind) && final(self).fx == (Effects { rapid: RAPID_MS, ..old(self).fx }),
                PowerKind::Magnet => r == PickupResult::Timed(kind) && final(self).fx == (Effects { magnet: MAGNET_MS, ..old(self).fx }),
                PowerKind::Freeze => r == PickupResult::Timed(kind) && final(self).fx == (Effects { freeze: FREEZE_MS, ..old(self).fx }),
                PowerKind::Pierce => r == PickupResult::Timed(kind) && final(self).fx == (Effects { pierce: PIERCE_MS, ..old(self).fx }),
                PowerKind::Double => r == PickupResult::Timed(kind) && final(self).fx == (Effects { double: DOUBLE_MS, ..old(self).fx }),
                PowerKind::Shield => r == PickupResult::ShieldUp && final(self).fx == (Effects { shield: true, ..old(self).fx }),
                PowerKind::Bomb => r == PickupResult::Bomb(
                    score_for_spec(points_total(killed@), old(self).fx.double) as u32,
                ) && final(self).score == old(self).score + score_for_spec(points_total(killed@), old(self).fx.double),
                PowerKind::Life => if old(self).lives < MAX_LIVES {
                    r == PickupResult::ExtraLife && final(self).lives == old(self).lives + 1
                        && final(self).score == old(self).score
                } else {
                    r == PickupResult::Bonus(score_for_spec(LIFE_BONUS as int, old(self).fx.double) as u32)
                        && final(self).lives == old(self).lives
                        && final(self).score == old(self).score + score_for_spec(LIFE_BONUS as int, old(self).fx.double)
                },
            },
            kind != PowerKind::Bomb && kind != PowerKind::Life ==> final(self).score == old(self).score,
            kind != PowerKind::Life ==> final(self).lives == old(self).lives,
            kind == PowerKind::Bomb || kind == PowerKind::Life ==> final(self).fx == old(self).fx,
            *final(self) == (Session {
                fx: final(self).fx,
                score: final(self).score,
                lives: final(self).lives,
                ..*old(self)
            }),
    {
        match kind {
            PowerKind::Spread => {
                self.fx.spread = SPREAD_MS;
                PickupResult::Timed(kind)
            },
            PowerKind::Rapid => {
                self.fx.rapid = RAPID_MS;
                PickupResult::Timed(kind)
            },
            PowerKind::Shield => {
                self.fx.shield = true;
                PickupResult::ShieldUp
            },
            PowerKind::Bomb => {
                let g = self.detonate(killed);
                PickupResult::Bomb(g)
            },
            PowerKind::Life => {
                if self.lives < MAX_LIVES {
                    self.lives = self.lives + 1;
                    PickupResult::ExtraLife
                } else {
                    let bonus = self.score_for(LIFE_BONUS);
                    self.score = self.score + bonus;
                    PickupResult::Bonus(bonus)
                }
            },
            PowerKind::Magnet => {
                self.fx.magnet = MAGNET_MS;
                PickupResult::Timed(kind)
            },
            PowerKind::Freeze => {
                self.fx.freeze = FREEZE_MS;
                PickupResult::Timed(kind)
            },
            PowerKind::Pierce => {
                self.fx.pierce = PIERCE_MS;
                PickupResult::Timed(kind)
            },
            PowerKind::Double => {
                self.fx.double = DOUBLE_MS;
                PickupResult::Timed(kind)
            },
        }
    }

    /// An enemy bullet or body reached the player while not invincible:
    /// the shield absorbs it if up, else a life is lost.
    pub fn take_hit(&mut self) -> (r: HitResult)
        requires
            old(self).wf(),
        ensures
            final(self).wf(),
            old(self).fx.shield ==> r == HitResult::Absorbed && !final(self).fx.shield
                && final(self).lives == old(self).lives
                && final(self).invincible_ms == SHIELD_GRACE_MS,
            !old(self).fx.shield ==> final(self).lives == (if old(self).lives > 0 {
                old(self).lives - 1
            } else {
                0
            }) && final(self).invincible_ms == HIT_GRACE_MS && (r == HitResult::Died) == (
            old(self).lives <= 1) && (r == HitResult::Hurt) == (old(self).lives > 1),
            final(self).fx == (Effects { shield: false, ..old(self).fx }),
            *final(self) == (Session {
                fx: final(self).fx,
                lives: final(self).lives,
                invincible_ms: final(self).invincible_ms,
                ..*old(self)
            }),
    {
        if self.fx.shield {
            self.fx.shield = false;
            self.invincible_ms = SHIELD_GRACE_MS;
            HitResult::Absorbed
        } else {
            if self.lives > 0 {
                self.lives = self.lives - 1;
            }
            self.invincible_ms = HIT_GRACE_MS;
            if self.lives <= 0 {
                HitResult::Died
            } else {
                HitResult::Hurt
            }
        }
    }
}

/// The points of a prefix of `kinds` are at most those of all of them.
proof fn lemma_points_prefix(kinds: Seq<EnemyKind>, k: int)
    requires
        0 <= k <= kinds.len(),
    ensures
        0 <= points_total(kinds.take(k)) <= points_total(kinds),
    decreases kinds.len(),
{
    if k < kinds.len() {
        let s = kinds.drop_last();
        lemma_points_prefix(s, k);
        assert(s.take(k) =~= kinds.take(k));
    } else {
        assert(kinds.take(k) =~= kinds);
        if kinds.len() > 0 {
            lemma_points_prefix(kinds.drop_last(), kinds.len() - 1);
            assert(kinds.drop_last().take(kinds.len() - 1) =~= kinds.drop_last());
        }
    }
}

/// Sum of the points of the enemies `kinds`.
pub open spec fn points_total(kinds: Seq<EnemyKind>) -> int
    decreases kinds.len(),
{
    if kinds.len() == 0 {
        0
    } else {
        points_total(kinds.drop_last()) + points_spec(kinds.last())
    }
}

// ---- screens ----

/// The larger of hi-score and score.
pub open spec fn best(s: Session) -> u32 {
    if s.score > s.hi_score {
        s.score
    } else {
        s.hi_score
    }
}

/// The volume one step up or down.
pub open spec fn bump_spec(v: u32, up: bool) -> u32 {
    if up {
        if v + 10 > 100 {
            100
        } else {
            (v + 10) as u32
        }
    } else {
        if v < 10 {
            0
        } else {
            (v - 10) as u32
        }
    }
}

/// A fresh run.
pub open spec fn reset_spec(s: Session) -> Session {
    Session {
        hi_score: best(s),
        lives: START_LIVES,
        invincible_ms: SPAWN_GRACE_MS,
        cooldown_ms: 0,
        fx: no_effects(),
        score: 0,
        wave: 1,
        spawn_timer_ms: 0,
        pause_sel: 0,
        over_sel: 0,
        state: State::Playing,
        ..s
    }
}

/// Back on the main menu.
pub open spec fn to_menu_spec(s: Session) -> Session {
    Session {
        hi_score: best(s),
        menu: MenuState { screen: MenuScreen::Main, selected: 0 },
        state: State::Menu,
        ..s
    }
}

/// The session with `sel` highlighted on the menu.
pub open spec fn with_menu(s: Session, screen: MenuScreen, sel: usize) -> Session {
    Session { menu: MenuState { screen: screen, selected: sel }, ..s }
}

/// Cursor after the up and down keys and the mouse: the new item, and
/// whether each of up, down and hover moved it.
pub open spec fn cursor(sel: int, n: int, up: bool, down: bool, hover: Option<usize>) -> int {
    let a = if up {
        wrap_up(sel, n)
    } else {
        sel
    };
    let b = if down {
        wrap_down(a, n)
    } else {
        a
    };
    match hover {
        Some(i) => i as int,
        None => b,
    }
}

/// Whether the mouse moved the cursor to a new item.
pub open spec fn hover_moves(sel: int, n: int, up: bool, down: bool, hover: Option<usize>) -> bool {
    let a = if up {
        wrap_up(sel, n)
    } else {
        sel
    };
    let b = if down {
        wrap_down(a, n)
    } else {
        a
    };
    match hover {
        Some(i) => i != b,
        None => false,
    }
}

/// Outcome with `moves` blips and the other fields given.
pub open spec fn outcome(
    moves: u32,
    select: bool,
    mute_toggled: bool,
    volume_changed: bool,
    hi_changed: bool,
    action: NavAction,
) -> NavOutcome {
    NavOutcome { moves, select, mute_toggled, volume_changed, hi_changed, action }
}

/// Choosing the highlighted item of the main, help or settings screen.
pub open spec fn menu_activate_spec(s: Session, moves: u32, vol_changed: bool) -> (Session, NavOutcome) {
    let sel = s.menu.selected;
    match s.menu.screen {
        MenuScreen::Main => if sel == 0 {
            (reset_spec(s), outcome(moves, false, false, vol_changed, s.score > s.hi_score, NavAction::StartRun))
        } else if sel == 1 {
            (with_menu(s, MenuScreen::Help, 0), outcome(moves, true, false, vol_changed, false, NavAction::Stay))
        } else if sel == 2 {
            (with_menu(s, MenuScreen::Settings, 0), outcome(moves, true, false, vol_changed, false, NavAction::Stay))
        } else {
            (Session { hi_score: best(s), quit: true, ..s }, outcome(moves, true, false, vol_changed, s.score > s.hi_score, NavAction::Quit))
        },
        MenuScreen::Help => (with_menu(s, MenuScreen::Main, 0), outcome(moves, true, false, vol_changed, false, NavAction::Stay)),
        MenuScreen::Settings => if sel == 0 {
            (Session { muted: !s.muted, ..s }, outcome(moves, true, true, vol_changed, false, NavAction::Stay))
        } else if sel == 1 {
            (Session { volume: bump_spec(s.volume, true), ..s }, outcome(moves, false, false, true, false, NavAction::Stay))
        } else {
            (with_menu(s, MenuScreen::Main, 0), outcome(moves, true, false, vol_changed, false, NavAction::Stay))
        },
    }
}

/// The volume after the left and right keys on the settings screen.
pub open spec fn settings_volume(s: Session, i: NavInput) -> u32 {
    let settings = s.menu.screen == MenuScreen::Settings;
    let v1 = if settings && i.left {
        bump_spec(s.volume, false)
    } else {
        s.volume
    };
    if settings && i.right {
        bump_spec(v1, true)
    } else {
        v1
    }
}

/// One frame on the main menu, the help or the settings screen.
pub open spec fn menu_step_spec(s: Session, i: NavInput) -> (Session, NavOutcome) {
    if i.mute {
        (Session { muted: !s.muted, ..s }, outcome(0, false, true, false, false, NavAction::Stay))
    } else {
        let screen = s.menu.screen;
        let n = item_count(screen) as int;
        let sel = cursor(s.menu.selected as int, n, i.up, i.down, i.hover) as usize;
        let moved = i.up || i.down || hover_moves(s.menu.selected as int, n, i.up, i.down, i.hover);
        let moves: u32 = if moved {
            1
        } else {
            0
        };
        let settings = screen == MenuScreen::Settings;
        let vol_changed = settings && (i.left || i.right);
        let s1 = Session { volume: settings_volume(s, i), ..with_menu(s, screen, sel) };
        if i.back {
            if screen == MenuScreen::Main {
                (s1, outcome(moves, false, false, vol_changed, false, NavAction::Stay))
            } else {
                (with_menu(s1, MenuScreen::Main, 0), outcome(moves, settings, false, vol_changed, false, NavAction::Stay))
            }
        } else {
            let sel2 = match i.clicked {
                Some(c) => c,
                None => sel,
            };
            let s2 = with_menu(s1, screen, sel2);
            if !(i.activate || i.clicked is Some) {
                (s2, outcome(moves, false, false, vol_changed, false, NavAction::Stay))
            } else {
                menu_activate_spec(s2, moves, vol_changed)
            }
        }
    }
}

/// The mouse indices of a frame's input point at items of an `n`-item list.
pub open spec fn input_fits(i: NavInput, n: int) -> bool {
    &&& (i.hover matches Some(h) ==> h < n)
    &&& (i.clicked matches Some(c) ==> c < n)
}

impl Session {
    /// One frame on the main menu, the help or the settings screen.
    #[verifier::rlimit(40)]
    pub fn menu_step(&mut self, input: &NavInput) -> (out: NavOutcome)
        requires
            old(self).wf(),
            old(self).state == State::Menu,
            input_fits(*input, item_count(old(self).menu.screen) as int),
        ensures
            (*final(self), out) == menu_step_spec(*old(self), *input),
            final(self).wf(),
            final(self).hi_score >= old(self).hi_score,
            final(self).quit && !old(self).quit ==> final(self).hi_score >= final(self).score,
    {
        if input.mute {
            self.toggle_mute();
            return NavOutcome {
                moves: 0,
                select: false,
                mute_toggled: true,
                volume_changed: false,
                hi_changed: false,
                action: NavAction::Stay,
            };
        }
        let screen = self.menu.screen;
        let moved = self.menu_cursor(input);
        let moves: u32 = if moved {
            1
        } else {
            0
        };
        let mut vol_changed = false;
        if screen == MenuScreen::Settings {
            if input.left {
                self.bump_volume(false);
                vol_changed = true;
            }
            if input.right {
                self.bump_volume(true);
                vol_changed = true;
            }
            if input.back {
                self.menu.goto(MenuScreen::Main);
                return NavOutcome {
                    moves,
                    select: true,
                    mute_toggled: false,
                    volume_changed: vol_changed,
                    hi_changed: false,
                    action: NavAction::Stay,
                };
            }
        } else if input.back {
            if screen != MenuScreen::Main {
                self.menu.goto(MenuScreen::Main);
            }
            return NavOutcome {
                moves,
                select: false,
                mute_toggled: false,
                volume_changed: false,
                hi_changed: false,
                action: NavAction::Stay,
            };
        }
        let mut activate = input.activate;
        if let Some(c) = input.clicked {
            self.menu.selected = c;
            activate = true;
        }
        if !activate {
            return NavOutcome {
                moves,
                select: false,
                mute_toggled: false,
                volume_changed: vol_changed,
                hi_changed: false,
                action: NavAction::Stay,
            };
        }
        self.menu_activate(moves, vol_changed)
    }

    fn menu_cursor(&mut self, input: &NavInput) -> (moved: bool)
        requires
            old(self).wf(),
            input_fits(*input, item_count(old(self).menu.screen) as int),
        ensures
            final(self).wf(),
            *final(self) == with_menu(
                *old(self),
                old(self).menu.screen,
                cursor(
                    old(self).menu.selected as int,
                    item_count(old(self).menu.screen) as int,
                    input.up,
                    input.down,
                    input.hover,
                ) as usize,
            ),
            moved == (input.up || input.down || hover_moves(
                old(self).menu.selected as int,
                item_count(old(self).menu.screen) as int,
                input.up,
                input.down,
                input.hover,
            )),
    {
        let muted = self.muted;
        let volume = self.volume;
        let mut moved = false;
        if input.up {
            self.menu.up(muted, volume);
            moved = true;
        }
        if input.down {
            self.menu.down(muted, volume);
            moved = true;
        }
        if let Some(h) = input.hover {
            if h != self.menu.selected {
                self.menu.selected = h;
                moved = true;
            }
        }
        moved
    }

    fn menu_activate(&mut self, moves: u32, vol_changed: bool) -> (out: NavOutcome)
        requires
            old(self).wf(),
            old(self).state == State::Menu,
        ensures
            (*final(self), out) == menu_activate_spec(*old(self), moves, vol_changed),
            final(self).wf(),
    {
        let mut out = NavOutcome {
            moves,
            select: false,
            mute_toggled: false,
            volume_changed: vol_changed,
            hi_changed: false,
            action: NavAction::Stay,
        };
        match self.menu.screen {
            MenuScreen::Main => {
                out.select = true;
                if self.menu.selected == 0 {
                    out.select = false;
                    out.hi_changed = self.reset();
                    out.action = NavAction::StartRun;
                } else if self.menu.selected == 1 {
                    self.menu.goto(MenuScreen::Help);
                } else if self.menu.selected == 2 {
                    self.menu.goto(MenuScreen::Settings);
                } else {
                    out.hi_changed = self.save_hi();
                    self.quit = true;
                    out.action = NavAction::Quit;
                }
            },
            MenuScreen::Help => {
                out.select = true;
                self.menu.goto(MenuScreen::Main);
            },
            MenuScreen::Settings => {
                if self.menu.selected == 0 {
                    self.toggle_mute();
                    out.select = true;
                    out.mute_toggled = true;
                } else if self.menu.selected == 1 {
                    self.bump_volume(true);
                    out.volume_changed = true;
                } else {
                    out.select = true;
                    self.menu.goto(MenuScreen::Main);
                }
            },
        }
        out
    }
}

/// One frame on the pause menu (RESUME, RESTART, QUIT TO MENU).
pub open spec fn pause_step_spec(s: Session, i: NavInput) -> (Session, NavOutcome) {
    if i.mute {
        (Session { muted: !s.muted, ..s }, outcome(0, false, true, false, false, NavAction::Stay))
    } else if i.pause || i.back {
        (Session { state: State::Playing, ..s }, outcome(0, false, false, false, false, NavAction::Resume))
    } else if i.quit {
        (to_menu_spec(s), outcome(0, false, false, false, s.score > s.hi_score, NavAction::ToMenu))
    } else {
        let n = PAUSE_ITEMS as int;
        let sel = cursor(s.pause_sel as int, n, i.up, i.down, i.hover) as usize;
        let moves = ((if i.up { 1int } else { 0int }) + (if i.down { 1int } else { 0int }) + (if hover_moves(
            s.pause_sel as int,
            n,
            i.up,
            i.down,
            i.hover,
        ) {
            1int
        } else {
            0int
        })) as u32;
        let sel2 = match i.clicked {
            Some(c) => c,
            None => sel,
        };
        let s2 = Session { pause_sel: sel2, ..s };
        if !(i.activate || i.clicked is Some) {
            (s2, outcome(moves, false, false, false, false, NavAction::Stay))
        } else if sel2 == 0 {
            (Session { state: State::Playing, ..s2 }, outcome(moves, true, false, false, false, NavAction::Resume))
        } else if sel2 == 1 {
            (reset_spec(s2), outcome(moves, true, false, false, s2.score > s2.hi_score, NavAction::Restart))
        } else {
            (to_menu_spec(s2), outcome(moves, true, false, false, s2.score > s2.hi_score, NavAction::ToMenu))
        }
    }
}

/// One frame on the game-over menu (RETRY, MENU).
pub open spec fn gameover_step_spec(s: Session, i: NavInput) -> (Session, NavOutcome) {
    if i.mute {
        (Session { muted: !s.muted, ..s }, outcome(0, false, true, false, false, NavAction::Stay))
    } else if i.back {
        (to_menu_spec(s), outcome(0, false, false, false, s.score > s.hi_score, NavAction::ToMenu))
    } else {
        let n = OVER_ITEMS as int;
        let step = i.up || i.down;
        let sel = cursor(s.over_sel as int, n, false, step, i.hover) as usize;
        let moves = ((if step { 1int } else { 0int }) + (if hover_moves(s.over_sel as int, n, false, step, i.hover) {
            1int
        } else {
            0int
        })) as u32;
        let sel2 = match i.clicked {
            Some(c) => c,
            None => sel,
        };
        let s2 = Session { over_sel: sel2, ..s };
        if !(i.activate || i.clicked is Some) {
            (s2, outcome(moves, false, false, false, false, NavAction::Stay))
        } else if sel2 == 0 {
            (reset_spec(s2), outcome(moves, false, false, false, s2.score > s2.hi_score, NavAction::StartRun))
        } else {
            (to_menu_spec(s2), outcome(moves, false, false, false, s2.score > s2.hi_score, NavAction::ToMenu))
        }
    }
}

/// Cursor over an `n`-item list after the keys and the mouse, with the
/// number of moves.
fn list_cursor(sel: usize, n: usize, up: bool, down: bool, hover: Option<usize>) -> (r: (usize, u32))
    requires
        sel < n,
        n <= 4,
        hover matches Some(h) ==> h < n,
    ensures
        r.0 == cursor(sel as int, n as int, up, down, hover),
        r.0 < n,
        r.1 == (if up { 1u32 } else { 0u32 }) + (if down { 1u32 } else { 0u32 }) + (if hover_moves(sel as int, n as int, up, down, hover) {
            1u32
        } else {
            0u32
        }),
{
    let mut s = sel;
    let mut moves: u32 = 0;
    if up {
        s = (s + n - 1) % n;
        moves = moves + 1;
    }
    if down {
        s = (s + 1) % n;
        moves = moves + 1;
    }
    if let Some(h) = hover {
        if h != s {
            s = h;
            moves = moves + 1;
        }
    }
    (s, moves)
}

impl Session {
    /// One frame on the pause menu.
    pub fn pause_step(&mut self, input: &NavInput) -> (out: NavOutcome)
        requires
            old(self).wf(),
            old(self).state == State::Paused,
            input_fits(*input, PAUSE_ITEMS as int),
        ensures
            (*final(self), out) == pause_step_spec(*old(self), *input),
            final(self).wf(),
            final(self).hi_score >= old(self).hi_score,
    {
        if input.mute {
            self.toggle_mute();
            return NavOutcome {
                moves: 0,
                select: false,
                mute_toggled: true,
                volume_changed: false,
                hi_changed: false,
                action: NavAction::Stay,
            };
        }
        if input.pause || input.back {
            self.state = State::Playing;
            return NavOutcome {
                moves: 0,
                select: false,
                mute_toggled: false,
                volume_changed: false,
                hi_changed: false,
                action: NavAction::Resume,
            };
        }
        if input.quit {
            let changed = self.to_menu();
            return NavOutcome {
                moves: 0,
                select: false,
                mute_toggled: false,
                volume_changed: false,
                hi_changed: changed,
                action: NavAction::ToMenu,
            };
        }
        let (sel, moves) = list_cursor(self.pause_sel, PAUSE_ITEMS, input.up, input.down, input.hover);
        self.pause_sel = sel;
        let mut activate = input.activate;
        if let Some(c) = input.clicked {
            self.pause_sel = c;
            activate = true;
        }
        let mut out = NavOutcome {
            moves,
            select: false,
            mute_toggled: false,
            volume_changed: false,
            hi_changed: false,
            action: NavAction::Stay,
        };
        if !activate {
            return out;
        }
        out.select = true;
        if self.pause_sel == 0 {
            self.state = State::Playing;
            out.action = NavAction::Resume;
        } else if self.pause_sel == 1 {
            out.hi_changed = self.reset();
            out.action = NavAction::Restart;
        } else {
            out.hi_changed = self.to_menu();
            out.action = NavAction::ToMenu;
        }
        out
    }

    /// One frame on the game-over menu.
    pub fn gameover_step(&mut self, input: &NavInput) -> (out: NavOutcome)
        requires
            old(self).wf(),
            old(self).state == State::GameOver,
            input_fits(*input, OVER_ITEMS as int),
        ensures
            (*final(self), out) == gameover_step_spec(*old(self), *input),
            final(self).wf(),
            final(self).hi_score >= old(self).hi_score,
    {
        if input.mute {
            self.toggle_mute();
            return NavOutcome {
                moves: 0,
                select: false,
                mute_toggled: true,
                volume_changed: false,
                hi_changed: false,
                action: NavAction::Stay,
            };
        }
        if input.back {
            let changed = self.to_menu();
            return NavOutcome {
                moves: 0,
                select: false,
                mute_toggled: false,
                volume_changed: false,
                hi_changed: changed,
                action: NavAction::ToMenu,
            };
        }
        let step = input.up || input.down;
        let (sel, moves) = list_cursor(self.over_sel, OVER_ITEMS, false, step, input.hover);
        self.over_sel = sel;
        let mut activate = input.activate;
        if let Some(c) = input.clicked {
            self.over_sel = c;
            activate = true;
        }
        let mut out = NavOutcome {
            moves,
            select: false,
            mute_toggled: false,
            volume_changed: false,
            hi_changed: false,
            action: NavAction::Stay,
        };
        if !activate {
            return out;
        }
        if self.over_sel == 0 {
            out.hi_changed = self.reset();
            out.action = NavAction::StartRun;
        } else {
            out.hi_changed = self.to_menu();
            out.action = NavAction::ToMenu;
        }
        out
    }
}


/// Spawn rolls `0..10`: five give divers (0 to 4), three give weavers
/// (5 to 7) and two give tanks (8 and 9).
pub proof fn lemma_spawn_table(r: u32)
    requires
        r < 10,
    ensures
        (kind_for_roll_spec(r) == EnemyKind::Diver) <==> r <= 4,
        (kind_for_roll_spec(r) == EnemyKind::Weaver) <==> (5 <= r && r <= 7),
        (kind_for_roll_spec(r) == EnemyKind::Tank) <==> (8 <= r && r <= 9),
{
}

/// The item a menu activation picks: the clicked one, else the one the
/// cursor lands on.
pub open spec fn chosen_item(sel: usize, n: int, i: NavInput) -> int {
    match i.clicked {
        Some(c) => c as int,
        None => cursor(sel as int, n, i.up, i.down, i.hover),
    }
}

/// Activating an item of the pause menu (RESUME, RESTART, QUIT TO MENU):
/// RESUME goes back to the run as it was; RESTART starts a fresh run (no
/// score, three lives, wave 1, no effects, the best score kept) and asks
/// for its first wave; QUIT TO MENU goes to the main menu with the run's
/// score kept as the best if it beats it.
pub proof fn lemma_pause_items(s: Session, i: NavInput)
    requires
        s.wf(),
        input_fits(i, PAUSE_ITEMS as int),
        !i.mute,
        !i.pause,
        !i.back,
        !i.quit,
        i.activate || i.clicked is Some,
    ensures
        ({
            let (t, out) = pause_step_spec(s, i);
            let k = chosen_item(s.pause_sel, 3, i);
            &&& 0 <= k < 3
            &&& k == 0 ==> t.state == State::Playing && out.action == NavAction::Resume
                && t.score == s.score && t.lives == s.lives && t.wave == s.wave && t.fx == s.fx
                && t.hi_score == s.hi_score
            &&& k == 1 ==> t.state == State::Playing && out.action == NavAction::Restart
                && t.score == 0 && t.lives == 3 && t.wave == 1 && t.fx == no_effects()
                && t.hi_score == (if s.score > s.hi_score { s.score } else { s.hi_score })
                && out.hi_changed == (s.score > s.hi_score)
            &&& k == 2 ==> t.state == State::Menu && out.action == NavAction::ToMenu
                && t.menu.screen == MenuScreen::Main && t.menu.selected == 0
                && t.score == s.score && t.lives == s.lives && t.wave == s.wave
                && t.hi_score == (if s.score > s.hi_score { s.score } else { s.hi_score })
                && out.hi_changed == (s.score > s.hi_score)
        }),
{
}

/// Activating an item of the game-over menu (RETRY, MENU): RETRY starts a
/// fresh run (no score, three lives, wave 1, no effects, the best score
/// kept); MENU goes to the main menu.
pub proof fn lemma_gameover_items(s: Session, i: NavInput)
    requires
        s.wf(),
        input_fits(i, OVER_ITEMS as int),
        !i.mute,
        !i.back,
        i.activate || i.clicked is Some,
    ensures
        ({
            let (t, out) = gameover_step_spec(s, i);
            let k = match i.clicked {
                Some(c) => c as int,
                None => cursor(s.over_sel as int, 2, false, i.up || i.down, i.hover),
            };
            &&& 0 <= k < 2
            &&& k == 0 ==> t.state == State::Playing && out.action == NavAction::StartRun
                && t.score == 0 && t.lives == 3 && t.wave == 1 && t.fx == no_effects()
                && t.hi_score == (if s.score > s.hi_score { s.score } else { s.hi_score })
            &&& k == 1 ==> t.state == State::Menu && out.action == NavAction::ToMenu
                && t.menu.screen == MenuScreen::Main && t.menu.selected == 0
                && t.score == s.score
                && t.hi_score == (if s.score > s.hi_score { s.score } else { s.hi_score })
        }),
{
}

/// The enemy table: a diver is worth 50 points, a weaver 100 and a tank
/// 250; tanks take three hits, the others one; a killed tank drops a
/// pickup on 18 draws in 100, any other enemy on 10.
pub proof fn lemma_enemy_table(kind: EnemyKind, r: u32)
    ensures
        points_spec(kind) == (match kind {
            EnemyKind::Diver => 50u32,
            EnemyKind::Weaver => 100u32,
            EnemyKind::Tank => 250u32,
        }),
        drops_on(kind, r) == (if kind == EnemyKind::Tank { r < 18 } else { r < 10 }),
{
}

/// Wave `w` brings `4 + 2 w` enemies, never more than 28.
pub proof fn lemma_wave_sizes(w: u32)
    ensures
        wave_size_spec(w) == (if 4 + 2 * w <= 28 { 4 + 2 * w } else { 28 }),
{
}

/// Activating an item of the main menu (START, HOW TO PLAY, SETTINGS,
/// QUIT), the help screen (BACK) or the settings screen (MUTE, VOLUME,
/// BACK): START begins a fresh run (no score, three lives, wave 1) and
/// asks for its first wave; HOW TO PLAY and SETTINGS open their screens;
/// QUIT leaves, keeping the best score; BACK returns to the main menu;
/// MUTE flips the sound; VOLUME raises it ten points, up to 100.
pub proof fn lemma_menu_items(s: Session, i: NavInput)
    requires
        s.wf(),
        s.state == State::Menu,
        input_fits(i, item_count(s.menu.screen) as int),
        !i.mute,
        !i.back,
        !i.left,
        !i.right,
        i.activate || i.clicked is Some,
    ensures
        ({
            let (t, out) = menu_step_spec(s, i);
            let k = chosen_item(s.menu.selected, item_count(s.menu.screen) as int, i);
            let best = if s.score > s.hi_score { s.score } else { s.hi_score };
            &&& s.menu.screen == MenuScreen::Main && k == 0 ==> t.state == State::Playing
                && out.action == NavAction::StartRun && t.score == 0 && t.lives == 3 && t.wave == 1
                && t.hi_score == best
            &&& s.menu.screen == MenuScreen::Main && k == 1 ==> t.state == State::Menu
                && t.menu.screen == MenuScreen::Help && out.action == NavAction::Stay
            &&& s.menu.screen == MenuScreen::Main && k == 2 ==> t.state == State::Menu
                && t.menu.screen == MenuScreen::Settings && out.action == NavAction::Stay
            &&& s.menu.screen == MenuScreen::Main && k == 3 ==> t.quit && out.action == NavAction::Quit
                && t.hi_score == best
            &&& s.menu.screen == MenuScreen::Help ==> t.menu.screen == MenuScreen::Main
                && t.state == State::Menu && out.action == NavAction::Stay
            &&& s.menu.screen == MenuScreen::Settings && k == 0 ==> t.muted == !s.muted
                && out.mute_toggled && t.volume == s.volume && t.menu.screen == MenuScreen::Settings
            &&& s.menu.screen == MenuScreen::Settings && k == 1 ==> t.muted == s.muted
                && t.volume == (if s.volume + 10 > 100 { 100 } else { s.volume + 10 })
                && out.volume_changed && t.menu.screen == MenuScreen::Settings
            &&& s.menu.screen == MenuScreen::Settings && k == 2 ==> t.menu.screen == MenuScreen::Main
                && t.muted == s.muted && t.volume == s.volume && out.action == NavAction::Stay
        }),
{
}

/// On the settings screen, left lowers the volume ten points (not below
/// 0) and right raises it ten points (not above 100).
pub proof fn lemma_settings_arrows(s: Session, i: NavInput)
    requires
        s.menu.screen == MenuScreen::Settings,
        s.volume <= 100,
    ensures
        i.left && !i.right ==> settings_volume(s, i) == (if s.volume < 10 { 0 } else { s.volume - 10 }),
        i.right && !i.left ==> settings_volume(s, i) == (if s.volume + 10 > 100 { 100 } else { s.volume + 10 }),
        !i.left && !i.right ==> settings_volume(s, i) == s.volume,
{
}

/// The game's numbers: runs start with 3 lives and hold at most 5; spread
/// shot lasts 12 s, rapid fire 10 s, magnet 12 s, freeze 8 s, piercing
/// 12 s and double score 15 s; a life picked up at full lives is worth
/// 500 points; the gun waits 160 ms between shots (80 ms with rapid fire);
/// a cleared field brings the next wave after 1.2 s; the player is spared
/// for 1 s at the start of a run, 1.5 s after the shield breaks and 2 s
/// after losing a life.
pub proof fn lemma_rule_numbers()
    ensures
        START_LIVES == 3,
        MAX_LIVES == 5,
        SPREAD_MS == 12000,
        RAPID_MS == 10000,
        MAGNET_MS == 12000,
        FREEZE_MS == 8000,
        PIERCE_MS == 12000,
        DOUBLE_MS == 15000,
        LIFE_BONUS == 500,
        FIRE_COOLDOWN_MS == 160,
        RAPID_COOLDOWN_MS == 80,
        WAVE_DELAY_MS == 1200,
        SPAWN_GRACE_MS == 1000,
        SHIELD_GRACE_MS == 1500,
        HIT_GRACE_MS == 2000,
{
}
} // verus!
