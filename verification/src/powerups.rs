//! Power-ups: the drop table, timed effects and the HUD list.
//! Nine kinds: Spread, Rapid, Shield, Bomb, Life, Magnet, Freeze, Pierce, Double.
//! Durations are in milliseconds; drop weights in tenths.
use vstd::prelude::*;

verus! {

/// Most lives a player can hold.
pub const MAX_LIVES: i32 = 5;

pub const SPREAD_MS: u32 = 12000;
pub const RAPID_MS: u32 = 10000;
pub const MAGNET_MS: u32 = 12000;
pub const FREEZE_MS: u32 = 8000;
pub const PIERCE_MS: u32 = 12000;
pub const DOUBLE_MS: u32 = 15000;

/// Chance in percent that a killed enemy drops a pickup.
pub const DROP_CHANCE_PCT: u32 = 10;

/// Chance in percent that a killed tank drops a pickup.
pub const TANK_DROP_CHANCE_PCT: u32 = 18;

/// `quad_rand::gen_range(0, n)` (macroquad's `rand::gen_range`): a
/// pseudo-random integer in `0..n`. The source scales a 32-bit draw by
/// `n / 2^32` in `f64` and truncates, which stays below `n` for the small
/// `n` admitted here; which value comes out is not stated.
#[verifier::external_body]
pub(crate) fn gen_below(n: u32) -> (r: u32)
    requires
        0 < n <= 1048576,
    ensures
        r < n,
{
    quad_rand::gen_range(0u32, n)
}

/// The kinds of power-up.
#[derive(Clone, Copy, PartialEq, Eq, Debug, Structural)]
pub enum PowerKind {
    Spread,  // triple/quad shot
    Rapid,  // faster fire
    Shield,  // absorbs one hit
    Bomb,  // destroys everything on screen
    Life,  // +1 life (rare)
    Magnet,  // pulls pickups, zaps nearby enemy bullets
    Freeze,  // slows + disarms enemies
    Pierce,  // bullets pass through enemies
    Double,  // 2x score
}

/// Kind `j` in drop-table order.
pub open spec fn kind_at(j: int) -> PowerKind {
    if j == 0 {
        PowerKind::Spread
    } else if j == 1 {
        PowerKind::Rapid
    } else if j == 2 {
        PowerKind::Shield
    } else if j == 3 {
        PowerKind::Bomb
    } else if j == 4 {
        PowerKind::Life
    } else if j == 5 {
        PowerKind::Magnet
    } else if j == 6 {
        PowerKind::Freeze
    } else if j == 7 {
        PowerKind::Pierce
    } else {
        PowerKind::Double
    }
}

/// Position of a kind in drop-table order.
pub open spec fn kind_index(k: PowerKind) -> int {
    match k {
        PowerKind::Spread => 0,
        PowerKind::Rapid => 1,
        PowerKind::Shield => 2,
        PowerKind::Bomb => 3,
        PowerKind::Life => 4,
        PowerKind::Magnet => 5,
        PowerKind::Freeze => 6,
        PowerKind::Pierce => 7,
        PowerKind::Double => 8,
    }
}

/// The HUD letter of a kind.
pub open spec fn letter_spec(k: PowerKind) -> char {
    match k {
        PowerKind::Spread => 'S',
        PowerKind::Rapid => 'R',
        PowerKind::Shield => 'H',
        PowerKind::Bomb => 'B',
        PowerKind::Life => '+',
        PowerKind::Magnet => 'M',
        PowerKind::Freeze => 'F',
        PowerKind::Pierce => 'P',
        PowerKind::Double => '2',
    }
}

/// The display name of a kind.
pub open spec fn name_spec(k: PowerKind) -> Seq<char> {
    match k {
        PowerKind::Spread => "SPREAD SHOT"@,
        PowerKind::Rapid => "RAPID FIRE"@,
        PowerKind::Shield => "SHIELD"@,
        PowerKind::Bomb => "BOMB"@,
        PowerKind::Life => "+1 LIFE"@,
        PowerKind::Magnet => "MAGNET"@,
        PowerKind::Freeze => "FREEZE"@,
        PowerKind::Pierce => "PIERCING"@,
        PowerKind::Double => "DOUBLE SCORE"@,
    }
}

/// Relative drop weight in tenths. Life only drops when it can help.
pub open spec fn weight_spec(k: PowerKind, lives: i32) -> int {
    match k {
        PowerKind::Spread => 30,
        PowerKind::Rapid => 30,
        PowerKind::Double => 30,
        PowerKind::Pierce => 30,
        PowerKind::Shield => 20,
        PowerKind::Magnet => 20,
        PowerKind::Freeze => 20,
        PowerKind::Bomb => 12,
        PowerKind::Life => if lives < MAX_LIVES {
            8
        } else {
            0
        },
    }
}

/// Sum of the weights of the first `j` kinds in drop-table order.
pub open spec fn cumulative(j: int, lives: i32) -> int
    decreases j,
{
    if j <= 0 {
        0
    } else {
        cumulative(j - 1, lives) + weight_spec(kind_at(j - 1), lives)
    }
}

/// Total drop weight.
pub open spec fn total_spec(lives: i32) -> int {
    cumulative(9, lives)
}

/// The kind that a draw `r` picks, scanning from kind `j` on: the first
/// whose cumulative weight exceeds `r`, or Spread if none does.
pub open spec fn pick_from(r: int, lives: i32, j: int) -> PowerKind
    decreases 9 - j,
{
    if j >= 9 {
        PowerKind::Spread
    } else if r < cumulative(j + 1, lives) {
        kind_at(j)
    } else {
        pick_from(r, lives, j + 1)
    }
}

/// The kind that a draw `r` in `0..total` picks.
pub open spec fn pick_spec(r: int, lives: i32) -> PowerKind {
    pick_from(r, lives, 0)
}

impl PowerKind {
    /// All kinds in drop-table order.
    pub const ALL: [PowerKind; 9] = [
        PowerKind::Spread,
        PowerKind::Rapid,
        PowerKind::Shield,
        PowerKind::Bomb,
        PowerKind::Life,
        PowerKind::Magnet,
        PowerKind::Freeze,
        PowerKind::Pierce,
        PowerKind::Double,
    ];

    /// The letter shown on the pickup and in the HUD.
    pub fn letter(self) -> (c: char)
        ensures
            c == letter_spec(self),
    {
        match self {
            PowerKind::Spread => 'S',
            PowerKind::Rapid => 'R',
            PowerKind::Shield => 'H',
            PowerKind::Bomb => 'B',
            PowerKind::Life => '+',
            PowerKind::Magnet => 'M',
            PowerKind::Freeze => 'F',
            PowerKind::Pierce => 'P',
            PowerKind::Double => '2',
        }
    }

    /// The name shown in the help screen.
    pub fn name(self) -> (s: &'static str)
        ensures
            s@ == name_spec(self),
    {
        match self {
            PowerKind::Spread => "SPREAD SHOT",
            PowerKind::Rapid => "RAPID FIRE",
            PowerKind::Shield => "SHIELD",
            PowerKind::Bomb => "BOMB",
            PowerKind::Life => "+1 LIFE",
            PowerKind::Magnet => "MAGNET",
            PowerKind::Freeze => "FREEZE",
            PowerKind::Pierce => "PIERCING",
            PowerKind::Double => "DOUBLE SCORE",
        }
    }

    /// Relative drop weight in tenths. Life only drops when it can help.
    fn weight(self, lives: i32) -> (w: u32)
        ensures
            w == weight_spec(self, lives),
    {
        match self {
            PowerKind::Spread => 30,
            PowerKind::Rapid => 30,
            PowerKind::Double => 30,
            PowerKind::Pierce => 30,
            PowerKind::Shield => 20,
            PowerKind::Magnet => 20,
            PowerKind::Freeze => 20,
            PowerKind::Bomb => 12,
            PowerKind::Life => {
                if lives < MAX_LIVES {
                    8
                } else {
                    0
                }
            },
        }
    }

    /// Pure weighted pick on `r` in `0..total_weight(lives)`. Testable without RNG.
    pub fn pick_weighted(r: u32, lives: i32) -> (k: PowerKind)
        ensures
            k == pick_spec(r as int, lives),
    {
        let mut acc: u32 = 0;
        let mut j: usize = 0;
        while j < 9
            invariant
                j <= 9,
                acc == cumulative(j as int, lives),
                acc <= 30 * j,
                pick_spec(r as int, lives) == pick_from(r as int, lives, j as int),
            decreases 9 - j,
        {
            let k = Self::ALL[j];
            assert(k == kind_at(j as int));
            acc = acc + k.weight(lives);
            if r < acc {
                return k;
            }
            j += 1;
        }
        PowerKind::Spread
    }

    /// Sum of all drop weights, in tenths.
    pub fn total_weight(lives: i32) -> (t: u32)
        ensures
            t == total_spec(lives),
            t == (if lives < MAX_LIVES {
                200u32
            } else {
                192u32
            }),
    {
        let mut t: u32 = 0;
        let mut j: usize = 0;
        while j < 9
            invariant
                j <= 9,
                t == cumulative(j as int, lives),
                t <= 30 * j,
            decreases 9 - j,
        {
            let k = Self::ALL[j];
            assert(k == kind_at(j as int));
            t = t + k.weight(lives);
            j += 1;
        }
        assert(cumulative(9, lives) == (if lives < MAX_LIVES {
            200int
        } else {
            192int
        })) by {
            lemma_cumulative_values(lives);
        }
        t
    }

    /// Roll a drop for a killed enemy; the caller checks the drop chance
    /// first. The kind comes out with probability proportional to its weight.
    pub fn roll(lives: i32) -> (k: PowerKind)
        ensures
            exists|r: int| 0 <= r < total_spec(lives) && k == pick_spec(r, lives),
            weight_spec(k, lives) > 0,
    {
        let total = Self::total_weight(lives);
        let r = gen_below(total);
        let k = Self::pick_weighted(r, lives);
        proof {
            lemma_pick_has_weight(r as int, lives);
        }
        k
    }
}

/// The running sums of the drop weights.
pub proof fn lemma_cumulative_values(lives: i32)
    ensures
        cumulative(0, lives) == 0,
        cumulative(1, lives) == 30,
        cumulative(2, lives) == 60,
        cumulative(3, lives) == 80,
        cumulative(4, lives) == 92,
        cumulative(5, lives) == (if lives < MAX_LIVES { 100int } else { 92int }),
        cumulative(6, lives) == (if lives < MAX_LIVES { 120int } else { 112int }),
        cumulative(7, lives) == (if lives < MAX_LIVES { 140int } else { 132int }),
        cumulative(8, lives) == (if lives < MAX_LIVES { 170int } else { 162int }),
        cumulative(9, lives) == (if lives < MAX_LIVES { 200int } else { 192int }),
{
    assert(cumulative(0, lives) == 0);
    assert(cumulative(1, lives) == 30);
    assert(cumulative(2, lives) == 60);
    assert(cumulative(3, lives) == 80);
    assert(cumulative(4, lives) == 92);
    assert(cumulative(5, lives) == cumulative(4, lives) + weight_spec(PowerKind::Life, lives));
    assert(cumulative(6, lives) == cumulative(5, lives) + 20);
    assert(cumulative(7, lives) == cumulative(6, lives) + 20);
    assert(cumulative(8, lives) == cumulative(7, lives) + 30);
    assert(cumulative(9, lives) == cumulative(8, lives) + 30);
}

/// A draw below the total picks a kind that has weight.
pub proof fn lemma_pick_has_weight(r: int, lives: i32)
    requires
        0 <= r < total_spec(lives),
    ensures
        weight_spec(pick_spec(r, lives), lives) > 0,
{
    lemma_pick_from_has_weight(r, lives, 0);
}

proof fn lemma_pick_from_has_weight(r: int, lives: i32, j: int)
    requires
        0 <= j <= 9,
        cumulative(j, lives) <= r < total_spec(lives),
    ensures
        weight_spec(pick_from(r, lives, j), lives) > 0,
    decreases 9 - j,
{
    if j < 9 {
        if r >= cumulative(j + 1, lives) {
            lemma_pick_from_has_weight(r, lives, j + 1);
        }
    }
}

/// At full lives no draw ever picks an extra life.
pub proof fn lemma_no_life_at_max(r: int, lives: i32)
    requires
        lives >= MAX_LIVES,
        0 <= r,
    ensures
        pick_spec(r, lives) != PowerKind::Life,
{
    if r < total_spec(lives) {
        lemma_pick_has_weight(r, lives);
    } else {
        lemma_pick_beyond(r, lives, 0);
    }
}

proof fn lemma_pick_beyond(r: int, lives: i32, j: int)
    requires
        0 <= j <= 9,
        r >= total_spec(lives),
    ensures
        pick_from(r, lives, j) == PowerKind::Spread,
    decreases 9 - j,
{
    reveal_with_fuel(cumulative, 10);
    if j < 9 {
        lemma_pick_beyond(r, lives, j + 1);
    }
}

/// Every kind with weight is picked by some draw: the one at its running sum.
pub proof fn lemma_every_kind_reachable(k: PowerKind, lives: i32)
    requires
        weight_spec(k, lives) > 0,
    ensures
        0 <= cumulative(kind_index(k), lives) < total_spec(lives),
        pick_spec(cumulative(kind_index(k), lives), lives) == k,
{
    lemma_cumulative_values(lives);
    reveal_with_fuel(pick_from, 10);
    match k {
        PowerKind::Spread => {},
        PowerKind::Rapid => {},
        PowerKind::Shield => {},
        PowerKind::Bomb => {},
        PowerKind::Life => {},
        PowerKind::Magnet => {},
        PowerKind::Freeze => {},
        PowerKind::Pierce => {},
        PowerKind::Double => {},
    }
}

/// No two kinds share a letter.
pub proof fn lemma_letters_unique(a: PowerKind, b: PowerKind)
    ensures
        letter_spec(a) == letter_spec(b) ==> a == b,
{
}

/// Active timed effects on the player, in milliseconds left; the shield
/// lasts until it absorbs a hit.
#[derive(Clone, Copy, Debug, PartialEq, Eq, Structural)]
pub struct Effects {
    pub spread: u32,
    pub rapid: u32,
    pub shield: bool,
    pub magnet: u32,
    pub freeze: u32,
    pub pierce: u32,
    pub double: u32,
}

/// No effect active.
pub open spec fn no_effects() -> Effects {
    Effects { spread: 0, rapid: 0, shield: false, magnet: 0, freeze: 0, pierce: 0, double: 0 }
}

/// `t - dt`, but not below zero.
pub open spec fn count_down(t: u32, dt: u32) -> u32 {
    if t > dt {
        (t - dt) as u32
    } else {
        0
    }
}

/// The effects after `dt` milliseconds: every timer counts down, the shield stays.
pub open spec fn tick_spec(e: Effects, dt: u32) -> Effects {
    Effects {
        spread: count_down(e.spread, dt),
        rapid: count_down(e.rapid, dt),
        shield: e.shield,
        magnet: count_down(e.magnet, dt),
        freeze: count_down(e.freeze, dt),
        pierce: count_down(e.pierce, dt),
        double: count_down(e.double, dt),
    }
}

/// A HUD bar `(letter, remaining, total)` for a timer that is running.
pub open spec fn bar(c: char, t: u32, total: u32) -> Seq<(char, u32, u32)> {
    if t > 0 {
        seq![(c, t, total)]
    } else {
        seq![]
    }
}

/// HUD bars of the running effects in a fixed order, then the shield pip.
pub open spec fn active_spec(e: Effects) -> Seq<(char, u32, u32)> {
    bar('S', e.spread, SPREAD_MS) + bar('R', e.rapid, RAPID_MS) + bar('M', e.magnet, MAGNET_MS)
        + bar('F', e.freeze, FREEZE_MS) + bar('P', e.pierce, PIERCE_MS) + bar('2', e.double, DOUBLE_MS)
        + if e.shield {
        seq![('H', 1u32, 1u32)]
    } else {
        seq![]
    }
}

fn count_down_exec(t: u32, dt: u32) -> (r: u32)
    ensures
        r == count_down(t, dt),
{
    if t > dt {
        t - dt
    } else {
        0
    }
}

fn push_bar(v: &mut Vec<(char, u32, u32)>, c: char, t: u32, total: u32)
    ensures
        final(v)@ == old(v)@ + bar(c, t, total),
{
    if t > 0 {
        v.push((c, t, total));
    }
    assert(final(v)@ =~= old(v)@ + bar(c, t, total));
}

impl Effects {
    /// No effect active.
    pub fn new() -> (e: Self)
        ensures
            e == no_effects(),
    {
        Effects { spread: 0, rapid: 0, shield: false, magnet: 0, freeze: 0, pierce: 0, double: 0 }
    }

    /// End every effect.
    pub fn clear(&mut self)
        ensures
            *final(self) == no_effects(),
    {
        *self = Self::new();
    }

    /// Let `dt` milliseconds pass.
    pub fn tick(&mut self, dt: u32)
        ensures
            *final(self) == tick_spec(*old(self), dt),
    {
        self.spread = count_down_exec(self.spread, dt);
        self.rapid = count_down_exec(self.rapid, dt);
        self.magnet = count_down_exec(self.magnet, dt);
        self.freeze = count_down_exec(self.freeze, dt);
        self.pierce = count_down_exec(self.pierce, dt);
        self.double = count_down_exec(self.double, dt);
    }

    /// `(letter, remaining, total)` for HUD bars + shield pip.
    pub fn active(&self) -> (v: Vec<(char, u32, u32)>)
        ensures
            v@ == active_spec(*self),
    {
        let mut v: Vec<(char, u32, u32)> = Vec::new();
        push_bar(&mut v, 'S', self.spread, SPREAD_MS);
        push_bar(&mut v, 'R', self.rapid, RAPID_MS);
        push_bar(&mut v, 'M', self.magnet, MAGNET_MS);
        push_bar(&mut v, 'F', self.freeze, FREEZE_MS);
        push_bar(&mut v, 'P', self.pierce, PIERCE_MS);
        push_bar(&mut v, '2', self.double, DOUBLE_MS);
        if self.shield {
            v.push(('H', 1, 1));
        }
        assert(v@ =~= active_spec(*self));
        v
    }
}

/// Waiting `a` then `b` milliseconds is waiting `a + b`.
pub proof fn lemma_tick_adds(e: Effects, a: u32, b: u32)
    requires
        a + b <= u32::MAX,
    ensures
        tick_spec(tick_spec(e, a), b) == tick_spec(e, (a + b) as u32),
{
}

/// The HUD shows nothing exactly when no effect is running and no shield is up.
pub proof fn lemma_hud_empty(e: Effects)
    ensures
        (active_spec(e).len() == 0) == (e.spread == 0 && e.rapid == 0 && e.magnet == 0
            && e.freeze == 0 && e.pierce == 0 && e.double == 0 && !e.shield),
{
}


/// Every timed effect counts down by the time that passed and stops at
/// zero, while the shield waits for a hit: after `dt` milliseconds each
/// timer `t` holds `t - dt`, or 0 once `dt` reaches it. So an effect
/// started at its full duration has run out after exactly that long.
pub proof fn lemma_timers_run_out(e: Effects, dt: u32)
    ensures
        tick_spec(e, dt).spread == (if e.spread > dt { e.spread - dt } else { 0 }),
        tick_spec(e, dt).rapid == (if e.rapid > dt { e.rapid - dt } else { 0 }),
        tick_spec(e, dt).magnet == (if e.magnet > dt { e.magnet - dt } else { 0 }),
        tick_spec(e, dt).freeze == (if e.freeze > dt { e.freeze - dt } else { 0 }),
        tick_spec(e, dt).pierce == (if e.pierce > dt { e.pierce - dt } else { 0 }),
        tick_spec(e, dt).double == (if e.double > dt { e.double - dt } else { 0 }),
        tick_spec(e, dt).shield == e.shield,
        e.spread <= 12000 && dt >= 12000 ==> tick_spec(e, dt).spread == 0,
        e.rapid <= 10000 && dt >= 10000 ==> tick_spec(e, dt).rapid == 0,
        e.magnet <= 12000 && dt >= 12000 ==> tick_spec(e, dt).magnet == 0,
        e.freeze <= 8000 && dt >= 8000 ==> tick_spec(e, dt).freeze == 0,
        e.pierce <= 12000 && dt >= 12000 ==> tick_spec(e, dt).pierce == 0,
        e.double <= 15000 && dt >= 15000 ==> tick_spec(e, dt).double == 0,
{
}
} // verus!
