//! Menu stack: Main / Help / Settings. Pause and game-over selections live
//! in the session (they need game context).
use vstd::prelude::*;
use crate::save::{digits_of, push_decimal};
use vstd::arithmetic::div_mod::{lemma_small_mod, lemma_mod_self_0, lemma_mod_add_multiples_vanish};

verus! {

/// The screens of the menu.
#[derive(PartialEq, Eq, Clone, Copy, Debug, Structural)]
pub enum MenuScreen {
    Main,
    Help,
    Settings,
}

/// The menu's current screen and highlighted item.
pub struct MenuState {
    pub screen: MenuScreen,
    pub selected: usize,
}

/// Number of items on a screen.
pub open spec fn item_count(screen: MenuScreen) -> nat {
    match screen {
        MenuScreen::Main => 4,
        MenuScreen::Help => 1,
        MenuScreen::Settings => 3,
    }
}

/// `MUTE: ON` or `MUTE: OFF`.
pub open spec fn mute_label(muted: bool) -> Seq<char> {
    "MUTE: "@ + if muted {
        "ON"@
    } else {
        "OFF"@
    }
}

/// `VOLUME: <percent>%`.
pub open spec fn volume_label(volume: u32) -> Seq<char> {
    "VOLUME: "@ + digits_of(volume as nat) + "%"@
}

/// The labels of a screen's items, given the sound settings.
pub open spec fn items_spec(screen: MenuScreen, muted: bool, volume: u32) -> Seq<Seq<char>> {
    match screen {
        MenuScreen::Main => seq!["START"@, "HOW TO PLAY"@, "SETTINGS"@, "QUIT"@],
        MenuScreen::Help => seq!["BACK"@],
        MenuScreen::Settings => seq![mute_label(muted), volume_label(volume), "BACK"@],
    }
}

/// The item above `selected`, wrapping from the top to the bottom.
pub open spec fn wrap_up(selected: int, n: int) -> int {
    (selected + n - 1) % n
}

/// The item below `selected`, wrapping from the bottom to the top.
pub open spec fn wrap_down(selected: int, n: int) -> int {
    (selected + 1) % n
}

fn label(s: &str) -> (r: String)
    ensures
        r@ == s@,
{
    s.to_owned()
}

impl MenuState {
    /// The main screen with its first item highlighted.
    pub fn new() -> (m: Self)
        ensures
            m.screen == MenuScreen::Main,
            m.selected == 0,
    {
        MenuState { screen: MenuScreen::Main, selected: 0 }
    }

    /// Number of items on the current screen.
    pub fn item_count(&self) -> (n: usize)
        ensures
            n == item_count(self.screen),
    {
        match self.screen {
            MenuScreen::Main => 4,
            MenuScreen::Help => 1,
            MenuScreen::Settings => 3,
        }
    }

    /// The labels of the current screen's items; `volume` is a percentage.
    pub fn items(&self, muted: bool, volume: u32) -> (v: Vec<String>)
        ensures
            v@.map_values(|s: String| s@) == items_spec(self.screen, muted, volume),
            v@.len() == item_count(self.screen),
    {
        let mut v: Vec<String> = Vec::new();
        match self.screen {
            MenuScreen::Main => {
                v.push(label("START"));
                v.push(label("HOW TO PLAY"));
                v.push(label("SETTINGS"));
                v.push(label("QUIT"));
            },
            MenuScreen::Help => {
                v.push(label("BACK"));
            },
            MenuScreen::Settings => {
                let mut m = label("MUTE: ");
                if muted {
                    m.append("ON");
                } else {
                    m.append("OFF");
                }
                v.push(m);
                let mut l = label("VOLUME: ");
                push_decimal(&mut l, volume);
                l.append("%");
                v.push(l);
                v.push(label("BACK"));
            },
        }
        assert(v@.map_values(|s: String| s@) =~= items_spec(self.screen, muted, volume));
        v
    }

    /// Highlight the item above, wrapping around.
    pub fn up(&mut self, muted: bool, volume: u32)
        requires
            old(self).selected + item_count(old(self).screen) <= usize::MAX,
        ensures
            final(self).screen == old(self).screen,
            final(self).selected == wrap_up(old(self).selected as int, item_count(old(self).screen) as int),
            final(self).selected < item_count(final(self).screen),
    {
        let n = self.item_count();
        self.selected = (self.selected + n - 1) % n;
    }

    /// Highlight the item below, wrapping around.
    pub fn down(&mut self, muted: bool, volume: u32)
        requires
            old(self).selected < usize::MAX,
        ensures
            final(self).screen == old(self).screen,
            final(self).selected == wrap_down(old(self).selected as int, item_count(old(self).screen) as int),
            final(self).selected < item_count(final(self).screen),
    {
        let n = self.item_count();
        self.selected = (self.selected + 1) % n;
    }

    /// Show `screen` with its first item highlighted.
    pub fn goto(&mut self, screen: MenuScreen)
        ensures
            final(self).screen == screen,
            final(self).selected == 0,
    {
        self.screen = screen;
        self.selected = 0;
    }
}

/// Moving down then up, or up then down, returns to the same item.
pub proof fn lemma_nav_inverse(selected: int, n: int)
    requires
        0 <= selected < n,
    ensures
        wrap_up(wrap_down(selected, n), n) == selected,
        wrap_down(wrap_up(selected, n), n) == selected,
{
    lemma_mod_self_0(n);
    lemma_small_mod((n - 1) as nat, n as nat);
    if selected + 1 < n {
        lemma_small_mod((selected + 1) as nat, n as nat);
        lemma_mod_add_multiples_vanish(selected, n);
        lemma_small_mod(selected as nat, n as nat);
    } else {
        lemma_small_mod(0, n as nat);
    }
    if selected > 0 {
        lemma_mod_add_multiples_vanish(selected - 1, n);
        lemma_small_mod((selected - 1) as nat, n as nat);
        lemma_small_mod(selected as nat, n as nat);
    } else {
        lemma_small_mod(0, n as nat);
    }
}

/// Every screen lists as many labels as it has items.
pub proof fn lemma_items_count(screen: MenuScreen, muted: bool, volume: u32)
    ensures
        items_spec(screen, muted, volume).len() == item_count(screen),
{
}

} // verus!
