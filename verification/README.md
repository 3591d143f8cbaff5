# Crab Invaders

A 2D arcade space shooter. The rules of the game, its save file, its menus,
its power-ups and its synthesized sound live in a library whose behaviour is
stated in `requires` / `ensures` contracts and proved by Verus; a thin
macroquad program draws the world, moves it in floating point, reads the keys,
plays the sounds and writes the save file.

## Layout

```
src/lib.rs        the library root
src/game.rs       session state: lives, score, waves, gun cooldown, pickups,
                  hits, and the menu / pause / game-over decisions
src/powerups.rs   power-up kinds, weighted drops, effect timers, HUD bars
src/menu.rs       menu screens, labels and cursor movement
src/save.rs       the save file: parse and render, with a round-trip law
src/sfx.rs        fixed-point synthesis of every sound effect and the music loop
src/wav.rs        16-bit mono PCM WAV framing
src/tables.rs     sine, decay and semitone tables for the synthesizer
tests/            tests of the library
app/              the game program (window, input, drawing, audio, disk)
```

Time is counted in milliseconds, volume in whole percent, frequencies in
whole hertz or microhertz, and samples as 16-bit integers, so that every
rule can be stated and proved over integers.
