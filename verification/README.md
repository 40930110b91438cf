# Dragon's Den

An idle hoard-building game: click for gold, hire minions for passive income,
send expeditions for rarity-weighted treasure, and prestige for permanent Hoard
Points.

- `src/` is the verified library (Verus): catalog vocabulary and labels, `#RRGGBB`
  swatch parsing, the treasure pool and rarity-weighted roll with its laws, the
  capped recent-events log, menu state, the save-version policy, and the integer
  text the screens show.
- `app/` is the game around it (macroquad): data loading, the floating-point
  economy, offline progress and prestige math, the live run state, saving, and
  every screen.
- `tests/` exercises the library on concrete values.
