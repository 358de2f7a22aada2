# life_sim

Two small simulations whose logic is verified with Verus.

- `src/country.rs`: a country whose yearly cohorts of boys and girls marry at
  18, have one year of births under a family-planning rule, and die at 60.
- `src/family.rs`: families that have children until their first boy, and the
  totals over many of them.
- `src/life.rs`: Conway's game of life on a bounded board, its drawing, and
  its random seed.
- `src/control.rs`: the decisions of the game's main loop (keys, pause, end).
- `src/rng.rs`: the random numbers, drawn with the `rand` crate behind
  trusted contracts.

`app/` holds the two programs: the game in the terminal (`clap`, `crossterm`)
and, with the first argument `family-planning`, the family experiment.
