# libmtg_doomsday

Verified pieces of a Doomsday goldfish simulator for Magic: The Gathering.

- `src/mull.rs` — the opening-hand mulligan modes: the hand signals (land and colour
  counts, looks, supporters, named air), mana-cost castability, and the Realistic,
  Aggressive and Keep7 rules with the 4-card floor.
- `src/learned.rs` — the integer side of the learned mulligan policies: the card tag
  table and tag counts, resource counts, subsets of the drawn hand, bottoms, the forced
  keep and the verdict record.
- `src/goldfish.rs` — the sample decklists, dealing opening hands and send-report hands,
  the run objective, the per-game run tally and sample-game record, the send report,
  card counts, the fixed-hand trace selection and histogram bars.
- `src/dataset.rs` — the keep-all-7 dataset header: the deck's distinct card names in
  order, quoted.
- `src/stats.rs` — the pilot's `STATS` summary line.
- `src/random.rs` — the random generator, sampling and shuffling from `rand`.
- `app/` — a command-line hand explorer, and the floating-point parts: the boosted-tree
  models, scores and keep-bars, run statistics and their rendering.

The game engine that plays the goldfish games (and its card catalog and Doomsday
solver) is not part of this crate: the facts it supplies about each card, and the
solver's verdicts on a hand, enter the library as plain values.
