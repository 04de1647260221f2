# saberbb

A baseball season simulator whose game rules are written in Verus and proved
against their contracts.

## Layout

- `src/` — the verified library.
  - `running.rs`: where runners go on each kind of play, with the law that every
    runner is accounted for (scored, out, or on a base).
  - `game_state.rs`: the state of a game being played — counts, outs, innings,
    runs — and the step function of the game loop.
  - `team.rs`: rosters, drawing a lineup, and the batting order.
  - `schedule.rs`: the round-robin season schedule of a league.
  - `cursor.rs`: stepping through a stored game count by count, the scoreboard and
    the box score at any count.
  - `throw_target_rules.rs`: where fielders throw and who covers second.
  - `player.rs`, `player_factory.rs`, `game.rs`, `game_stats.rs`, `stats.rs`,
    `i18n.rs` and the smaller modules: the data model and its rules.
- `tests/` — tests of the library on concrete games, leagues and rosters.
- `app/` — the command-line program: it stores leagues, seasons and schedules as
  JSON files and has the library schedule each season (`--schedule N`).

The floating-point ball physics (pitch, swing, batted-ball flight, fielding times)
is not part of the verified library.
