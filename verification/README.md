# erqol

ERQoL is a quality-of-life mod for Elden Ring, loaded into the game as a DLL.
This crate holds its logic as a library verified with Verus; the DLL shell
that talks to the game lives in `app/`.

## Layout

- `src/` — the verified library. Every function carries a `requires` /
  `ensures` contract that Verus proves.
  - Settings: `config` (the knob registry and configuration), `settings`
    (the `erqol_settings.toml` format, with a proved read-back law),
    `toml_text` (TOML basic strings), `text` (character helpers).
  - Talk menus: `esd` (the model of the game's talk-script state groups),
    `splice`, `menu`, `enter_state`, `messages`, and the features built on
    them: `anti_farm_shop`, `runes`, `flask_confirm`, `merchant`,
    `roundtable`, `settings_menu`, `level_up`, `mirror`.
  - Tweaks: `auto_pickup`, `dungeon_warp`, `heavy_door`, `hp_bar_posture`,
    `map_in_combat`, `map_icons`, `spirit_summon`, `silly`, `debug_points`.
  - Postures: `postures`, `speffects`, `hks`.
  - Code patching: `hooks`, `memory`, `bytes`, `scan` (signatures compiled
    with `pelite`), `crash` (what the crash handler logs).
  - Laws are public proof functions named `law_*`.
- `tests/` — tests of the library on concrete values.
- `app/` — the DLL: entry point, crash handler, hook installation, game
  memory access and file I/O. It hands plain values to the library and
  performs what the library decides.
