# GOODScanner

Scans the characters, weapons and artifacts of a Genshin Impact account from
images of the game window and exports them in the GOOD format.

The logic is a Verus library: every function in `src/` has a contract that says
what it returns or changes, and the properties that span several functions are
public proof functions beside them.

## Layout

- `src/` is the verified library.
  - `number.rs`, `text.rs`, `patterns.rs`, `name_map.rs`, `image.rs`: numbers,
    texts, regular expressions, name tables and images.
  - `scanner/common/`: what all scanners share: coordinates, colours, stats,
    fuzzy names, the grid walk, the roll solver and the results of workers.
  - `scanner/artifact/`, `scanner/character/`, `scanner/weapon/`: the scanners.
  - `good_common/`, `good_artifact_scanner/`, `good_character_scanner/`,
    `good_weapon_scanner/`: the plainer scanners, which read with one engine.
  - `server/`: the HTTP server's routes, jobs, origins and state.
  - `application/`: what a run scans and where it writes to.
  - `cancel.rs`, `lang.rs`, `updater.rs`: cancelling, languages and updates.
- `tests/` runs the library on concrete values.
- `app/` is the program around it: arguments, files, network, capturing the
  window and the commands that recognise texts and icons.

Stat values are whole numbers of millionths, and coordinates are whole numbers
at the base resolution of 1920 by 1080.

## Trusted code

The library calls `regex` (in `src/patterns.rs`), `uuid` (in
`src/server/state.rs`) and `image` (in `src/scanner/common/treatments.rs`), and
two functions of the standard library that have no specification of their own:
`String::push` (in `src/text.rs`) and `char::is_alphanumeric` (in
`src/scanner/common/equip_parser.rs`). Each of these is declared with the
contract that the proofs rest on.
