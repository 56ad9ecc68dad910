# Longinus

A top-down shooter in which weapons are assembled from modules on a 4×4
grid. The crate has two parts.

- `src/` is the `longinus` library, written in Verus: every function has a
  contract, and the verifier checks each one against the function's code.
  The exceptions are the few functions that call outside crates (chrono for
  the save names' timestamps, rpds for the weapons' slot sets): their
  contracts are trusted, and their doc comments say what they claim.
  - `ecs` — component sets with at most one component of each kind.
  - `combat` — the equip grid, the weapons it builds (modifiers attach to
    weapons directly or through other modifiers), and projectile slots.
  - `inventory`, `menu` — the in-game and main menus as state machines over
    cursor positions and button presses; editing the inventory never
    creates or loses a module.
  - `enemy` — the enemies' state machines, one step per physics frame.
  - `load_map` — the map's tile layers and the enemies a map places.
  - `sprite` — sprite-sheet cells, text layout and tiled boxes.
  - `menu_text` — the words each menu shows and which one is selected.
  - `physics` — what the player's contacts lead to, and the gates that
    triggers open and close.
  - `ability` — learning abilities and the chain ability's decisions.
  - `save`, `controls`, `arith` and a few plain configuration types.
- `app/` is the program around it: controls, physics (rapier), drawing
  (macroquad), and reading and writing maps, balancing data and saves.

`tests/` runs the library on concrete values.
