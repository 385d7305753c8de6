# yaobow_shared

The game-logic core of the yaobow engine's PAL4, PAL5 and SWD5 layers,
written in Verus: each public function states what it returns in its
`requires` / `ensures`, and Verus proves the code against it.

## Layout

- `src/` – the verified library.
  - `persistent_state`, `session` – the PAL4 save state (party, inventory,
    money, quest progress) and the session that saves and restores it.
  - `transition`, `modes`, `director_logic`, `app_state`, `scene_logic`,
    `actor` – the PAL4 directors' decisions: scene transitions, the mode
    graph, agent requests, prompts, sound ids, scene loading stages and
    object plans, actor animation state.
  - `agent_routing` – which layer serves an agent command, what is refused
    where, mode-change plans and the bridge's time controls.
  - `pal5_script`, `pal5_ground`, `asset_paths` – PAL5 script index,
    terrain and grass rules, asset paths of all three games.
  - `swd5`, `texture_table`, `imageset`, `uv_anim`, `script_rules` – data
    formats and the SWD5 agent surface.
  - `text`, `assoc` – string building and sorted association lists with
    their lemmas.
- `tests/` – tests of the library, run against the real outside crates.
- `app/` – the engine-facing side: save files on disk, file reads, and
  the float geometry (camera runs, turns, terrain heights, grass meshes);
  it calls the library for every decision.

Laws that span several functions (save-then-load, add-then-remove,
transition phases and others) are public proof functions next to the
functions they speak of.
