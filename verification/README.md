# gbfr_logs

The verified core of the relink-logs tools for Granblue Fantasy: Relink.

- `src/synthesis.rs`: the sigil synthesis predictor (xorshift32 RNG, warm-up,
  weighted level roll, candidate sort and shuffle), proved equal to its
  specification, with laws on symmetry, weights and the outcome's traits.
- `src/portable.rs`, `src/layout_path.rs`: the portable file layout, the
  environment plan that redirects AppData lookups, and the forward-slashed
  form of exported paths.
- `src/hook_paths.rs`: where the injected hook finds its config and log.
- `src/identity.rs`, `src/hooks.rs`: the hook's player-identity cache and
  the decisions its detours take.
- `src/window_state.rs`: which window geometry is saved, written and restored.
- `src/backfill.rs`: the skill-name key derivation for damage events.

`app/` holds the edges: environment, file system, Windows module lookups,
Tauri windows and the serde forms of the library's values.

The hook's detour installation and the handlers that read the game's player
structures are not part of this tree: they rest on the hook's process,
FFI-layout and event modules, which it does not contain. `app/identity.rs`
composes the damage path's actor lookup from the library's steps, and
`app/hooks.rs` the identity-refresh handler after its reads; it also says
which handlers are left out and why.
