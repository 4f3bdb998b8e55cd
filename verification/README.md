# platformer

The game logic of a small tile-based platformer, verified with Verus.

- `src/` is the library: the components (`Damageable`, `Movable`, `Player`,
  `Team`), the prefab value types, the reading of a Tiled map (which sprite a
  tile shows, which region is drawn, which tiles become physics bodies and
  of which shapes), the player's input rules and the asset paths of the
  loading state. Each function states its result in its contract; the proof
  functions state the laws that hold across calls.
- `tests/` runs the library on concrete values.
- `app/` is the game around it: the engine's states and systems, the physics
  world and the floating-point geometry of bodies and shapes, the loading of
  the map file.
