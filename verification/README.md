# roguelike

A small top-down shooter that runs in the browser as WebAssembly.

- `src/` is the game's logic as a library verified with Verus: map generation
  (border walls, exit door, random straight wall segments that never leave a
  corridor of width one), breadth-first path finding (the path it returns is a
  shortest one), the RGBA canvas with sprites, tilesets, bit images and image
  filters, the input state and its event handlers, the head-up display rows, the pseudo random number
  generator, weapons, power-ups, teams, enemy decisions and level population.
- `app/` is the WebAssembly front: the entry points the host calls, the global
  state, the host's math and sound functions, and the parts of the game that
  work in floating point (movement, collisions, the player, enemies,
  projectiles, particles, music).
- `tests/` runs the library on concrete values.
