# voidseek

The logic of a small raycasting maze game, verified with Verus.

- `src/` is the library. `game::map` holds the tile grid (walls, floor,
  ceiling), reads a text layout into it and places vents; `game::animation`
  steps animations frame by frame; `game::systems` holds the grid tests for
  collisions and interaction rays; `game::input` tracks the keys;
  `game::state` the vent animation frames; `engine` the renderer's enums,
  the atlas pixel store and the compute dispatch size.
- `app/` is the program: the window (winit), the GPU renderer (wgpu), the
  entity world (hecs) with the float positions, angles and timers, and image
  loading. It calls the library for every decision on the grid and on
  animation frames.
- `tests/` runs the library on concrete maps and animations.
