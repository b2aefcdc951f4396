# gorillas

A two-player artillery game in a city skyline: each player types an angle
and a velocity, and a banana flies through wind and gravity at the other
gorilla.

## Layout

- `src/` is the verified library (Verus):
  - `palette.rs`: the EGA colour attributes and their RGB values;
  - `text.rs`: the 5x7 font, text cells and centring;
  - `canvas.rs`: the pixel raster (attributes per pixel), rectangles,
    Bresenham lines, and the run decomposition the renderer draws;
  - `city.rs`: skyline, window and wind generation from a seeded generator,
    and where the gorillas stand;
  - `scene.rs`: drawing the skyline and the wind arrow;
  - `game.rs`: turns, typed numbers, submissions, collision verdicts,
    explosions, scoring and the victory dance;
  - `menu.rs`: the set-up menu and the screen flow;
  - `screens.rs`: the texts of the menu, the game-over screen and the HUD;
  - `audio.rs`: the melodies as note events and the event queue;
  - `render.rs`: row alignment and screenshot pixel conversion.
- `tests/` exercises the library on concrete values.
- `app/` is the program around it: the window and event loop, the GPU
  renderer, the synthesizer output, and the floating-point physics and
  shapes (sun, gorillas, explosion clouds).
