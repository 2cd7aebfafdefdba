# woodeneye

A split-screen wireframe shooter for up to four players who share one window, each with a mouse
and a keyboard. The rules of the game are a Verus library; the floating-point physics, the
projection and the drawing around it are ordinary Rust.

`src/` is the verified library:

- `map`: the wireframe box the game takes place in.
- `game`: players, spawn points, shooting, and which device belongs to whom.
- `motion`: looking around, steering, the walls and what they do to a player.
- `random`: the xorshift64* generator that decides where a hit player comes back.
- `input`, `devices`: keys, and the numbering of input devices.
- `app`: the state of a running game and what window and device events do to it.
- `frame`: when to simulate and draw, and when the swapchain has to be made anew.
- `scene`: how the window is split, and the list of line vertices of a frame.
- `single`: what single precision makes of whole coordinates, for `map` and `scene`.
- `gpu`: which graphics device to take.

Proof functions whose names begin with `law_` state what holds of the game as a whole.

`tests/` runs the library on concrete values. `app/` is the program: window, Vulkan, and the parts
that need floating point.
