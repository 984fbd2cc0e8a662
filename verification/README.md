# heat_room

A room whose floor remembers heat: a first-person scene in which blobs of
heat are stamped onto a 64 × 64 grid on the floor, spread to their
neighbours and fade every frame.

- `src/` is the verified library (Verus):
  - `heat.rs`: the heat grid, generic over the cell value; which cells a
    stamp covers, how each cell's five-point neighbourhood is read (edges
    replicate), and laws on both.
  - `room.rs`: the room's mesh in whole world units (24 vertices, 36
    indices), with laws on its normals, planes and winding; the index
    bytes for the GPU come from `bytemuck`.
  - `controls.rs`: the held keys, the cursor lock and the action taken on
    each window event.
- `app/` is the program around it: window and event loop (winit), GPU
  (wgpu), the floating-point camera (glam) and the floating-point heat
  arithmetic handed to the library as functions.
- `tests/` runs the library on concrete values.
