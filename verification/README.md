# orbital_viewer

The verified logic of a small wgpu viewer that samples an orbital density on
a grid on the GPU and draws OBJ models and the selected grid cells.

- `src/` — the library, verified with Verus:
  - `obj_text` — reading Wavefront OBJ text: lines, words, `u16` fields,
    which texts can be loaded, and the vertex fields and triangle corners
    they hold;
  - `mesh_edges` — the wireframe edges of a triangle list, each side once;
  - `voxel_grid` — the sampling grid's cell indices and coordinates, and the
    cube meshes drawn for selected cells;
  - `gpu_bytes` — the bytes of index lists as uploaded to the GPU;
  - `controls` — key and mouse decisions (camera moves, commands, held keys,
    rotation);
  - `surface` — resizes, per-frame plans and the choice of surface format.
- `app/` — the windowed program around it: GPU resources, floating-point
  camera geometry and parsing of vertex coordinates, and winit event glue.
- `tests/` — tests of the library on concrete values.
