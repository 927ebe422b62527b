# voxel_engine

Verified core of a voxel space-engineering game.

- `src/` — the library, with its contracts and proofs: chunks and meshing, voxel
  schemas, providers with an edit overlay and its save format, chunk
  streaming, terrain block placement, volumes and dirty tracking, the job
  queue of the chunk pipeline, pools (chunks, meshes, GPU buffers), the
  texture atlas, texture staging and the bind-group cache.
- `app/` — runtime around it: float noise and geometry, ray casting,
  marching-cubes interpolation, file I/O, worker threads and GPU calls.
- `tests/` — tests of the library.
