# wg10_terrain

Verified integer core of a clipmap terrain runtime, written in Verus.

`src/` (verified):

- `npy_random` — NumPy-compatible `SeedSequence` entropy mixing and the PCG64
  (XSL-RR 128/64) bit generator behind `default_rng(int)`.
- `lattice_hash` — the 31-bit integer lattice hash under the recipe value noise.
- `grid_ops` — core cropping, square transpose and super-region slicing of flat
  row-major grids, with seam and composition laws.
- `pass_network` — routing parameters and predecessor-chain path reconstruction.
- `pool_state` — page-pool producer configuration, the acquire guard, producer
  dispatch, acquisition counters, WORLD limit and super-region keys.
- `page_acquire` — the acquire step (guard, policy decision, produce, roll
  back or free), per-slot material textures, and the teardown / install
  steps of a reconfiguration.
- `world_build` — the WORLD context build as a state machine that releases
  every built context exactly once.
- `slot_table` — page texture handle slots with single-owner teardown.
- `region_queue` — in-flight super-region bake bookkeeping.
- `world_layer_contract` — the mountain world-layer contract report.
- `payload_layout` — the ordered integer and text layout checks of a static
  reference payload, header and per chunk, and the scan that refuses any
  payload with a refused header or chunk.
- `tile_layout` — the ordered layout checks of a runtime-tile payload.
- `static_stitch` — chunk-grid layout, corridor seam stitching and coverage of
  the static reference payload.
- `names`, `probe` — family-id routing to runtime biomes, the probe function
  selector and its push-constant encoding.

`app/` holds the floating-point and serialization glue (float draws, value
noise, Dijkstra and distance transform, ring geometry, payload loading).
`tests/` exercises the library on concrete values.
