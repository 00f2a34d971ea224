# forge

The verified core of FORGE, a modelling environment that joins exact
parametric CAD with polygon editing and a versioned asset store. The library
is written in Verus: the functions in `src/` carry `requires`/`ensures`
contracts that Verus proves, except a few small wrappers marked
`#[verifier::external_body]`. Those wrap calls into `std`, `ulid` and
`serde_json`; Verus trusts their contracts without proof, and each one's doc
comment says what it claims.

## Layout

- `src/` — the verified library:
  - `doc`: the document history with unified undo/redo and subscriptions;
  - `mesh`, `adyacencia`, `soldadura`, `subdivision`, `modifiers`: the polygon
    domain, its invariants, welding, Catmull–Clark topology and the modifier
    stack with provenance checks;
  - `kernel`, `poliedro`, `rejilla`: the kernel contract, polyhedron topology
    (edges, sweeps, bevels, welding) and the grid boundary of box unions;
  - `interop`, `obj`, `glb`, `gltf`: exchange formats (axis conversion, OBJ
    parsing and writing, the `.glb` container and glTF mesh reading);
  - `material`, `analisis`, `wgsl`: the material graph, its analysis and WGSL
    generation;
  - `activos`, `consulta`, `aplicacion`, `diario`, `recorrido`, `orden`,
    `copias`: the asset store's types, queries, journal replay plan and
    dependency walks;
  - `hash`, `texto`, `vector`, `ids`: shared helpers.
- `app/` — ordinary Rust around the library: file and database I/O, floating
  point geometry, JSON and CBOR through `serde`, and the kernel driver.
- `tests/` — tests of the library, run with the real outside crates linked.

Positions and other real numbers cross into the library as the bits of their
`f64`/`f32`; the arithmetic on them lives in `app/`.
