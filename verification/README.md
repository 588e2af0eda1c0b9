# cadsd

A toolkit for computer-aided didgeridoo sound design: transmission-line
impedance simulation, evolutionary bore optimization, field-solver cross
checks, and a command-line front end.

## Layout

- `src/` — the verified library (Verus). It holds the parts of the toolkit
  that compute on integers and text, each with a contract:
  - `sieve`, `evo`, `prime_conv`: the sieve of Eratosthenes and the two prime
    generators (prime-indexed mutation, prime-sized convolution kernels);
  - `text`, `cli`, `sim`, `choices`: reading and comparing arguments, the
    command and option scanning of the CLI, the strategy names, and the
    names behind the editor's numbered choices;
  - `fdtd`, `dwm`: cell and junction indexing of the 3-D FDTD grid and the
    waveguide meshes;
  - `genes`: the gene layout of the Kigali genome and the crossover spans;
  - `history`: the undo/redo histories of the two editors;
  - `export`, `fingerprint`: OBJ polyline records and the geometry fingerprint;
  - `diff_tlm`: the shape of the dense complex layer.
- `app/` — the command-line program and the floating-point acoustics,
  optimization and loss code around the library.
- `tests/` — tests of the library.
