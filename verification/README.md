# devgen

Turns a transformer checkpoint's configuration into the programs that a persistent device
interpreter runs: a tensor table, one instruction stream for each prefill width and each decode
width, and the build manifest and C header that tell an interpreter what it has to be compiled with.

- `src/` is the library. Every function carries a contract, which Verus proves.
  - `shape`, `arith`, `flash`, `fine_map`: splits, rings, shares and wait maps.
  - `gemm`, `tune`, `pricing`, `products`, `target`, `amd_target`: what a model's products cost on
    each tile, which tile each gets, and for which part.
  - `isa`, `builder`: instructions, dependencies, and the stream they are appended to.
  - `tensors`, `declare`: the tensor table.
  - `phase`, `steps`, `attention`, `mlp`, `router`, `xreduce`, `dense_phase`: one program.
  - `ladder`, `dense`, `fits`, `gate`, `refusals`, `finish`: a whole model, what it needs, how it
    is refused, and its last checks.
  - `opcodes`, `arms`, `packet_shape`, `features`, `backends`, `inventory`, `chains`,
    `expert_parallel`, `pairing`, `manifest`, `config_header`: the manifest and the header.
  - `mixed_step_emit`, `fusion`, `production`, `knobs`, `route`, `args`: what surrounds an emission.
  - `declare_laws`, `room_laws`, `program_laws`, `model_laws`, `manifest_laws`: what holds of
    everything that is emitted.
- `tests/` runs the library on concrete values.
- `app/` reads files and the environment, and writes what the library made.

Documents are written and read with `serde_json`; what is taken on trust from it stands in
`src/json.rs`.
