# hash-bench

Chooses a hash function (SHA-256, SHA3-256, BLAKE3, Poseidon) by expected
cost over a probability-weighted set of use cases, natively and inside a
prover whose trace is padded to a power of two.

- `src/` is the verified library (Verus): permutation call counts per
  message (`callcount`), permutation totals and padded trace heights
  (`costmodel`), the native hash backends (`backends`), the expansion of a
  zkVM description into weighted use cases (`zkvm`), integer calibration
  defaults (`calibration`) and command-line flag lookup (`cli`).
- `app/` is the program around it: reading TOML/JSON files, timing the
  backends and fitting the native atoms, the floating-point cost model and
  the Markdown report.
- `tests/` exercises the library on concrete values.
