# fflonk_decider

A verified core of an FFLONK-based decider for Nova proofs over BN254,
written in Verus.

- `src/` is the library. Field elements, polynomials and curve points are
  held as plain values (canonical limbs, coefficient lists, uncompressed
  point encodings). The arithmetic on them is done by the arkworks crates
  and `w3f-pcs` behind small trusted wrappers whose contracts say what each
  call computes; everything built on them is verified.
  - `field`, `poly`, `curve`: scalars, polynomials and the FFLONK
    combination `g(X) = W(X^2) + X * E(X^2)`, curve points and pairings.
  - `kzg`: the universal reference string, KZG commitments, openings and
    the pairing check of an opening.
  - `decider`: reference-string sizing, preprocessing, proving and
    verification of the decider, with the laws that tie them together.
  - `solidity`: the data the Solidity verifier template is filled with.
  - `circuit_size`, `bench_circuit`, `memory`: benchmark presets and
    circuit, and the parsing of process memory figures.
- `app/` holds what touches the process: reading `/proc/self/status`,
  loading a reference string from disk, the environment-driven
  preprocessing entry point and the memory report.
- `tests/` runs the library against the real outside crates.
