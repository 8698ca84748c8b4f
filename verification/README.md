# rest_scf

The decisions, records and index computations of a self-consistent-field program with
implicit solvation, verified with Verus.

- `src/scf_io` holds the self-consistent-field procedure: its set-up, the kernels of the Fock
  matrix, the energies, the iteration and its mixing records, smeared occupations, and the
  partitions and visiting orders of the integral kernels.
- `src/solvent` holds the continuum models: input and cavity surface, the terms of the charge
  equation and of its gradient, blocks of work for the potentials, surface-tension tables, and
  the segments and polygons of the accessible surface.
- `src/binary64.rs` compares floating-point numbers by their bit patterns, exactly as the
  machine does, and `src/counts.rs` rounds them. The library does no floating-point
  arithmetic.
- `src/packed.rs`, `src/triangular.rs` and `src/sequences.rs` are index arithmetic that the
  others share.

`app` does the floating-point arithmetic along the plans of the library. Integrals, matrix
factorizations and diagonalizations come from the program that uses it, through traits.

Functions whose names begin with `law_` state properties that hold across several functions.
