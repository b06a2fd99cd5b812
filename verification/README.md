# mwa_hyperdrive (verified core)

The verified core of the MWA calibration tools, written in Verus:

- `src/uvfits.rs`: uvfits baseline numbers and truncated date strings.
- `src/filenames.rs`, `src/params.rs`: classifying input files and checking
  the calibration arguments (input data, output files, dipole delays).
- `src/helpers.rs`: guessing the interval of regularly spaced values.
- `src/modeller.rs`: index bookkeeping for the sky modeller.
- `src/rts_solutions.rs`: the checks made when reading RTS calibration
  solutions.
- `src/srclist/`: reading RTS source lists (`rts.rs`), writing WODEN source
  lists (`woden.rs`) and choosing source-list types (`convert.rs`).
- `src/text.rs`: whitespace splitting and decimal formatting.

`app/` holds the `srclist` program and the parts that touch the filesystem
or compute in floating point; it hands the library plain values.
