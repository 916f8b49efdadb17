# ocio

Color-space descriptions, CPU and GPU processor state, and GPU shader text
generation, written in Verus with their contracts proved.

- `src/` is the verified library (see the module list in `src/lib.rs`).
- `tests/` runs the library on concrete values.
- `app/` holds what works on floating-point values: applying a CPU
  processor's ops to pixels and images, and printing a color space with its
  allocation variables.
