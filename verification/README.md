# light_field_test

A simulator of a two-panel light-field display. Rays cast on the GPU
record which panel pixel and which target pixel each ray crosses; those
samples become sparse ray-mapping matrices, and a multiplicative-update
factorization turns the target image into the images of the two panels.

The integer logic is a Verus-verified library under `src/`:

- `sparse`, `dense`, `light_field`: triplet lists, per-view mapping
  matrices, their stacking, the filter of unreachable pixels, and the
  matrices built from the sample buffers;
- `buffer`: decoding of buffers read back from the GPU and the check of
  index buffers;
- `dispatch`: work-group counts and row padding of texture copies;
- `history`, `controls`, `cache`, `naming`: browsing of saved cameras and
  scenes, keyboard decisions, the cache of panel images, file names;
- `arr`: vectors and matrices as the arrays written to uniform buffers.

`app/` holds what the library does not: the command line, bincode files,
the floating-point factorizations with faer, image conversion, plotting,
and the GPU buffers whose contents it hands to the library.

The benchmarks run with `--type-head sep|sep-old|stereo` on a capture
saved as `Kernel.ro`.
