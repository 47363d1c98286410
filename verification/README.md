# bm_core

Verified building blocks of a small bookmark manager whose callers include
C code, written in Verus.

- `src/` is the verified library. URL normalization comes in three shapes:
  `validate_and_narrow` checks and writes byte by byte, `high_quality`
  checks the whole input before it touches the caller's buffer (and
  `benchmarking` and `normalize` report its outcome as integer codes).
  `tag` normalizes tags, `bookmark` owns copied bookmark records, and the
  remaining modules hold small byte, layout and session helpers.
  Every public function that returns or changes something states it in its
  contract; the laws that relate functions are public proof functions.
- `tests/` runs the library on concrete inputs.
- `app/` is the C-facing surface: `extern "C"` entry points that check and
  convert raw pointers before calling the library, the live-bookmark counter,
  and the calls into C helpers that are not part of this crate.
