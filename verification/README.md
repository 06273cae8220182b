# rust_ffi_exercises

The logic behind a set of Rust FFI exercises, written in Verus and verified:
each function states in `requires` / `ensures` what it does, and Verus proves
it.

- `src/` — the verified library, one module per exercise (`ex01_calling_c`
  … `ex29_unsafecell`), plus `kv` (a string-keyed map with distinct keys,
  used for configurations, databases, session options and counters) and
  `text` (decimal rendering, joins, UTF-8 helpers). Public proof functions
  named `law_*` state properties that relate several operations, such as
  reading back what was written or parsing what was rendered.
- `tests/` — ordinary Rust tests of the library.
- `app/` — the C-facing side: `extern "C"` entry points that turn raw
  pointers and C strings into plain values and call the library,
  process-wide registries, the floating-point exercises, and the code that
  is unsafe by design (vtable reads, undefined-behaviour examples).

Verify the library with `verus --crate-type lib src/lib.rs`.
