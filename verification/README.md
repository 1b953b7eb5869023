# codex_widget

The data side of a compact desktop widget that shows how much of the Codex
rate-limit windows, platform tokens and credits an account has used.

- `src/` is the verified library (Verus): the display model built from the
  app-server answers (`models`), the per-model aggregation of usage reports
  (`usage`, `fetcher`), request parameters and headers (`api`, `fetcher`),
  calendar and clock computations on Unix timestamps (`clock`), the periods
  that daily costs are summed over (`costs`), countdown and
  duration texts (`countdown`, `bridge`), decimal and UTF-16 text (`text`,
  `text16`), the colour palette (`theme`) and setting defaults (`config`).
- `app/` is the program around it: the gpui window, HTTP calls (ureq), the
  settings file (serde, dirs), the WASM module (wasmtime), the Win32 calls,
  and the float computations (percentages, dollar amounts).
- `tests/` exercises the library on concrete values.
