# quant_cache

Economic cache decisions for CDN operators, as a verified Verus library.

The library turns provider logs into traces, describes cache policies, compiles them for CDN
platforms, checks the compiled configurations, and decides what the `qc` program does next. Every
function states in its contract what it returns, and Verus proves it.

## Layout

- `src/` is the library.
  - `intern`, `compact_trace`, `trace`: request events, and their compact form with interned strings.
  - `scenario`, `preset`, `policy`, `policy_ir`, `object`, `metrics`, `origin_cost`, `error`: the
    model.
  - `providers`: parsers for CloudFront, Cloudflare and Fastly logs.
  - `keys`, `scores`: cache keys as deployed scripts look them up, and the scores under them.
  - `compile`: configurations for Cloudflare, CloudFront, Fastly and Akamai, and what each platform
    finds wrong with one.
  - `commands`: what the commands decide and tell between reading and writing.
  - `foreign`: what callers in other languages hand over.
  - `json`, `number`, `text`, `words`: JSON values, floating-point numbers by their bits, and texts.
- `app/` is the `qc` program around it: the command line, files, floating-point arithmetic, and the
  calls into the solver and the simulator.
- `tests/` runs the library on concrete values.

## What is trusted

The library calls `serde_json`, `regex` and `chrono`, and a few functions of the standard library,
behind small functions whose contracts are believed: they stand in `json.rs`, `keys.rs`, `trace.rs`,
`text.rs`, `providers/lines.rs` and `providers/fastly.rs`, each with what is claimed of it.

Floating-point numbers are held by their bits. They are compared in the library and computed with
in `app/`.
