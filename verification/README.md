# dry-core

The plain-value core of the Dry toolpath compiler, written in Verus. Every function in `src/` is
verified against its `requires`/`ensures` contract, except two trusted wrappers on the standard
library in `src/text.rs`: `to_lowercase` (over `str::to_lowercase`) and `push_char` (over
`String::push`). Their contracts are believed, not proved.

- `src/` — the verified library: the rule catalog and contract gates of the verifier (`verify`),
  report envelopes and batch roll-ups (`report`), the Klipper `printer.cfg` scanner and import
  (`profile::klipper`), the STEP-NC workingstep line grammar (`step_nc`), contour stitching over
  quantised endpoints (`contour`), the keep-or-reject rule for optimised spans (`optimize`),
  recommendation classification (`recommend`), provenance maps (`provenance`, `pipeline`), the tool
  registry and G-code emitters (`tool`, `multi_head`, `multi_robot`), and text utilities (`text`),
  among them a recogniser of Rust's floating-point literal syntax.
- `app/` — ordinary Rust around the library: conversions of number texts to `f64` and the
  decisions made on floating-point values (whether a speed range's bounds are finite and ordered,
  handed back to `recommend::settle_range`), serde copies of the report types, and `Display` impls.
- `tests/` — tests of the library's public functions.
