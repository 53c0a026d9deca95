# kv_asm

A formatter that turns sBPF assembly written as Rust tokens (one instruction,
label or directive per source line, no quotes) into the template string that
`core::arch::asm!` / `core::arch::global_asm!` expect, verified with Verus.

- `src/` — the verified library: the token model (`token`), where the `asm!`
  operands begin (`classify`), grouping by source line (`lines`), the spelling
  of a line (`render`), the three expansions `kv_asm`, `kv_global_asm` and
  `kv_asm_array` (`expand`) and proved properties of the formatter (`laws`).
- `app/` — the token-stream front end: reads `proc_macro2` tokens into the
  library's model and builds the expansion with `quote!`.
- `tests/` — formatting scenarios, one assembly line per source line.
